//! The summary texts: one site after connecting, one site's overview, and all saved sites together.
use vstd::prelude::*;
use vstd::string::*;

use crate::query::AllInfo;
use crate::text::{
    int_text, pretty_bytes_text, push_int, push_nat, push_pretty_bytes, push_ratio, ratio_text,
};
use crate::totals::{
    append_node_column, append_online_column, checked_sum, count_true, count_true_exec,
    fleet_node_column, fleet_node_column_exec, fleet_online_column, fleet_online_column_exec,
    fleet_sums, fleet_sums_exec, fleet_sums_fit, index_of, node_column, online_column, seq_sum,
    site_sums, site_sums_exec, site_sums_fit, sum_fits, lemma_sum_concat, lemma_count_concat,
    lemma_fleet_columns_concat, field_at, fleet_status_column, NodeField, StatusField,
    STATUS_FIELD_COUNT,
};

verus! {

/// The message given when a total leaves the `i64` range.
pub open spec fn overflow_message() -> Seq<char> {
    "统计数值超出范围"@
}

/// `part` as a percentage of `whole` with two decimals, `0.00` when `whole` is not positive.
pub open spec fn share_text(part: int, whole: int) -> Seq<char> {
    if whole > 0 {
        ratio_text(100 * part, whole)
    } else {
        ratio_text(0, 1)
    }
}

/// The entry of `sums` (in the order of `field_at`) for `f`.
pub open spec fn sum_of(sums: Seq<i64>, f: StatusField) -> int {
    sums[index_of(f)] as int
}

/// The first lines of an overview: online nodes, cores and average CPU.
#[verifier::opaque]
pub open spec fn head_text(online: int, count: int, cores: int, avg_cpu: Seq<char>) -> Seq<char> {
    "ONLINE: `"@ + int_text(online) + "` / `"@ + int_text(count) + "` `"@ + share_text(online, count)
        + "%`\nCPU CORES: `"@ + int_text(cores) + "`\nAVG CPU: `"@ + avg_cpu
}

/// The load line: three load sums in hundredths, averaged over `den` nodes.
#[verifier::opaque]
pub open spec fn load_text(load1: int, load5: int, load15: int, den: int) -> Seq<char> {
    "%`\nAVG LOAD: `"@ + ratio_text(load1, 100 * den) + "` / `"@ + ratio_text(load5, 100 * den)
        + "` / `"@ + ratio_text(load15, 100 * den)
}

/// One line of used and total bytes with the used share.
#[verifier::opaque]
pub open spec fn usage_text(label: Seq<char>, used: int, total: int) -> Seq<char> {
    label + pretty_bytes_text(used) + "` / `"@ + pretty_bytes_text(total) + "` `"@ + share_text(
        used,
        total,
    )
}

/// The traffic and connection lines.
#[verifier::opaque]
pub open spec fn traffic_text(
    total_down: int,
    total_up: int,
    rate_in: int,
    rate_out: int,
    tcp: int,
    udp: int,
) -> Seq<char> {
    "%`\n\nDOWN: `"@ + pretty_bytes_text(total_down) + "`\nUP: `"@ + pretty_bytes_text(total_up)
        + "`\nDOWN SPEED: `"@ + ratio_text(rate_in, 125000) + " Mbps`\nUP SPEED: `"@ + ratio_text(
        rate_out,
        125000,
    ) + " Mbps`\nCONN: `"@ + int_text(tcp) + " TCP` / `"@ + int_text(udp) + " UDP`"@
}

/// The lines from `ONLINE` to `CONN` that the site overview and the fleet overview share.
#[verifier::opaque]
pub open spec fn overview_text(
    sums: Seq<i64>,
    online: int,
    count: int,
    cores: int,
    avg_cpu: Seq<char>,
    load_den: int,
) -> Seq<char> {
    head_text(online, count, cores, avg_cpu) + load_text(
        sum_of(sums, StatusField::Load),
        sum_of(sums, StatusField::Load5),
        sum_of(sums, StatusField::Load15),
        load_den,
    ) + usage_text(
        "`\n\nMEM: `"@,
        sum_of(sums, StatusField::Ram),
        sum_of(sums, StatusField::RamTotal),
    ) + usage_text(
        "%`\nSWAP: `"@,
        sum_of(sums, StatusField::Swap),
        sum_of(sums, StatusField::SwapTotal),
    ) + usage_text(
        "%`\nDISK: `"@,
        sum_of(sums, StatusField::Disk),
        sum_of(sums, StatusField::DiskTotal),
    ) + traffic_text(
        sum_of(sums, StatusField::NetTotalDown),
        sum_of(sums, StatusField::NetTotalUp),
        sum_of(sums, StatusField::NetIn),
        sum_of(sums, StatusField::NetOut),
        sum_of(sums, StatusField::Connections),
        sum_of(sums, StatusField::ConnectionsUdp),
    )
}

/// Every total that the site overview shows fits in `i64`.
pub open spec fn total_status_fits(info: AllInfo) -> bool {
    site_sums_fit(info) && sum_fits(node_column(info.common_nodes@, NodeField::CpuCores))
}

/// The overview of one site: online nodes, cores, average CPU and load over the
/// online nodes, and memory, swap, disk, traffic and connections added up.
pub open spec fn total_status_text(info: AllInfo) -> Seq<char> {
    let online = count_true(online_column(info.common_nodes_latest_status@));
    let sums = site_sums(info);
    info.common_public_info.sitename@ + " 总览\n\n"@ + overview_text(
        sums,
        online as int,
        info.common_nodes_latest_status@.len() as int,
        seq_sum(node_column(info.common_nodes@, NodeField::CpuCores)),
        ratio_text(sum_of(sums, StatusField::Cpu), 100 * (online as int)),
        online as int,
    )
}

/// A site is counted in the fleet overview when no node claims more than 384 cores.
pub open spec fn site_is_plausible(info: AllInfo) -> bool {
    forall|i: int|
        0 <= i < info.common_nodes@.len() ==> #[trigger] info.common_nodes@[i].1.cpu_cores <= 384
}

/// The plausible sites, in their order.
pub open spec fn plausible_sites(infos: Seq<AllInfo>) -> Seq<AllInfo>
    decreases infos.len(),
{
    if infos.len() == 0 {
        seq![]
    } else if site_is_plausible(infos.last()) {
        plausible_sites(infos.drop_last()).push(infos.last())
    } else {
        plausible_sites(infos.drop_last())
    }
}

/// Every total that the fleet overview shows fits in `i64`.
pub open spec fn fleet_fits(infos: Seq<AllInfo>) -> bool {
    fleet_sums_fit(infos) && sum_fits(fleet_node_column(infos, NodeField::CpuCores))
}

/// The overview of all sites: how many are saved and how many answered, then the
/// figures of all their nodes together, loads averaged over all nodes, and the
/// number of nodes per core as the CPU figure.
pub open spec fn fleet_text(saved: int, fetched: int, infos: Seq<AllInfo>) -> Seq<char> {
    let flags = fleet_online_column(infos);
    let cores = fleet_node_column(infos, NodeField::CpuCores);
    "@komaritgbot 总览:\n\n本 Bot 已保存连接: "@ + int_text(saved) + "\n本 Bot 已成功读取: "@
        + int_text(fetched) + "\n\n"@ + overview_text(
        fleet_sums(infos),
        count_true(flags) as int,
        flags.len() as int,
        seq_sum(cores),
        share_text(cores.len() as int, seq_sum(cores)),
        flags.len() as int,
    )
}

/// Every total that the connection summary shows fits in `i64`.
pub open spec fn connect_summary_fits(info: AllInfo) -> bool {
    &&& sum_fits(node_column(info.common_nodes@, NodeField::CpuCores))
    &&& sum_fits(node_column(info.common_nodes@, NodeField::MemTotal))
    &&& sum_fits(node_column(info.common_nodes@, NodeField::SwapTotal))
    &&& sum_fits(node_column(info.common_nodes@, NodeField::DiskTotal))
}

/// What a user sees after connecting a site: its name, description and version,
/// and the node count with cores, memory, swap and disk added up.
pub open spec fn connect_summary_text(info: AllInfo) -> Seq<char> {
    "成功读取 Komari 服务信息！\n站点名称：`"@ + info.common_public_info.sitename@
        + "`\n站点详情：`"@ + info.common_public_info.description@ + "`\n站点版本: `"@
        + info.common_version.version@ + "-"@ + info.common_version.hash@ + "`\n\n节点数量：`"@
        + int_text(info.common_nodes@.len() as int) + "`\nCPU 核心总数：`"@ + int_text(
        seq_sum(node_column(info.common_nodes@, NodeField::CpuCores)),
    ) + "`\n内存总量：`"@ + pretty_bytes_text(
        seq_sum(node_column(info.common_nodes@, NodeField::MemTotal)),
    ) + "`\n交换分区总量：`"@ + pretty_bytes_text(
        seq_sum(node_column(info.common_nodes@, NodeField::SwapTotal)),
    ) + "`\n硬盘总量：`"@ + pretty_bytes_text(
        seq_sum(node_column(info.common_nodes@, NodeField::DiskTotal)),
    ) + "`"@
}

fn overflow_error() -> (r: String)
    ensures
        r@ == overflow_message(),
{
    String::from_str("统计数值超出范围")
}

fn push_share(s: &mut String, part: i128, whole: i128)
    requires
        -0x100000000000000000000 <= part <= 0x100000000000000000000,
        -0x100000000000000000000 <= whole <= 0x100000000000000000000,
    ensures
        final(s)@ == old(s)@ + share_text(part as int, whole as int),
{
    if whole > 0 {
        push_ratio(s, 100 * part, whole);
    } else {
        push_ratio(s, 0, 1);
    }
}

fn head_string(online: usize, count: usize, cores: i64, avg_cpu: &String) -> (r: String)
    ensures
        r@ == head_text(online as int, count as int, cores as int, avg_cpu@),
{
    reveal(head_text);
    let mut s = String::from_str("ONLINE: `");
    push_nat(&mut s, online as u128);
    s.append("` / `");
    push_nat(&mut s, count as u128);
    s.append("` `");
    push_share(&mut s, online as i128, count as i128);
    s.append("%`\nCPU CORES: `");
    push_int(&mut s, cores);
    s.append("`\nAVG CPU: `");
    s.append(avg_cpu.as_str());
    s
}

fn load_string(load1: i64, load5: i64, load15: i64, den: usize) -> (r: String)
    ensures
        r@ == load_text(load1 as int, load5 as int, load15 as int, den as int),
{
    reveal(load_text);
    let d: i128 = 100 * (den as i128);
    let mut s = String::from_str("%`\nAVG LOAD: `");
    push_ratio(&mut s, load1 as i128, d);
    s.append("` / `");
    push_ratio(&mut s, load5 as i128, d);
    s.append("` / `");
    push_ratio(&mut s, load15 as i128, d);
    s
}

fn usage_string(label: &str, used: i64, total: i64) -> (r: String)
    ensures
        r@ == usage_text(label@, used as int, total as int),
{
    reveal(usage_text);
    let mut s = String::from_str(label);
    push_pretty_bytes(&mut s, used);
    s.append("` / `");
    push_pretty_bytes(&mut s, total);
    s.append("` `");
    push_share(&mut s, used as i128, total as i128);
    s
}

fn traffic_string(
    total_down: i64,
    total_up: i64,
    rate_in: i64,
    rate_out: i64,
    tcp: i64,
    udp: i64,
) -> (r: String)
    ensures
        r@ == traffic_text(
            total_down as int,
            total_up as int,
            rate_in as int,
            rate_out as int,
            tcp as int,
            udp as int,
        ),
{
    reveal(traffic_text);
    let mut s = String::from_str("%`\n\nDOWN: `");
    push_pretty_bytes(&mut s, total_down);
    s.append("`\nUP: `");
    push_pretty_bytes(&mut s, total_up);
    s.append("`\nDOWN SPEED: `");
    push_ratio(&mut s, rate_in as i128, 125000);
    s.append(" Mbps`\nUP SPEED: `");
    push_ratio(&mut s, rate_out as i128, 125000);
    s.append(" Mbps`\nCONN: `");
    push_int(&mut s, tcp);
    s.append(" TCP` / `");
    push_int(&mut s, udp);
    s.append(" UDP`");
    s
}

fn overview_string(
    sums: &Vec<i64>,
    online: usize,
    count: usize,
    cores: i64,
    avg_cpu: &String,
    load_den: usize,
) -> (r: String)
    requires
        sums@.len() == STATUS_FIELD_COUNT,
    ensures
        r@ == overview_text(
            sums@,
            online as int,
            count as int,
            cores as int,
            avg_cpu@,
            load_den as int,
        ),
{
    reveal(overview_text);
    let mut s = head_string(online, count, cores, avg_cpu);
    s.append(load_string(sums[1], sums[2], sums[3], load_den).as_str());
    s.append(usage_string("`\n\nMEM: `", sums[4], sums[5]).as_str());
    s.append(usage_string("%`\nSWAP: `", sums[6], sums[7]).as_str());
    s.append(usage_string("%`\nDISK: `", sums[8], sums[9]).as_str());
    s.append(
        traffic_string(sums[10], sums[11], sums[12], sums[13], sums[14], sums[15]).as_str(),
    );
    s
}

/// The overview of one site, or the overflow message where a total leaves the `i64` range.
pub fn total_status(info: &AllInfo) -> (r: Result<String, String>)
    ensures
        r is Ok <==> total_status_fits(*info),
        r is Ok ==> r->Ok_0@ == total_status_text(*info),
        r is Err ==> r->Err_0@ == overflow_message(),
{
    let sums = match site_sums_exec(info) {
        Some(v) => v,
        None => {
            return Err(overflow_error());
        },
    };
    let mut cores_col: Vec<i64> = Vec::new();
    append_node_column(&mut cores_col, &info.common_nodes, NodeField::CpuCores);
    assert(cores_col@ =~= node_column(info.common_nodes@, NodeField::CpuCores));
    let cores = match checked_sum(&cores_col) {
        Some(v) => v,
        None => {
            return Err(overflow_error());
        },
    };
    let mut flags: Vec<bool> = Vec::new();
    append_online_column(&mut flags, &info.common_nodes_latest_status);
    assert(flags@ =~= online_column(info.common_nodes_latest_status@));
    let online = count_true_exec(&flags);
    let mut avg_cpu = String::new();
    push_ratio(&mut avg_cpu, sums[0] as i128, 100 * (online as i128));
    assert(avg_cpu@ =~= ratio_text(sum_of(sums@, StatusField::Cpu), 100 * (online as int)));
    let body = overview_string(
        &sums,
        online,
        info.common_nodes_latest_status.len(),
        cores,
        &avg_cpu,
        online,
    );
    let mut msg = info.common_public_info.sitename.clone();
    msg.append(" 总览\n\n");
    msg.append(body.as_str());
    Ok(msg)
}

/// Keeps the sites on which no node claims more than 384 cores, in their order.
pub fn filter_valid_all_info(all_infos: Vec<AllInfo>) -> (r: Vec<AllInfo>)
    ensures
        r@ == plausible_sites(all_infos@),
{
    let ghost orig = all_infos@;
    let mut rest = all_infos;
    let mut kept: Vec<AllInfo> = Vec::new();
    let ghost mut k: int = 0;
    while rest.len() > 0
        invariant
            0 <= k <= orig.len(),
            rest@ == orig.skip(k),
            kept@ == plausible_sites(orig.take(k)),
        decreases rest@.len(),
    {
        let info = rest.remove(0);
        proof {
            assert(info == orig[k]);
            assert(orig.take(k + 1).drop_last() =~= orig.take(k));
            assert(orig.take(k + 1).last() == orig[k]);
        }
        let mut plausible = true;
        let mut i: usize = 0;
        while i < info.common_nodes.len()
            invariant
                i <= info.common_nodes@.len(),
                plausible == forall|j: int|
                    0 <= j < i ==> #[trigger] info.common_nodes@[j].1.cpu_cores <= 384,
            decreases info.common_nodes@.len() - i,
        {
            if info.common_nodes[i].1.cpu_cores > 384 {
                plausible = false;
            }
            i = i + 1;
        }
        if plausible {
            kept.push(info);
        }
        proof {
            assert(rest@ =~= orig.skip(k + 1));
            k = k + 1;
        }
    }
    proof {
        assert(orig.take(k) =~= orig);
    }
    kept
}

/// The overview of all sites, from the number of saved sites and the answers that
/// came back; sites that are not plausible are left out of the figures.
pub fn get_every_one_status(saved_count: usize, fetched: Vec<AllInfo>) -> (r: Result<
    String,
    String,
>)
    ensures
        r is Ok <==> fleet_fits(plausible_sites(fetched@)),
        r is Ok ==> r->Ok_0@ == fleet_text(
            saved_count as int,
            fetched@.len() as int,
            plausible_sites(fetched@),
        ),
        r is Err ==> r->Err_0@ == overflow_message(),
{
    let fetched_count = fetched.len();
    let infos = filter_valid_all_info(fetched);
    let sums = match fleet_sums_exec(&infos) {
        Some(v) => v,
        None => {
            return Err(overflow_error());
        },
    };
    let cores_col = fleet_node_column_exec(&infos, NodeField::CpuCores);
    let cores = match checked_sum(&cores_col) {
        Some(v) => v,
        None => {
            return Err(overflow_error());
        },
    };
    let flags = fleet_online_column_exec(&infos);
    let online = count_true_exec(&flags);
    let mut avg_cpu = String::new();
    push_share(&mut avg_cpu, cores_col.len() as i128, cores as i128);
    let body = overview_string(&sums, online, flags.len(), cores, &avg_cpu, flags.len());
    let mut msg = String::from_str("@komaritgbot 总览:\n\n本 Bot 已保存连接: ");
    push_nat(&mut msg, saved_count as u128);
    msg.append("\n本 Bot 已成功读取: ");
    push_nat(&mut msg, fetched_count as u128);
    msg.append("\n\n");
    msg.append(body.as_str());
    Ok(msg)
}

/// The summary shown after connecting a site, or the overflow message where a total
/// leaves the `i64` range.
pub fn connect_summary_message(info: &AllInfo) -> (r: Result<String, String>)
    ensures
        r is Ok <==> connect_summary_fits(*info),
        r is Ok ==> r->Ok_0@ == connect_summary_text(*info),
        r is Err ==> r->Err_0@ == overflow_message(),
{
    let mut cores_col: Vec<i64> = Vec::new();
    append_node_column(&mut cores_col, &info.common_nodes, NodeField::CpuCores);
    let mut mem_col: Vec<i64> = Vec::new();
    append_node_column(&mut mem_col, &info.common_nodes, NodeField::MemTotal);
    let mut swap_col: Vec<i64> = Vec::new();
    append_node_column(&mut swap_col, &info.common_nodes, NodeField::SwapTotal);
    let mut disk_col: Vec<i64> = Vec::new();
    append_node_column(&mut disk_col, &info.common_nodes, NodeField::DiskTotal);
    assert(cores_col@ =~= node_column(info.common_nodes@, NodeField::CpuCores));
    assert(mem_col@ =~= node_column(info.common_nodes@, NodeField::MemTotal));
    assert(swap_col@ =~= node_column(info.common_nodes@, NodeField::SwapTotal));
    assert(disk_col@ =~= node_column(info.common_nodes@, NodeField::DiskTotal));
    let cores = checked_sum(&cores_col);
    let mem = checked_sum(&mem_col);
    let swap = checked_sum(&swap_col);
    let disk = checked_sum(&disk_col);
    if cores.is_none() || mem.is_none() || swap.is_none() || disk.is_none() {
        return Err(overflow_error());
    }
    let cores = cores.unwrap();
    let mem = mem.unwrap();
    let swap = swap.unwrap();
    let disk = disk.unwrap();
    let mut s = String::from_str("成功读取 Komari 服务信息！\n站点名称：`");
    s.append(info.common_public_info.sitename.as_str());
    s.append("`\n站点详情：`");
    s.append(info.common_public_info.description.as_str());
    s.append("`\n站点版本: `");
    s.append(info.common_version.version.as_str());
    s.append("-");
    s.append(info.common_version.hash.as_str());
    s.append("`\n\n节点数量：`");
    push_nat(&mut s, info.common_nodes.len() as u128);
    s.append("`\nCPU 核心总数：`");
    push_int(&mut s, cores);
    s.append("`\n内存总量：`");
    push_pretty_bytes(&mut s, mem);
    s.append("`\n交换分区总量：`");
    push_pretty_bytes(&mut s, swap);
    s.append("`\n硬盘总量：`");
    push_pretty_bytes(&mut s, disk);
    s.append("`");
    Ok(s)
}

proof fn lemma_plausible_concat(a: Seq<AllInfo>, b: Seq<AllInfo>)
    ensures
        plausible_sites(a + b) == plausible_sites(a) + plausible_sites(b),
    decreases b.len(),
{
    if b.len() == 0 {
        assert(a + b =~= a);
        assert(plausible_sites(a) + plausible_sites(b) =~= plausible_sites(a));
    } else {
        lemma_plausible_concat(a, b.drop_last());
        assert((a + b).drop_last() =~= a + b.drop_last());
        assert((a + b).last() == b.last());
        assert(plausible_sites(a + b) =~= plausible_sites(a) + plausible_sites(b));
    }
}

proof fn lemma_fleet_swap(a: Seq<AllInfo>, b: Seq<AllInfo>)
    ensures
        fleet_fits(a + b) == fleet_fits(b + a),
        forall|saved: int, fetched: int|
            #[trigger] fleet_text(saved, fetched, a + b) == fleet_text(saved, fetched, b + a),
{
    lemma_fleet_columns_concat(a, b);
    lemma_fleet_columns_concat(b, a);
    assert forall|f: StatusField|
        seq_sum(#[trigger] fleet_status_column(a + b, f)) == seq_sum(
            fleet_status_column(b + a, f),
        ) by {
        lemma_sum_concat(fleet_status_column(a, f), fleet_status_column(b, f));
        lemma_sum_concat(fleet_status_column(b, f), fleet_status_column(a, f));
    }
    assert(fleet_sums(a + b) =~= fleet_sums(b + a)) by {
        assert forall|k: int| 0 <= k < STATUS_FIELD_COUNT implies #[trigger] fleet_sums(a + b)[k]
            == fleet_sums(b + a)[k] by {
            assert(seq_sum(fleet_status_column(a + b, field_at(k))) == seq_sum(
                fleet_status_column(b + a, field_at(k)),
            ));
        }
    }
    assert(fleet_sums_fit(a + b) == fleet_sums_fit(b + a)) by {
        if fleet_sums_fit(a + b) {
            assert forall|k: int| 0 <= k < STATUS_FIELD_COUNT implies sum_fits(
                #[trigger] fleet_status_column(b + a, field_at(k)),
            ) by {
                assert(sum_fits(fleet_status_column(a + b, field_at(k))));
                assert(seq_sum(fleet_status_column(a + b, field_at(k))) == seq_sum(
                    fleet_status_column(b + a, field_at(k)),
                ));
            }
        }
        if fleet_sums_fit(b + a) {
            assert forall|k: int| 0 <= k < STATUS_FIELD_COUNT implies sum_fits(
                #[trigger] fleet_status_column(a + b, field_at(k)),
            ) by {
                assert(sum_fits(fleet_status_column(b + a, field_at(k))));
                assert(seq_sum(fleet_status_column(a + b, field_at(k))) == seq_sum(
                    fleet_status_column(b + a, field_at(k)),
                ));
            }
        }
    }
    let ca = fleet_node_column(a, NodeField::CpuCores);
    let cb = fleet_node_column(b, NodeField::CpuCores);
    lemma_sum_concat(ca, cb);
    lemma_sum_concat(cb, ca);
    assert(fleet_node_column(a + b, NodeField::CpuCores) == ca + cb);
    assert(fleet_node_column(b + a, NodeField::CpuCores) == cb + ca);
    lemma_count_concat(fleet_online_column(a), fleet_online_column(b));
    lemma_count_concat(fleet_online_column(b), fleet_online_column(a));
}

/// The overview of all sites does not depend on which of two batches of answers
/// came first: both the overflow verdict and the text are the same either way.
pub proof fn law_every_one_status_order_free(a: Seq<AllInfo>, b: Seq<AllInfo>, saved: int)
    ensures
        fleet_fits(plausible_sites(a + b)) == fleet_fits(plausible_sites(b + a)),
        fleet_text(saved, (a + b).len() as int, plausible_sites(a + b)) == fleet_text(
            saved,
            (b + a).len() as int,
            plausible_sites(b + a),
        ),
{
    lemma_plausible_concat(a, b);
    lemma_plausible_concat(b, a);
    lemma_fleet_swap(plausible_sites(a), plausible_sites(b));
    assert(fleet_text(saved, (a + b).len() as int, plausible_sites(a) + plausible_sites(b))
        == fleet_text(saved, (a + b).len() as int, plausible_sites(b) + plausible_sites(a)));
}

} // verus!
