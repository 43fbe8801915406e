//! Columns of node figures and their sums, checked against the `i64` range.
use vstd::prelude::*;

use crate::query::{AllInfo, CommonGetNodesLatestStatusSingle, CommonGetNodesSingle};

verus! {

/// A figure of a node's latest report that the overviews add up.
#[derive(Debug, Clone, Copy, PartialEq, Eq)]
pub enum StatusField {
    Cpu,
    Load,
    Load5,
    Load15,
    Ram,
    RamTotal,
    Swap,
    SwapTotal,
    Disk,
    DiskTotal,
    NetTotalDown,
    NetTotalUp,
    NetIn,
    NetOut,
    Connections,
    ConnectionsUdp,
}

/// A figure of a node's static description that the overviews add up.
#[derive(Debug, Clone, Copy, PartialEq, Eq)]
pub enum NodeField {
    CpuCores,
    MemTotal,
    SwapTotal,
    DiskTotal,
}

/// The number of `StatusField` variants.
pub const STATUS_FIELD_COUNT: usize = 16;

pub open spec fn status_value(s: CommonGetNodesLatestStatusSingle, f: StatusField) -> i64 {
    match f {
        StatusField::Cpu => s.cpu,
        StatusField::Load => s.load,
        StatusField::Load5 => s.load5,
        StatusField::Load15 => s.load15,
        StatusField::Ram => s.ram,
        StatusField::RamTotal => s.ram_total,
        StatusField::Swap => s.swap,
        StatusField::SwapTotal => s.swap_total,
        StatusField::Disk => s.disk,
        StatusField::DiskTotal => s.disk_total,
        StatusField::NetTotalDown => s.net_total_down,
        StatusField::NetTotalUp => s.net_total_up,
        StatusField::NetIn => s.net_in,
        StatusField::NetOut => s.net_out,
        StatusField::Connections => s.connections,
        StatusField::ConnectionsUdp => s.connections_udp,
    }
}

pub open spec fn node_value(n: CommonGetNodesSingle, f: NodeField) -> i64 {
    match f {
        NodeField::CpuCores => n.cpu_cores,
        NodeField::MemTotal => n.mem_total,
        NodeField::SwapTotal => n.swap_total,
        NodeField::DiskTotal => n.disk_total,
    }
}

/// The status fields in a fixed order, `k` from 0 to 15.
pub open spec fn field_at(k: int) -> StatusField {
    if k == 0 {
        StatusField::Cpu
    } else if k == 1 {
        StatusField::Load
    } else if k == 2 {
        StatusField::Load5
    } else if k == 3 {
        StatusField::Load15
    } else if k == 4 {
        StatusField::Ram
    } else if k == 5 {
        StatusField::RamTotal
    } else if k == 6 {
        StatusField::Swap
    } else if k == 7 {
        StatusField::SwapTotal
    } else if k == 8 {
        StatusField::Disk
    } else if k == 9 {
        StatusField::DiskTotal
    } else if k == 10 {
        StatusField::NetTotalDown
    } else if k == 11 {
        StatusField::NetTotalUp
    } else if k == 12 {
        StatusField::NetIn
    } else if k == 13 {
        StatusField::NetOut
    } else if k == 14 {
        StatusField::Connections
    } else {
        StatusField::ConnectionsUdp
    }
}

/// The place of `f` in the order of `field_at`.
pub open spec fn index_of(f: StatusField) -> int {
    match f {
        StatusField::Cpu => 0,
        StatusField::Load => 1,
        StatusField::Load5 => 2,
        StatusField::Load15 => 3,
        StatusField::Ram => 4,
        StatusField::RamTotal => 5,
        StatusField::Swap => 6,
        StatusField::SwapTotal => 7,
        StatusField::Disk => 8,
        StatusField::DiskTotal => 9,
        StatusField::NetTotalDown => 10,
        StatusField::NetTotalUp => 11,
        StatusField::NetIn => 12,
        StatusField::NetOut => 13,
        StatusField::Connections => 14,
        StatusField::ConnectionsUdp => 15,
    }
}

fn field_at_exec(k: usize) -> (f: StatusField)
    ensures
        f == field_at(k as int),
{
    if k == 0 {
        StatusField::Cpu
    } else if k == 1 {
        StatusField::Load
    } else if k == 2 {
        StatusField::Load5
    } else if k == 3 {
        StatusField::Load15
    } else if k == 4 {
        StatusField::Ram
    } else if k == 5 {
        StatusField::RamTotal
    } else if k == 6 {
        StatusField::Swap
    } else if k == 7 {
        StatusField::SwapTotal
    } else if k == 8 {
        StatusField::Disk
    } else if k == 9 {
        StatusField::DiskTotal
    } else if k == 10 {
        StatusField::NetTotalDown
    } else if k == 11 {
        StatusField::NetTotalUp
    } else if k == 12 {
        StatusField::NetIn
    } else if k == 13 {
        StatusField::NetOut
    } else if k == 14 {
        StatusField::Connections
    } else {
        StatusField::ConnectionsUdp
    }
}

fn status_value_exec(s: &CommonGetNodesLatestStatusSingle, f: StatusField) -> (r: i64)
    ensures
        r == status_value(*s, f),
{
    match f {
        StatusField::Cpu => s.cpu,
        StatusField::Load => s.load,
        StatusField::Load5 => s.load5,
        StatusField::Load15 => s.load15,
        StatusField::Ram => s.ram,
        StatusField::RamTotal => s.ram_total,
        StatusField::Swap => s.swap,
        StatusField::SwapTotal => s.swap_total,
        StatusField::Disk => s.disk,
        StatusField::DiskTotal => s.disk_total,
        StatusField::NetTotalDown => s.net_total_down,
        StatusField::NetTotalUp => s.net_total_up,
        StatusField::NetIn => s.net_in,
        StatusField::NetOut => s.net_out,
        StatusField::Connections => s.connections,
        StatusField::ConnectionsUdp => s.connections_udp,
    }
}

fn node_value_exec(n: &CommonGetNodesSingle, f: NodeField) -> (r: i64)
    ensures
        r == node_value(*n, f),
{
    match f {
        NodeField::CpuCores => n.cpu_cores,
        NodeField::MemTotal => n.mem_total,
        NodeField::SwapTotal => n.swap_total,
        NodeField::DiskTotal => n.disk_total,
    }
}

/// The sum of a sequence of integers.
pub open spec fn seq_sum(s: Seq<i64>) -> int
    decreases s.len(),
{
    if s.len() == 0 {
        0
    } else {
        seq_sum(s.drop_last()) + s.last()
    }
}

pub open spec fn in_i64(x: int) -> bool {
    i64::MIN <= x <= i64::MAX
}

/// The sum of the values fits in `i64`; the order of the values does not matter.
pub open spec fn sum_fits(s: Seq<i64>) -> bool {
    in_i64(seq_sum(s))
}

/// One figure of each report in a status table, in table order.
pub open spec fn status_column(
    list: Seq<(String, CommonGetNodesLatestStatusSingle)>,
    f: StatusField,
) -> Seq<i64>
    decreases list.len(),
{
    if list.len() == 0 {
        seq![]
    } else {
        status_column(list.drop_last(), f).push(status_value(list.last().1, f))
    }
}

/// One figure of each node in a node table, in table order.
pub open spec fn node_column(list: Seq<(String, CommonGetNodesSingle)>, f: NodeField) -> Seq<i64>
    decreases list.len(),
{
    if list.len() == 0 {
        seq![]
    } else {
        node_column(list.drop_last(), f).push(node_value(list.last().1, f))
    }
}

/// Whether each report of a status table says the node is online, in table order.
pub open spec fn online_column(list: Seq<(String, CommonGetNodesLatestStatusSingle)>) -> Seq<bool>
    decreases list.len(),
{
    if list.len() == 0 {
        seq![]
    } else {
        online_column(list.drop_last()).push(list.last().1.online)
    }
}

/// The status column of every site in turn.
pub open spec fn fleet_status_column(infos: Seq<AllInfo>, f: StatusField) -> Seq<i64>
    decreases infos.len(),
{
    if infos.len() == 0 {
        seq![]
    } else {
        fleet_status_column(infos.drop_last(), f) + status_column(
            infos.last().common_nodes_latest_status@,
            f,
        )
    }
}

/// The node column of every site in turn.
pub open spec fn fleet_node_column(infos: Seq<AllInfo>, f: NodeField) -> Seq<i64>
    decreases infos.len(),
{
    if infos.len() == 0 {
        seq![]
    } else {
        fleet_node_column(infos.drop_last(), f) + node_column(infos.last().common_nodes@, f)
    }
}

/// The online column of every site in turn.
pub open spec fn fleet_online_column(infos: Seq<AllInfo>) -> Seq<bool>
    decreases infos.len(),
{
    if infos.len() == 0 {
        seq![]
    } else {
        fleet_online_column(infos.drop_last()) + online_column(
            infos.last().common_nodes_latest_status@,
        )
    }
}

/// How many entries are `true`.
pub open spec fn count_true(s: Seq<bool>) -> nat
    decreases s.len(),
{
    if s.len() == 0 {
        0
    } else {
        count_true(s.drop_last()) + if s.last() {
            1nat
        } else {
            0nat
        }
    }
}

/// The sixteen status sums of one site, in the order of `field_at`.
pub open spec fn site_sums(info: AllInfo) -> Seq<i64> {
    Seq::new(
        STATUS_FIELD_COUNT as nat,
        |k: int| seq_sum(status_column(info.common_nodes_latest_status@, field_at(k))) as i64,
    )
}

pub open spec fn site_sums_fit(info: AllInfo) -> bool {
    forall|k: int|
        0 <= k < STATUS_FIELD_COUNT ==> sum_fits(
            #[trigger] status_column(info.common_nodes_latest_status@, field_at(k)),
        )
}

/// The sixteen status sums over all sites, in the order of `field_at`.
pub open spec fn fleet_sums(infos: Seq<AllInfo>) -> Seq<i64> {
    Seq::new(
        STATUS_FIELD_COUNT as nat,
        |k: int| seq_sum(fleet_status_column(infos, field_at(k))) as i64,
    )
}

pub open spec fn fleet_sums_fit(infos: Seq<AllInfo>) -> bool {
    forall|k: int|
        0 <= k < STATUS_FIELD_COUNT ==> sum_fits(#[trigger] fleet_status_column(infos, field_at(k)))
}

/// The sum of `values`, or `None` where it leaves the `i64` range.
pub fn checked_sum(values: &Vec<i64>) -> (r: Option<i64>)
    ensures
        sum_fits(values@) ==> r == Some(seq_sum(values@) as i64),
        !sum_fits(values@) ==> r is None,
{
    let mut acc: i128 = 0;
    let mut i: usize = 0;
    while i < values.len()
        invariant
            i <= values@.len(),
            acc == seq_sum(values@.take(i as int)),
            -(i as int) * 0x8000000000000000 <= acc <= (i as int) * 0x7fffffffffffffff,
        decreases values@.len() - i,
    {
        proof {
            assert(values@.take(i + 1).drop_last() =~= values@.take(i as int));
            assert((i as int + 1) * 0x8000000000000000 <= 0x10000000000000000 * 0x8000000000000000);
        }
        acc = acc + values[i] as i128;
        i = i + 1;
    }
    proof {
        assert(values@.take(i as int) =~= values@);
    }
    if acc < i64::MIN as i128 || acc > i64::MAX as i128 {
        None
    } else {
        Some(acc as i64)
    }
}

/// How many entries of `flags` are `true`.
pub fn count_true_exec(flags: &Vec<bool>) -> (r: usize)
    ensures
        r == count_true(flags@),
{
    let mut n: usize = 0;
    let mut i: usize = 0;
    while i < flags.len()
        invariant
            i <= flags@.len(),
            n <= i,
            n == count_true(flags@.take(i as int)),
        decreases flags@.len() - i,
    {
        proof {
            assert(flags@.take(i + 1).drop_last() =~= flags@.take(i as int));
        }
        if flags[i] {
            n = n + 1;
        }
        i = i + 1;
    }
    proof {
        assert(flags@.take(i as int) =~= flags@);
    }
    n
}

/// Appends one figure of each report of `list`.
pub fn append_status_column(
    col: &mut Vec<i64>,
    list: &Vec<(String, CommonGetNodesLatestStatusSingle)>,
    f: StatusField,
)
    ensures
        final(col)@ == old(col)@ + status_column(list@, f),
{
    let mut i: usize = 0;
    while i < list.len()
        invariant
            i <= list@.len(),
            col@ == old(col)@ + status_column(list@.take(i as int), f),
        decreases list@.len() - i,
    {
        proof {
            assert(list@.take(i + 1).drop_last() =~= list@.take(i as int));
        }
        col.push(status_value_exec(&list[i].1, f));
        i = i + 1;
        proof {
            assert(col@ =~= old(col)@ + status_column(list@.take(i as int), f));
        }
    }
    proof {
        assert(list@.take(i as int) =~= list@);
    }
}

/// Appends one figure of each node of `list`.
pub fn append_node_column(
    col: &mut Vec<i64>,
    list: &Vec<(String, CommonGetNodesSingle)>,
    f: NodeField,
)
    ensures
        final(col)@ == old(col)@ + node_column(list@, f),
{
    let mut i: usize = 0;
    while i < list.len()
        invariant
            i <= list@.len(),
            col@ == old(col)@ + node_column(list@.take(i as int), f),
        decreases list@.len() - i,
    {
        proof {
            assert(list@.take(i + 1).drop_last() =~= list@.take(i as int));
        }
        col.push(node_value_exec(&list[i].1, f));
        i = i + 1;
        proof {
            assert(col@ =~= old(col)@ + node_column(list@.take(i as int), f));
        }
    }
    proof {
        assert(list@.take(i as int) =~= list@);
    }
}

/// Appends the online flag of each report of `list`.
pub fn append_online_column(
    col: &mut Vec<bool>,
    list: &Vec<(String, CommonGetNodesLatestStatusSingle)>,
)
    ensures
        final(col)@ == old(col)@ + online_column(list@),
{
    let mut i: usize = 0;
    while i < list.len()
        invariant
            i <= list@.len(),
            col@ == old(col)@ + online_column(list@.take(i as int)),
        decreases list@.len() - i,
    {
        proof {
            assert(list@.take(i + 1).drop_last() =~= list@.take(i as int));
        }
        col.push(list[i].1.online);
        i = i + 1;
        proof {
            assert(col@ =~= old(col)@ + online_column(list@.take(i as int)));
        }
    }
    proof {
        assert(list@.take(i as int) =~= list@);
    }
}

/// The status column of every site in turn.
pub fn fleet_status_column_exec(infos: &Vec<AllInfo>, f: StatusField) -> (r: Vec<i64>)
    ensures
        r@ == fleet_status_column(infos@, f),
{
    let mut col: Vec<i64> = Vec::new();
    let mut i: usize = 0;
    while i < infos.len()
        invariant
            i <= infos@.len(),
            col@ == fleet_status_column(infos@.take(i as int), f),
        decreases infos@.len() - i,
    {
        proof {
            assert(infos@.take(i + 1).drop_last() =~= infos@.take(i as int));
        }
        append_status_column(&mut col, &infos[i].common_nodes_latest_status, f);
        i = i + 1;
    }
    proof {
        assert(infos@.take(i as int) =~= infos@);
    }
    col
}

/// The node column of every site in turn.
pub fn fleet_node_column_exec(infos: &Vec<AllInfo>, f: NodeField) -> (r: Vec<i64>)
    ensures
        r@ == fleet_node_column(infos@, f),
{
    let mut col: Vec<i64> = Vec::new();
    let mut i: usize = 0;
    while i < infos.len()
        invariant
            i <= infos@.len(),
            col@ == fleet_node_column(infos@.take(i as int), f),
        decreases infos@.len() - i,
    {
        proof {
            assert(infos@.take(i + 1).drop_last() =~= infos@.take(i as int));
        }
        append_node_column(&mut col, &infos[i].common_nodes, f);
        i = i + 1;
    }
    proof {
        assert(infos@.take(i as int) =~= infos@);
    }
    col
}

/// The online column of every site in turn.
pub fn fleet_online_column_exec(infos: &Vec<AllInfo>) -> (r: Vec<bool>)
    ensures
        r@ == fleet_online_column(infos@),
{
    let mut col: Vec<bool> = Vec::new();
    let mut i: usize = 0;
    while i < infos.len()
        invariant
            i <= infos@.len(),
            col@ == fleet_online_column(infos@.take(i as int)),
        decreases infos@.len() - i,
    {
        proof {
            assert(infos@.take(i + 1).drop_last() =~= infos@.take(i as int));
        }
        append_online_column(&mut col, &infos[i].common_nodes_latest_status);
        i = i + 1;
    }
    proof {
        assert(infos@.take(i as int) =~= infos@);
    }
    col
}

/// The sixteen status sums of one site, or `None` where one of them leaves the `i64` range.
pub fn site_sums_exec(info: &AllInfo) -> (r: Option<Vec<i64>>)
    ensures
        r is Some <==> site_sums_fit(*info),
        r is Some ==> r->Some_0@ == site_sums(*info),
{
    let mut sums: Vec<i64> = Vec::new();
    let mut k: usize = 0;
    while k < STATUS_FIELD_COUNT
        invariant
            k <= STATUS_FIELD_COUNT,
            sums@ =~= site_sums(*info).take(k as int),
            forall|j: int|
                0 <= j < k ==> sum_fits(
                    #[trigger] status_column(info.common_nodes_latest_status@, field_at(j)),
                ),
        decreases STATUS_FIELD_COUNT - k,
    {
        let mut col: Vec<i64> = Vec::new();
        append_status_column(&mut col, &info.common_nodes_latest_status, field_at_exec(k));
        assert(col@ =~= status_column(info.common_nodes_latest_status@, field_at(k as int)));
        match checked_sum(&col) {
            None => {
                return None;
            },
            Some(v) => {
                sums.push(v);
            },
        }
        k = k + 1;
    }
    Some(sums)
}

/// The sixteen status sums over all sites, or `None` where one of them leaves the `i64` range.
pub fn fleet_sums_exec(infos: &Vec<AllInfo>) -> (r: Option<Vec<i64>>)
    ensures
        r is Some <==> fleet_sums_fit(infos@),
        r is Some ==> r->Some_0@ == fleet_sums(infos@),
{
    let mut sums: Vec<i64> = Vec::new();
    let mut k: usize = 0;
    while k < STATUS_FIELD_COUNT
        invariant
            k <= STATUS_FIELD_COUNT,
            sums@ =~= fleet_sums(infos@).take(k as int),
            forall|j: int|
                0 <= j < k ==> sum_fits(#[trigger] fleet_status_column(infos@, field_at(j))),
        decreases STATUS_FIELD_COUNT - k,
    {
        let col = fleet_status_column_exec(infos, field_at_exec(k));
        match checked_sum(&col) {
            None => {
                return None;
            },
            Some(v) => {
                sums.push(v);
            },
        }
        k = k + 1;
    }
    Some(sums)
}

/// Sums add up over concatenation.
pub proof fn lemma_sum_concat(x: Seq<i64>, y: Seq<i64>)
    ensures
        seq_sum(x + y) == seq_sum(x) + seq_sum(y),
    decreases y.len(),
{
    if y.len() == 0 {
        assert(x + y =~= x);
    } else {
        lemma_sum_concat(x, y.drop_last());
        assert((x + y).drop_last() =~= x + y.drop_last());
    }
}

/// Counts add up over concatenation.
pub proof fn lemma_count_concat(x: Seq<bool>, y: Seq<bool>)
    ensures
        count_true(x + y) == count_true(x) + count_true(y),
    decreases y.len(),
{
    if y.len() == 0 {
        assert(x + y =~= x);
    } else {
        lemma_count_concat(x, y.drop_last());
        assert((x + y).drop_last() =~= x + y.drop_last());
    }
}

/// The fleet columns of two batches of sites are the columns of each, one after the other.
pub proof fn lemma_fleet_columns_concat(a: Seq<AllInfo>, b: Seq<AllInfo>)
    ensures
        forall|f: StatusField|
            #[trigger] fleet_status_column(a + b, f) == fleet_status_column(a, f)
                + fleet_status_column(b, f),
        forall|f: NodeField|
            #[trigger] fleet_node_column(a + b, f) == fleet_node_column(a, f) + fleet_node_column(
                b,
                f,
            ),
        fleet_online_column(a + b) == fleet_online_column(a) + fleet_online_column(b),
    decreases b.len(),
{
    if b.len() == 0 {
        assert(a + b =~= a);
        assert forall|f: StatusField| #[trigger]
            fleet_status_column(a + b, f) == fleet_status_column(a, f) + fleet_status_column(
                b,
                f,
            ) by {
            assert(fleet_status_column(a, f) + fleet_status_column(b, f) =~= fleet_status_column(
                a,
                f,
            ));
        }
        assert forall|f: NodeField| #[trigger]
            fleet_node_column(a + b, f) == fleet_node_column(a, f) + fleet_node_column(b, f) by {
            assert(fleet_node_column(a, f) + fleet_node_column(b, f) =~= fleet_node_column(a, f));
        }
        assert(fleet_online_column(a) + fleet_online_column(b) =~= fleet_online_column(a));
    } else {
        lemma_fleet_columns_concat(a, b.drop_last());
        assert((a + b).drop_last() =~= a + b.drop_last());
        assert((a + b).last() == b.last());
        assert forall|f: StatusField| #[trigger]
            fleet_status_column(a + b, f) == fleet_status_column(a, f) + fleet_status_column(
                b,
                f,
            ) by {
            let x = fleet_status_column(a, f);
            let y = fleet_status_column(b.drop_last(), f);
            let z = status_column(b.last().common_nodes_latest_status@, f);
            assert(fleet_status_column(a + b.drop_last(), f) == x + y);
            assert(fleet_status_column(a + b, f) == fleet_status_column((a + b).drop_last(), f)
                + z);
            assert(fleet_status_column(b, f) == y + z);
            assert((x + y) + z =~= x + (y + z));
        }
        assert forall|f: NodeField| #[trigger]
            fleet_node_column(a + b, f) == fleet_node_column(a, f) + fleet_node_column(b, f) by {
            let x = fleet_node_column(a, f);
            let y = fleet_node_column(b.drop_last(), f);
            let z = node_column(b.last().common_nodes@, f);
            assert(fleet_node_column(a + b.drop_last(), f) == x + y);
            assert(fleet_node_column(a + b, f) == fleet_node_column((a + b).drop_last(), f) + z);
            assert(fleet_node_column(b, f) == y + z);
            assert((x + y) + z =~= x + (y + z));
        }
        let x = fleet_online_column(a);
        let y = fleet_online_column(b.drop_last());
        let z = online_column(b.last().common_nodes_latest_status@);
        assert(fleet_online_column(a + b) == fleet_online_column((a + b).drop_last()) + z);
        assert(fleet_online_column(b) == y + z);
        assert((x + y) + z =~= x + (y + z));
    }
}

} // verus!
