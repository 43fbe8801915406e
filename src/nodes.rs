//! Single nodes: the numbered node list, one node's status, lookup by name, and the
//! paging keyboard under a status message.
use vstd::prelude::*;
use vstd::string::*;

use crate::query::{AllInfo, CommonGetNodesLatestStatusSingle, CommonGetNodesSingle};
use crate::text::{int_text, pretty_bytes_text, push_int, push_nat, push_pretty_bytes, push_ratio, ratio_text};

verus! {

/// `a` sorts before `b`: lexicographic order on code points, as `str` orders.
pub open spec fn lex_lt(a: Seq<char>, b: Seq<char>) -> bool
    decreases a.len(),
{
    if b.len() == 0 {
        false
    } else if a.len() == 0 {
        true
    } else if a[0] != b[0] {
        (a[0] as u32) < (b[0] as u32)
    } else {
        lex_lt(a.drop_first(), b.drop_first())
    }
}

proof fn lemma_lex_step(a: Seq<char>, b: Seq<char>, i: int)
    requires
        0 <= i < a.len(),
        i < b.len(),
        a[i] == b[i],
    ensures
        lex_lt(a.skip(i), b.skip(i)) == lex_lt(a.skip(i + 1), b.skip(i + 1)),
{
    assert(a.skip(i).drop_first() =~= a.skip(i + 1));
    assert(b.skip(i).drop_first() =~= b.skip(i + 1));
    assert(a.skip(i)[0] == a[i]);
    assert(b.skip(i)[0] == b[i]);
}

/// Whether `a` sorts before `b`.
pub fn str_lt(a: &str, b: &str) -> (r: bool)
    ensures
        r == lex_lt(a@, b@),
{
    let la = a.unicode_len();
    let lb = b.unicode_len();
    let mut i: usize = 0;
    proof {
        assert(a@.skip(0) =~= a@);
        assert(b@.skip(0) =~= b@);
    }
    while i < la && i < lb && a.get_char(i) == b.get_char(i)
        invariant
            i <= la,
            i <= lb,
            la == a@.len(),
            lb == b@.len(),
            lex_lt(a@, b@) == lex_lt(a@.skip(i as int), b@.skip(i as int)),
        decreases la - i,
    {
        proof {
            lemma_lex_step(a@, b@, i as int);
        }
        i = i + 1;
    }
    if i == lb {
        false
    } else if i == la {
        true
    } else {
        proof {
            assert(a@.skip(i as int)[0] == a@[i as int]);
            assert(b@.skip(i as int)[0] == b@[i as int]);
        }
        (a.get_char(i) as u32) < (b.get_char(i) as u32)
    }
}

/// `needle` occurs in `hay`.
pub open spec fn contains(hay: Seq<char>, needle: Seq<char>) -> bool {
    exists|i: int|
        0 <= i && i + needle.len() <= hay.len() && #[trigger] hay.subrange(i, i + needle.len())
            == needle
}

/// Whether `needle` occurs in `hay`.
pub fn str_contains(hay: &str, needle: &str) -> (r: bool)
    ensures
        r == contains(hay@, needle@),
{
    let hl = hay.unicode_len();
    let nl = needle.unicode_len();
    if nl > hl {
        return false;
    }
    let mut i: usize = 0;
    while i <= hl - nl
        invariant
            hl == hay@.len(),
            nl == needle@.len(),
            nl <= hl,
            i <= hl - nl + 1,
            forall|k: int| 0 <= k < i ==> #[trigger] hay@.subrange(k, k + nl) != needle@,
        decreases hl - nl + 1 - i,
    {
        let mut j: usize = 0;
        while j < nl && hay.get_char(i + j) == needle.get_char(j)
            invariant
                hl == hay@.len(),
                nl == needle@.len(),
                i + nl <= hl,
                j <= nl,
                forall|k: int| 0 <= k < j ==> hay@[i + k] == needle@[k],
            decreases nl - j,
        {
            j = j + 1;
        }
        if j == nl {
            assert(hay@.subrange(i as int, i + nl) =~= needle@);
            return true;
        }
        assert(hay@.subrange(i as int, i + nl)[j as int] != needle@[j as int]);
        i = i + 1;
    }
    false
}

/// How many keys of `list` sort before `key`.
pub open spec fn count_less(list: Seq<(String, CommonGetNodesLatestStatusSingle)>, key: Seq<char>) -> nat
    decreases list.len(),
{
    if list.len() == 0 {
        0
    } else {
        count_less(list.drop_last(), key) + if lex_lt(list.last().0@, key) {
            1nat
        } else {
            0nat
        }
    }
}

/// The first index from `from` on whose key has exactly `p` keys before it: the
/// entry at place `p` when the table is sorted by key.
pub open spec fn position_at(
    list: Seq<(String, CommonGetNodesLatestStatusSingle)>,
    p: int,
    from: int,
) -> Option<int>
    decreases list.len() - from,
{
    if from >= list.len() {
        None
    } else if count_less(list, list[from].0@) == p {
        Some(from)
    } else {
        position_at(list, p, from + 1)
    }
}

/// The first index from `from` on of a node whose `uuid` field is `uuid`.
pub open spec fn find_uuid(nodes: Seq<(String, CommonGetNodesSingle)>, uuid: Seq<char>, from: int) -> Option<int>
    decreases nodes.len() - from,
{
    if from >= nodes.len() {
        None
    } else if nodes[from].1.uuid@ == uuid {
        Some(from)
    } else {
        find_uuid(nodes, uuid, from + 1)
    }
}

fn count_less_exec(list: &Vec<(String, CommonGetNodesLatestStatusSingle)>, key: &String) -> (r: usize)
    ensures
        r == count_less(list@, key@),
{
    let mut n: usize = 0;
    let mut i: usize = 0;
    while i < list.len()
        invariant
            i <= list@.len(),
            n <= i,
            n == count_less(list@.take(i as int), key@),
        decreases list@.len() - i,
    {
        proof {
            assert(list@.take(i + 1).drop_last() =~= list@.take(i as int));
        }
        if str_lt(list[i].0.as_str(), key.as_str()) {
            n = n + 1;
        }
        i = i + 1;
    }
    proof {
        assert(list@.take(i as int) =~= list@);
    }
    n
}

/// The index of the entry at place `p` in key order, as `position_at` gives it.
pub fn position_at_exec(list: &Vec<(String, CommonGetNodesLatestStatusSingle)>, p: usize) -> (r: Option<usize>)
    ensures
        r is Some <==> position_at(list@, p as int, 0) is Some,
        r is Some ==> r->Some_0 as int == position_at(list@, p as int, 0)->Some_0,
        r is Some ==> r->Some_0 < list@.len(),
{
    let mut i: usize = 0;
    while i < list.len()
        invariant
            i <= list@.len(),
            position_at(list@, p as int, 0) == position_at(list@, p as int, i as int),
        decreases list@.len() - i,
    {
        if count_less_exec(list, &list[i].0) == p {
            return Some(i);
        }
        i = i + 1;
    }
    None
}

fn find_uuid_exec(nodes: &Vec<(String, CommonGetNodesSingle)>, uuid: &String) -> (r: Option<usize>)
    ensures
        r is Some <==> find_uuid(nodes@, uuid@, 0) is Some,
        r is Some ==> r->Some_0 as int == find_uuid(nodes@, uuid@, 0)->Some_0,
        r is Some ==> r->Some_0 < nodes@.len(),
{
    let mut i: usize = 0;
    while i < nodes.len()
        invariant
            i <= nodes@.len(),
            find_uuid(nodes@, uuid@, 0) == find_uuid(nodes@, uuid@, i as int),
        decreases nodes@.len() - i,
    {
        if nodes[i].1.uuid == *uuid {
            return Some(i);
        }
        i = i + 1;
    }
    None
}

/// The name of the node with this UUID, or "未知节点" where none has it.
pub open spec fn node_name_text(info: AllInfo, uuid: Seq<char>) -> Seq<char> {
    match find_uuid(info.common_nodes@, uuid, 0) {
        Some(j) => info.common_nodes@[j].1.name@,
        None => "未知节点"@,
    }
}

/// The line of the list for place `p` in key order: "`p+1` - name".
pub open spec fn list_line(info: AllInfo, p: int) -> Seq<char> {
    match position_at(info.common_nodes_latest_status@, p, 0) {
        Some(i) => "`"@ + int_text(p + 1) + "` - "@ + node_name_text(
            info,
            info.common_nodes_latest_status@[i].0@,
        ) + "\n"@,
        None => Seq::<char>::empty(),
    }
}

/// The lines for the first `n` places.
pub open spec fn list_lines(info: AllInfo, n: int) -> Seq<char>
    decreases n,
{
    if n <= 0 {
        Seq::<char>::empty()
    } else {
        list_lines(info, n - 1) + list_line(info, n - 1)
    }
}

/// The numbered list of the nodes that reported, sorted by UUID.
pub open spec fn node_list_text(info: AllInfo) -> Seq<char> {
    list_lines(info, info.common_nodes_latest_status@.len() as int)
}

fn node_name_string(info: &AllInfo, uuid: &String) -> (r: String)
    ensures
        r@ == node_name_text(*info, uuid@),
{
    match find_uuid_exec(&info.common_nodes, uuid) {
        Some(j) => info.common_nodes[j].1.name.clone(),
        None => String::from_str("未知节点"),
    }
}

fn list_line_string(info: &AllInfo, p: usize) -> (r: String)
    requires
        p < info.common_nodes_latest_status@.len(),
    ensures
        r@ == list_line(*info, p as int),
{
    match position_at_exec(&info.common_nodes_latest_status, p) {
        Some(i) => {
            let mut s = String::from_str("`");
            push_nat(&mut s, (p as u128) + 1);
            s.append("` - ");
            s.append(node_name_string(info, &info.common_nodes_latest_status[i].0).as_str());
            s.append("\n");
            s
        },
        None => String::new(),
    }
}

/// The numbered node list, one line per reporting node in UUID order.
pub fn get_node_id_list(info: &AllInfo) -> (r: String)
    ensures
        r@ == node_list_text(*info),
{
    let mut s = String::new();
    let mut p: usize = 0;
    while p < info.common_nodes_latest_status.len()
        invariant
            p <= info.common_nodes_latest_status@.len(),
            s@ == list_lines(*info, p as int),
        decreases info.common_nodes_latest_status@.len() - p,
    {
        let line = list_line_string(info, p);
        s.append(line.as_str());
        p = p + 1;
    }
    s
}

/// The place in key order that a 1-based node number asks for; 0 and 1 both ask for the first.
pub open spec fn selected_place(index: u32) -> int {
    if index <= 1 {
        0
    } else {
        index - 1
    }
}

pub open spec fn gpu_line(gpu: Seq<char>) -> Seq<char> {
    if gpu.len() == 0 {
        Seq::<char>::empty()
    } else {
        "\nGPU: `"@ + gpu + "`"@
    }
}

pub open spec fn update_line(updated_at: Option<String>) -> Seq<char> {
    match updated_at {
        Some(u) => "\n\nUPDATE AT: `"@ + u@ + "`"@,
        None => Seq::<char>::empty(),
    }
}

/// The description part of a status message.
#[verifier::opaque]
pub open spec fn node_head_text(title: Seq<char>, node: CommonGetNodesSingle) -> Seq<char> {
    title + " | "@ + node.region@ + " | "@ + node.name@ + "\n\nCPU: `"@ + node.cpu_name@ + "` @ `"@
        + int_text(node.cpu_cores as int) + " Cores`"@ + gpu_line(node.gpu_name@) + "\nARCH: `"@
        + node.arch@ + "`\nVIRT: `"@ + node.virtualization@ + "`\nOS: `"@ + node.os@
        + "`\nKERN: `"@ + node.kernel_version@ + "`\nUPTIME: `0`\n\nCPU: `"@
}

/// A line of used and total bytes and the used share (unguarded: a zero total gives `inf` or `NaN`).
#[verifier::opaque]
pub open spec fn node_usage_text(label: Seq<char>, used: int, total: int) -> Seq<char> {
    label + pretty_bytes_text(used) + "` / `"@ + pretty_bytes_text(total) + "` `"@ + ratio_text(
        100 * used,
        total,
    )
}

/// The load, process, traffic and connection part of a status message.
#[verifier::opaque]
pub open spec fn node_tail_text(st: CommonGetNodesLatestStatusSingle) -> Seq<char> {
    "%`\n\nLOAD: `"@ + ratio_text(st.load as int, 100) + "` / `"@ + ratio_text(st.load5 as int, 100)
        + "` / `"@ + ratio_text(st.load15 as int, 100) + "`\nPROC: `"@ + int_text(st.process as int)
        + "`\n\nNET: `"@ + pretty_bytes_text(st.net_total_down as int) + "` / `"@
        + pretty_bytes_text(st.net_total_up as int) + "`\nUP: `"@ + ratio_text(
        st.net_out as int,
        125000,
    ) + " Mbps`\nDOWN: `"@ + ratio_text(st.net_in as int, 125000) + " Mbps`\nCONN: `"@
        + int_text(st.connections as int) + " TCP` / `"@ + int_text(st.connections_udp as int)
        + " UDP`"@
}

/// The status message of one node: its description and its latest report.
pub open spec fn node_status_text(
    title: Seq<char>,
    node: CommonGetNodesSingle,
    st: CommonGetNodesLatestStatusSingle,
) -> Seq<char> {
    node_head_text(title, node) + ratio_text(st.cpu as int, 100) + node_usage_text(
        "%`\nRAM: `"@,
        st.ram as int,
        st.ram_total as int,
    ) + node_usage_text("%`\nSWAP: `"@, st.swap as int, st.swap_total as int) + node_usage_text(
        "%`\nDISK: `"@,
        st.disk as int,
        st.disk_total as int,
    ) + node_tail_text(st) + update_line(node.updated_at)
}

/// The status message for node number `index`, or why there is none.
pub open spec fn status_result(info: AllInfo, index: u32) -> Result<Seq<char>, Seq<char>> {
    let latest = info.common_nodes_latest_status@;
    match position_at(latest, selected_place(index), 0) {
        None => Err("节点不存在"@),
        Some(i) => match find_uuid(info.common_nodes@, latest[i].0@, 0) {
            None => Err("无法找到该服务器"@),
            Some(j) => Ok(
                node_status_text(
                    info.common_public_info.sitename@,
                    info.common_nodes@[j].1,
                    latest[i].1,
                ),
            ),
        },
    }
}

fn node_head_string(title: &String, node: &CommonGetNodesSingle) -> (r: String)
    ensures
        r@ == node_head_text(title@, *node),
{
    reveal(node_head_text);
    let mut s = title.clone();
    s.append(" | ");
    s.append(node.region.as_str());
    s.append(" | ");
    s.append(node.name.as_str());
    s.append("\n\nCPU: `");
    s.append(node.cpu_name.as_str());
    s.append("` @ `");
    push_int(&mut s, node.cpu_cores);
    s.append(" Cores`");
    if node.gpu_name.unicode_len() > 0 {
        s.append("\nGPU: `");
        s.append(node.gpu_name.as_str());
        s.append("`");
    } else {
        assert(s@ =~= s@ + gpu_line(node.gpu_name@));
    }
    s.append("\nARCH: `");
    s.append(node.arch.as_str());
    s.append("`\nVIRT: `");
    s.append(node.virtualization.as_str());
    s.append("`\nOS: `");
    s.append(node.os.as_str());
    s.append("`\nKERN: `");
    s.append(node.kernel_version.as_str());
    s.append("`\nUPTIME: `0`\n\nCPU: `");
    s
}

fn node_usage_string(label: &str, used: i64, total: i64) -> (r: String)
    ensures
        r@ == node_usage_text(label@, used as int, total as int),
{
    reveal(node_usage_text);
    let mut s = String::from_str(label);
    push_pretty_bytes(&mut s, used);
    s.append("` / `");
    push_pretty_bytes(&mut s, total);
    s.append("` `");
    push_ratio(&mut s, 100 * (used as i128), total as i128);
    s
}

fn node_tail_string(st: &CommonGetNodesLatestStatusSingle) -> (r: String)
    ensures
        r@ == node_tail_text(*st),
{
    reveal(node_tail_text);
    let mut s = String::from_str("%`\n\nLOAD: `");
    push_ratio(&mut s, st.load as i128, 100);
    s.append("` / `");
    push_ratio(&mut s, st.load5 as i128, 100);
    s.append("` / `");
    push_ratio(&mut s, st.load15 as i128, 100);
    s.append("`\nPROC: `");
    push_int(&mut s, st.process);
    s.append("`\n\nNET: `");
    push_pretty_bytes(&mut s, st.net_total_down);
    s.append("` / `");
    push_pretty_bytes(&mut s, st.net_total_up);
    s.append("`\nUP: `");
    push_ratio(&mut s, st.net_out as i128, 125000);
    s.append(" Mbps`\nDOWN: `");
    push_ratio(&mut s, st.net_in as i128, 125000);
    s.append(" Mbps`\nCONN: `");
    push_int(&mut s, st.connections);
    s.append(" TCP` / `");
    push_int(&mut s, st.connections_udp);
    s.append(" UDP`");
    s
}

fn node_status_string(
    title: &String,
    node: &CommonGetNodesSingle,
    st: &CommonGetNodesLatestStatusSingle,
) -> (r: String)
    ensures
        r@ == node_status_text(title@, *node, *st),
{
    let mut s = node_head_string(title, node);
    push_ratio(&mut s, st.cpu as i128, 100);
    s.append(node_usage_string("%`\nRAM: `", st.ram, st.ram_total).as_str());
    s.append(node_usage_string("%`\nSWAP: `", st.swap, st.swap_total).as_str());
    s.append(node_usage_string("%`\nDISK: `", st.disk, st.disk_total).as_str());
    s.append(node_tail_string(st).as_str());
    match &node.updated_at {
        Some(u) => {
            s.append("\n\nUPDATE AT: `");
            s.append(u.as_str());
            s.append("`");
        },
        None => {
            assert(s@ =~= s@ + update_line(node.updated_at));
        },
    }
    s
}

/// The status message of node number `index` (1-based, in UUID order; 0 counts as 1).
pub fn status_with_id(info: &AllInfo, index: u32) -> (r: Result<String, String>)
    ensures
        r is Ok <==> status_result(*info, index) is Ok,
        r is Ok ==> r->Ok_0@ == status_result(*info, index)->Ok_0,
        r is Err ==> r->Err_0@ == status_result(*info, index)->Err_0,
{
    let place: usize = if index <= 1 {
        0
    } else {
        (index - 1) as usize
    };
    let i = match position_at_exec(&info.common_nodes_latest_status, place) {
        Some(i) => i,
        None => {
            return Err(String::from_str("节点不存在"));
        },
    };
    let j = match find_uuid_exec(&info.common_nodes, &info.common_nodes_latest_status[i].0) {
        Some(j) => j,
        None => {
            return Err(String::from_str("无法找到该服务器"));
        },
    };
    Ok(
        node_status_string(
            &info.common_public_info.sitename,
            &info.common_nodes[j].1,
            &info.common_nodes_latest_status[i].1,
        ),
    )
}

/// The node at place `p` exists and its name contains `name`.
pub open spec fn name_matches(info: AllInfo, p: int, name: Seq<char>) -> bool {
    match position_at(info.common_nodes_latest_status@, p, 0) {
        Some(i) => contains(node_name_text(info, info.common_nodes_latest_status@[i].0@), name),
        None => false,
    }
}

/// The number (place + 1) of the first place from `p` on, below `n`, whose name
/// contains `name`, or -1 where none does.
pub open spec fn first_match(info: AllInfo, name: Seq<char>, p: int, n: int) -> int
    decreases n - p,
{
    if p >= n {
        -1
    } else if name_matches(info, p, name) {
        p + 1
    } else {
        first_match(info, name, p + 1, n)
    }
}

/// The number in the node list of the first node whose name contains `name`, or -1
/// where none does; an error where that number does not fit in `i32`.
pub fn get_node_id_by_name(info: &AllInfo, name: &str) -> (r: Result<i32, String>)
    ensures
        ({
            let m = first_match(
                *info,
                name@,
                0,
                info.common_nodes_latest_status@.len() as int,
            );
            &&& r is Ok <==> m <= i32::MAX
            &&& r is Ok ==> r->Ok_0 == m
            &&& r is Err ==> r->Err_0@ == "无法解析节点ID"@
        }),
{
    let n = info.common_nodes_latest_status.len();
    let mut p: usize = 0;
    while p < n
        invariant
            p <= n,
            n == info.common_nodes_latest_status@.len(),
            first_match(*info, name@, 0, n as int) == first_match(*info, name@, p as int, n as int),
        decreases n - p,
    {
        match position_at_exec(&info.common_nodes_latest_status, p) {
            Some(i) => {
                let node_name = node_name_string(info, &info.common_nodes_latest_status[i].0);
                if str_contains(node_name.as_str(), name) {
                    if p >= 2147483647 {
                        return Err(String::from_str("无法解析节点ID"));
                    }
                    return Ok((p + 1) as i32);
                }
            },
            None => {},
        }
        p = p + 1;
    }
    Ok(-1)
}

/// The status message of the first node whose name contains `name`, with its number.
pub fn status_by_name(info: &AllInfo, name: &str) -> (r: Result<(String, i32), String>)
    ensures
        ({
            let m = first_match(
                *info,
                name@,
                0,
                info.common_nodes_latest_status@.len() as int,
            );
            let s = status_result(*info, m as i32 as u32);
            &&& m > i32::MAX ==> r is Err && r->Err_0@ == "无法解析节点ID"@
            &&& m <= i32::MAX ==> (r is Ok <==> s is Ok)
            &&& m <= i32::MAX && r is Ok ==> r->Ok_0.0@ == s->Ok_0 && r->Ok_0.1 == m
            &&& m <= i32::MAX && r is Err ==> r->Err_0@ == s->Err_0
        }),
{
    let id = get_node_id_by_name(info, name)?;
    let msg = status_with_id(info, id as u32)?;
    Ok((msg, id))
}

/// The node that line `p + 1` of the node list names is the node whose status
/// `status_with_id` shows for number `p + 1`.
pub proof fn law_list_number_selects_status(info: AllInfo, p: nat)
    requires
        p + 1 <= u32::MAX,
    ensures
        status_result(info, (p + 1) as u32) is Ok ==> ({
            let latest = info.common_nodes_latest_status@;
            let i = position_at(latest, p as int, 0)->Some_0;
            let j = find_uuid(info.common_nodes@, latest[i].0@, 0)->Some_0;
            &&& list_line(info, p as int) == "`"@ + int_text(p as int + 1) + "` - "@
                + info.common_nodes@[j].1.name@ + "\n"@
            &&& status_result(info, (p + 1) as u32)->Ok_0 == node_status_text(
                info.common_public_info.sitename@,
                info.common_nodes@[j].1,
                latest[i].1,
            )
        }),
{
}

/// The keyboard under a status message: back and forward buttons where those pages
/// exist, the page label, and a refresh button. Buttons carry "chat id-node number".
#[derive(Debug, Clone, PartialEq)]
pub struct SingleKeyboard {
    pub prev: Option<String>,
    pub page_label: String,
    pub next: Option<String>,
    pub refresh: String,
}

/// The data of a button that shows node `id` to chat `telegram_id`.
pub open spec fn callback_data(telegram_id: int, id: int) -> Seq<char> {
    int_text(telegram_id) + "-"@ + int_text(id)
}

/// The pages that the back and forward buttons lead to from page `now_id`.
pub open spec fn neighbour_pages(now_id: int) -> (int, int) {
    if now_id == 0 || now_id == 1 {
        (0, 2)
    } else {
        (now_id - 1, now_id + 1)
    }
}

fn callback_string(telegram_id: i64, id: i64) -> (r: String)
    ensures
        r@ == callback_data(telegram_id as int, id as int),
{
    let mut s = String::new();
    push_int(&mut s, telegram_id);
    s.append("-");
    push_int(&mut s, id);
    assert(s@ =~= callback_data(telegram_id as int, id as int));
    s
}

/// The keyboard for page `now_id` of a site with as many pages as it has nodes.
pub fn make_keyboard_for_single(now_id: i32, telegram_id: i64, all_info: &AllInfo) -> (r: Result<
    SingleKeyboard,
    String,
>)
    ensures
        r is Ok,
        ({
            let k = r->Ok_0;
            let (back, forward) = neighbour_pages(now_id as int);
            let max_server = all_info.common_nodes@.len() as int;
            &&& k.prev is Some <==> back > 0
            &&& k.prev is Some ==> k.prev->Some_0@ == callback_data(telegram_id as int, back)
            &&& k.next is Some <==> forward <= max_server
            &&& k.next is Some ==> k.next->Some_0@ == callback_data(telegram_id as int, forward)
            &&& k.page_label@ == int_text(now_id as int) + " / "@ + int_text(max_server)
            &&& k.refresh@ == callback_data(telegram_id as int, now_id as int)
        }),
{
    let max_server = all_info.common_nodes.len();
    let (back, forward): (i64, i64) = if now_id == 0 || now_id == 1 {
        (0, 2)
    } else {
        ((now_id as i64) - 1, (now_id as i64) + 1)
    };
    let prev = if back > 0 {
        Some(callback_string(telegram_id, back))
    } else {
        None
    };
    let next = if forward <= 0 || (forward as u64) <= (max_server as u64) {
        Some(callback_string(telegram_id, forward))
    } else {
        None
    };
    let mut page_label = String::new();
    push_int(&mut page_label, now_id as i64);
    page_label.append(" / ");
    push_nat(&mut page_label, max_server as u128);
    Ok(
        SingleKeyboard {
            prev,
            page_label,
            next,
            refresh: callback_string(telegram_id, now_id as i64),
        },
    )
}

} // verus!
