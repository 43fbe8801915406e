use komari_tgbot::nodes::{
    get_node_id_by_name, make_keyboard_for_single, get_node_id_list, status_by_name,
    status_with_id,
};
use komari_tgbot::overview::{
    connect_summary_message, get_every_one_status, filter_valid_all_info,
    total_status,
};
use komari_tgbot::query::{
    rpc_batch_request, select_rpc_result, AllInfo, CommonGetNodesLatestStatusSingle,
    CommonGetNodesSingle, JsonRpcResponseBase,
};

const GIB: i64 = 1024 * 1024 * 1024;

fn node(uuid: &str, name: &str, cores: i64, mem: i64, disk: i64) -> CommonGetNodesSingle {
    CommonGetNodesSingle {
        uuid: uuid.to_string(),
        name: name.to_string(),
        cpu_name: "Xeon".to_string(),
        virtualization: "kvm".to_string(),
        arch: "x86_64".to_string(),
        cpu_cores: cores,
        os: "Debian".to_string(),
        kernel_version: "6.1".to_string(),
        gpu_name: String::new(),
        region: "HK".to_string(),
        mem_total: mem,
        swap_total: 0,
        disk_total: disk,
        ..Default::default()
    }
}

fn busy_status() -> CommonGetNodesLatestStatusSingle {
    CommonGetNodesLatestStatusSingle {
        cpu: 1234,
        ram: GIB,
        ram_total: 4 * GIB,
        swap: 0,
        swap_total: 0,
        load: 150,
        load5: 100,
        load15: 50,
        disk: 10 * GIB,
        disk_total: 100 * GIB,
        net_in: 125000,
        net_out: 250000,
        net_total_up: 1024,
        net_total_down: 2048,
        process: 100,
        connections: 10,
        connections_udp: 2,
        online: true,
        ..Default::default()
    }
}

/// Two nodes, "alpha" (uuid "a", online, busy) and "beta" (uuid "b", offline, idle),
/// listed in the status table with "b" first.
fn site() -> AllInfo {
    let mut info = AllInfo::default();
    info.common_public_info.sitename = "Site".to_string();
    info.common_public_info.description = "Desc".to_string();
    info.common_version.version = "1.0".to_string();
    info.common_version.hash = "abc".to_string();
    info.common_nodes = vec![
        ("b".to_string(), node("b", "beta", 2, 4 * GIB, 50 * GIB)),
        ("a".to_string(), node("a", "alpha", 4, 8 * GIB, 100 * GIB)),
    ];
    info.common_nodes_latest_status = vec![
        ("b".to_string(), CommonGetNodesLatestStatusSingle::default()),
        ("a".to_string(), busy_status()),
    ];
    info
}

const TAIL: &str = "\n\nMEM: `1.00 GB` / `4.00 GB` `25.00%`\nSWAP: `0 B` / `0 B` `0.00%`\nDISK: `10.00 GB` / `100.00 GB` `10.00%`\n\nDOWN: `2.00 KB`\nUP: `1.00 KB`\nDOWN SPEED: `1.00 Mbps`\nUP SPEED: `2.00 Mbps`\nCONN: `10 TCP` / `2 UDP`";

#[test]
fn site_overview() {
    let expected = format!(
        "Site 总览\n\nONLINE: `1` / `2` `50.00%`\nCPU CORES: `6`\nAVG CPU: `12.34%`\nAVG LOAD: `1.50` / `1.00` / `0.50`{}",
        TAIL
    );
    assert_eq!(total_status(&site()), Ok(expected));
}

#[test]
fn site_overview_without_online_nodes() {
    let mut info = site();
    info.common_nodes_latest_status = vec![("b".to_string(), CommonGetNodesLatestStatusSingle::default())];
    let msg = total_status(&info).unwrap();
    assert!(msg.starts_with("Site 总览\n\nONLINE: `0` / `1` `0.00%`\nCPU CORES: `6`\nAVG CPU: `NaN%`\nAVG LOAD: `NaN` / `NaN` / `NaN`"));
}

#[test]
fn site_overview_overflow() {
    let mut info = site();
    let mut s = busy_status();
    s.ram = i64::MAX;
    info.common_nodes_latest_status = vec![("a".to_string(), s.clone()), ("b".to_string(), s)];
    assert_eq!(total_status(&info), Err("统计数值超出范围".to_string()));
}

#[test]
fn fleet_overview() {
    let mut bad = site();
    bad.common_nodes[0].1.cpu_cores = 400;
    let expected = format!(
        "@komaritgbot 总览:\n\n本 Bot 已保存连接: 3\n本 Bot 已成功读取: 2\n\nONLINE: `1` / `2` `50.00%`\nCPU CORES: `6`\nAVG CPU: `33.33%`\nAVG LOAD: `0.75` / `0.50` / `0.25`{}",
        TAIL
    );
    assert_eq!(get_every_one_status(3, vec![site(), bad]), Ok(expected));
}

#[test]
fn overflow_depends_on_the_total_only() {
    let mut info = site();
    let mut big = busy_status();
    big.ram = i64::MAX;
    let mut one = busy_status();
    one.ram = 1;
    let mut minus = busy_status();
    minus.ram = -1;
    info.common_nodes_latest_status = vec![
        ("a".to_string(), big.clone()),
        ("b".to_string(), one.clone()),
        ("c".to_string(), minus.clone()),
    ];
    let first = total_status(&info).unwrap();
    info.common_nodes_latest_status = vec![
        ("a".to_string(), big),
        ("c".to_string(), minus),
        ("b".to_string(), one),
    ];
    assert_eq!(total_status(&info), Ok(first));
}

#[test]
fn fleet_overview_site_order() {
    let mut other = site();
    other.common_public_info.sitename = "Other".to_string();
    other.common_nodes_latest_status[1].1.ram = 3 * GIB;
    let a = get_every_one_status(2, vec![site(), other.clone()]);
    let b = get_every_one_status(2, vec![other, site()]);
    assert!(a.is_ok());
    assert_eq!(a, b);
}

#[test]
fn fleet_overview_empty() {
    let msg = get_every_one_status(0, vec![]).unwrap();
    assert_eq!(
        msg,
        "@komaritgbot 总览:\n\n本 Bot 已保存连接: 0\n本 Bot 已成功读取: 0\n\nONLINE: `0` / `0` `0.00%`\nCPU CORES: `0`\nAVG CPU: `0.00%`\nAVG LOAD: `NaN` / `NaN` / `NaN`\n\nMEM: `0 B` / `0 B` `0.00%`\nSWAP: `0 B` / `0 B` `0.00%`\nDISK: `0 B` / `0 B` `0.00%`\n\nDOWN: `0 B`\nUP: `0 B`\nDOWN SPEED: `0.00 Mbps`\nUP SPEED: `0.00 Mbps`\nCONN: `0 TCP` / `0 UDP`"
    );
}

#[test]
fn implausible_sites_are_dropped() {
    let mut bad = site();
    bad.common_nodes[1].1.cpu_cores = 385;
    let mut edge = site();
    edge.common_nodes[1].1.cpu_cores = 384;
    edge.common_public_info.sitename = "Edge".to_string();
    let kept = filter_valid_all_info(vec![bad, site(), edge]);
    assert_eq!(kept.len(), 2);
    assert_eq!(kept[0].common_public_info.sitename, "Site");
    assert_eq!(kept[1].common_public_info.sitename, "Edge");
}

#[test]
fn connect_summary() {
    assert_eq!(
        connect_summary_message(&site()),
        Ok("成功读取 Komari 服务信息！\n站点名称：`Site`\n站点详情：`Desc`\n站点版本: `1.0-abc`\n\n节点数量：`2`\nCPU 核心总数：`6`\n内存总量：`12.00 GB`\n交换分区总量：`0 B`\n硬盘总量：`150.00 GB`".to_string())
    );
}

#[test]
fn connect_summary_overflow() {
    let mut info = site();
    info.common_nodes[0].1.disk_total = i64::MAX;
    assert_eq!(connect_summary_message(&info), Err("统计数值超出范围".to_string()));
}

#[test]
fn node_list_in_uuid_order() {
    assert_eq!(get_node_id_list(&site()), "`1` - alpha\n`2` - beta\n");
}

#[test]
fn node_list_unknown_name() {
    let mut info = site();
    info.common_nodes.remove(0);
    assert_eq!(get_node_id_list(&info), "`1` - alpha\n`2` - 未知节点\n");
}

const ALPHA_STATUS: &str = "Site | HK | alpha\n\nCPU: `Xeon` @ `4 Cores`\nARCH: `x86_64`\nVIRT: `kvm`\nOS: `Debian`\nKERN: `6.1`\nUPTIME: `0`\n\nCPU: `12.34%`\nRAM: `1.00 GB` / `4.00 GB` `25.00%`\nSWAP: `0 B` / `0 B` `NaN%`\nDISK: `10.00 GB` / `100.00 GB` `10.00%`\n\nLOAD: `1.50` / `1.00` / `0.50`\nPROC: `100`\n\nNET: `2.00 KB` / `1.00 KB`\nUP: `2.00 Mbps`\nDOWN: `1.00 Mbps`\nCONN: `10 TCP` / `2 UDP`";

#[test]
fn status_of_first_node() {
    assert_eq!(status_with_id(&site(), 1), Ok(ALPHA_STATUS.to_string()));
    assert_eq!(status_with_id(&site(), 0), Ok(ALPHA_STATUS.to_string()));
}

#[test]
fn status_with_gpu_and_update_time() {
    let mut info = site();
    info.common_nodes[1].1.gpu_name = "RTX".to_string();
    info.common_nodes[1].1.updated_at = Some("2024-01-01".to_string());
    let expected = ALPHA_STATUS.replace("4 Cores`", "4 Cores`\nGPU: `RTX`") + "\n\nUPDATE AT: `2024-01-01`";
    assert_eq!(status_with_id(&info, 1), Ok(expected));
}

#[test]
fn status_of_second_node() {
    let msg = status_with_id(&site(), 2).unwrap();
    assert!(msg.starts_with("Site | HK | beta\n"));
    assert!(msg.contains("\nCPU: `0.00%`\nRAM: `0 B` / `0 B` `NaN%`\n"));
}

#[test]
fn status_errors() {
    assert_eq!(status_with_id(&site(), 3), Err("节点不存在".to_string()));
    let mut info = site();
    info.common_nodes[1].1.uuid = "other".to_string();
    assert_eq!(status_with_id(&info, 1), Err("无法找到该服务器".to_string()));
}

#[test]
fn node_lookup_by_name() {
    assert_eq!(get_node_id_by_name(&site(), "alp"), Ok(1));
    assert_eq!(get_node_id_by_name(&site(), "a"), Ok(1));
    assert_eq!(get_node_id_by_name(&site(), "et"), Ok(2));
    assert_eq!(get_node_id_by_name(&site(), "zzz"), Ok(-1));
}

#[test]
fn status_lookup_by_name() {
    assert_eq!(status_by_name(&site(), "alpha"), Ok((ALPHA_STATUS.to_string(), 1)));
    assert_eq!(status_by_name(&site(), "zzz"), Err("节点不存在".to_string()));
    // both "alpha" and "beta" contain "a": the first in the list is shown
    assert_eq!(status_by_name(&site(), "a"), Ok((ALPHA_STATUS.to_string(), 1)));
}

#[test]
fn keyboard_first_page() {
    let k = make_keyboard_for_single(1, 42, &site()).unwrap();
    assert_eq!(k.prev, None);
    assert_eq!(k.next, Some("42-2".to_string()));
    assert_eq!(k.page_label, "1 / 2");
    assert_eq!(k.refresh, "42-1");
}

#[test]
fn keyboard_last_page() {
    let k = make_keyboard_for_single(2, 42, &site()).unwrap();
    assert_eq!(k.prev, Some("42-1".to_string()));
    assert_eq!(k.next, None);
    assert_eq!(k.page_label, "2 / 2");
    assert_eq!(k.refresh, "42-2");
}

#[test]
fn keyboard_page_zero() {
    let k = make_keyboard_for_single(0, -7, &site()).unwrap();
    assert_eq!(k.prev, None);
    assert_eq!(k.next, Some("-7-2".to_string()));
    assert_eq!(k.page_label, "0 / 2");
    assert_eq!(k.refresh, "-7-0");
}

#[test]
fn batch_request_body() {
    let body = rpc_batch_request();
    let methods: Vec<&str> = body.iter().map(|r| r.method.as_str()).collect();
    assert_eq!(
        methods,
        vec![
            "rpc.help",
            "rpc.methods",
            "rpc.ping",
            "rpc.version",
            "common:getPublicInfo",
            "common:getNodes",
            "common:getNodesLatestStatus",
            "common:getMe",
            "common:getVersion",
        ]
    );
    for (i, r) in body.iter().enumerate() {
        assert_eq!(r.jsonrpc, "2.0");
        assert_eq!(r.id, i as i64 + 1);
    }
}

fn answer(id: i64, text: &str) -> JsonRpcResponseBase {
    JsonRpcResponseBase {
        jsonrpc: "2.0".to_string(),
        id,
        result: serde_json::Value::String(text.to_string()),
    }
}

#[test]
fn rpc_result_first_answer_wins() {
    let mut answers: Vec<JsonRpcResponseBase> = (1..=9).rev().map(|i| answer(i, &format!("r{i}"))).collect();
    answers.push(answer(3, "late"));
    let texts: Vec<String> = (1..=9)
        .map(|id| select_rpc_result(&answers, id).unwrap().as_str().unwrap().to_string())
        .collect();
    assert_eq!(texts, vec!["r1", "r2", "r3", "r4", "r5", "r6", "r7", "r8", "r9"]);
}

#[test]
fn rpc_result_missing_id() {
    let answers: Vec<JsonRpcResponseBase> = (1..=9).filter(|i| *i != 5 && *i != 7).map(|i| answer(i, "x")).collect();
    assert_eq!(
        select_rpc_result(&answers, 5),
        Err("Json 解析错误: 未找到 id 为 5 的响应".to_string())
    );
    assert_eq!(
        select_rpc_result(&answers, 7),
        Err("Json 解析错误: 未找到 id 为 7 的响应".to_string())
    );
    assert_eq!(select_rpc_result(&answers, 6).unwrap().as_str(), Some("x"));
}
