//! The records that a Komari site returns over JSON-RPC, and the batch request that asks for them.
use vstd::prelude::*;
use vstd::string::*;

verus! {

/// One call of a JSON-RPC 2.0 batch.
#[derive(Debug, Clone, PartialEq, Default)]
pub struct JsonRpcRequestBase {
    pub jsonrpc: String,
    pub method: String,
    pub id: i64,
}

/// One answer of a JSON-RPC 2.0 batch; `result` is carried as parsed JSON.
#[derive(Debug, Clone, PartialEq)]
pub struct JsonRpcResponseBase {
    pub jsonrpc: String,
    pub id: i64,
    pub result: serde_json::Value,
}

#[verifier::external_type_specification]
#[verifier::external_body]
pub struct ExValue(serde_json::Value);

/// Relies on the derived `Clone` of serde_json::Value: the copy is the same JSON value.
pub assume_specification[ <serde_json::Value as Clone>::clone ](v: &serde_json::Value) -> (r: serde_json::Value)
    ensures
        r == *v,
;

#[derive(Debug, Clone, PartialEq, Default)]
pub struct RpcHelpSingle {
    pub name: String,
    pub summary: String,
}

#[derive(Debug, Clone, PartialEq, Default)]
pub struct CommonGetPublicInfo {
    pub allow_cors: bool,
    pub custom_body: String,
    pub custom_head: String,
    pub description: String,
    pub disable_password_login: bool,
    pub oauth_enable: bool,
    pub oauth_provider: String,
    pub ping_record_preserve_time: i64,
    pub private_site: bool,
    pub record_enabled: bool,
    pub record_preserve_time: i64,
    pub sitename: String,
    pub theme: String,
}

/// The static description of one monitored machine.
#[derive(Debug, Clone, PartialEq, Default)]
pub struct CommonGetNodesSingle {
    pub uuid: String,
    pub name: String,
    pub cpu_name: String,
    pub virtualization: String,
    pub arch: String,
    pub cpu_cores: i64,
    pub os: String,
    pub kernel_version: String,
    pub gpu_name: String,
    pub region: String,
    pub mem_total: i64,
    pub swap_total: i64,
    pub disk_total: i64,
    pub group: Option<String>,
    pub tags: Option<String>,
    pub created_at: Option<String>,
    pub updated_at: Option<String>,
}

/// The latest report of one machine. Byte counts, byte rates and counters are
/// integers; CPU and GPU usage (percent) and the load averages are fixed-point
/// numbers in hundredths (`cpu == 1234` is 12.34 %).
#[derive(Debug, Clone, PartialEq, Default)]
pub struct CommonGetNodesLatestStatusSingle {
    pub client: String,
    pub time: String,
    pub cpu: i64,
    pub gpu: i64,
    pub ram: i64,
    pub ram_total: i64,
    pub swap: i64,
    pub swap_total: i64,
    pub load: i64,
    pub load5: i64,
    pub load15: i64,
    pub temp: i64,
    pub disk: i64,
    pub disk_total: i64,
    pub net_in: i64,
    pub net_out: i64,
    pub net_total_up: i64,
    pub net_total_down: i64,
    pub process: i64,
    pub connections: i64,
    pub connections_udp: i64,
    pub online: bool,
}

#[derive(Debug, Clone, PartialEq, Default)]
pub struct CommonGetMe {
    pub n2fa_enabled: bool,
    pub logged_in: bool,
    pub sso_id: String,
    pub sso_type: String,
    pub username: String,
    pub uuid: String,
}

#[derive(Debug, Clone, PartialEq, Default)]
pub struct CommonGetVersion {
    pub version: String,
    pub hash: String,
}

/// Everything one batch returns. The two node tables pair a node UUID with its
/// record, in the order the site sent them.
#[derive(Debug, Clone, PartialEq, Default)]
pub struct AllInfo {
    pub rpc_help: Vec<RpcHelpSingle>,
    pub rpc_methods: Vec<String>,
    pub rpc_ping: String,
    pub rpc_version: String,
    pub common_public_info: CommonGetPublicInfo,
    pub common_nodes: Vec<(String, CommonGetNodesSingle)>,
    pub common_nodes_latest_status: Vec<(String, CommonGetNodesLatestStatusSingle)>,
    pub common_me: CommonGetMe,
    pub common_version: CommonGetVersion,
}

/// The number of methods in the batch.
pub const RPC_METHOD_COUNT: usize = 9;

/// The method asked for under id `id` (1 to 9).
pub open spec fn rpc_method_name(id: int) -> Seq<char> {
    if id == 1 {
        "rpc.help"@
    } else if id == 2 {
        "rpc.methods"@
    } else if id == 3 {
        "rpc.ping"@
    } else if id == 4 {
        "rpc.version"@
    } else if id == 5 {
        "common:getPublicInfo"@
    } else if id == 6 {
        "common:getNodes"@
    } else if id == 7 {
        "common:getNodesLatestStatus"@
    } else if id == 8 {
        "common:getMe"@
    } else {
        "common:getVersion"@
    }
}

fn rpc_method_str(id: i64) -> (r: &'static str)
    ensures
        r@ == rpc_method_name(id as int),
{
    if id == 1 {
        "rpc.help"
    } else if id == 2 {
        "rpc.methods"
    } else if id == 3 {
        "rpc.ping"
    } else if id == 4 {
        "rpc.version"
    } else if id == 5 {
        "common:getPublicInfo"
    } else if id == 6 {
        "common:getNodes"
    } else if id == 7 {
        "common:getNodesLatestStatus"
    } else if id == 8 {
        "common:getMe"
    } else {
        "common:getVersion"
    }
}

/// The batch body: the nine methods in order, with ids 1 to 9, all on JSON-RPC "2.0".
pub fn rpc_batch_request() -> (r: Vec<JsonRpcRequestBase>)
    ensures
        r@.len() == RPC_METHOD_COUNT,
        forall|i: int|
            #![trigger r@[i]]
            0 <= i < r@.len() ==> {
                &&& r@[i].jsonrpc@ == "2.0"@
                &&& r@[i].method@ == rpc_method_name(i + 1)
                &&& r@[i].id == i + 1
            },
{
    let mut r: Vec<JsonRpcRequestBase> = Vec::new();
    let mut id: i64 = 1;
    while id <= 9
        invariant
            1 <= id <= 10,
            r@.len() == id - 1,
            forall|i: int|
                #![trigger r@[i]]
                0 <= i < r@.len() ==> {
                    &&& r@[i].jsonrpc@ == "2.0"@
                    &&& r@[i].method@ == rpc_method_name(i + 1)
                    &&& r@[i].id == i + 1
                },
        decreases 10 - id,
    {
        r.push(
            JsonRpcRequestBase {
                jsonrpc: String::from_str("2.0"),
                method: String::from_str(rpc_method_str(id)),
                id,
            },
        );
        id = id + 1;
    }
    r
}

/// The index of the first answer that carries `id`, if any.
pub open spec fn first_with_id(responses: Seq<JsonRpcResponseBase>, id: int) -> Option<int> {
    if exists|i: int| 0 <= i < responses.len() && responses[i].id == id {
        Some(
            choose|i: int|
                0 <= i < responses.len() && responses[i].id == id && forall|j: int|
                    0 <= j < i ==> responses[j].id != id,
        )
    } else {
        None
    }
}

/// The message given when no answer carries `id`.
pub open spec fn missing_id_message(id: int) -> Seq<char> {
    "Json 解析错误: 未找到 id 为 "@ + crate::text::int_text(id) + " 的响应"@
}

proof fn lemma_first_with_id(responses: Seq<JsonRpcResponseBase>, id: int, i: int)
    requires
        0 <= i < responses.len(),
        responses[i].id == id,
        forall|j: int| 0 <= j < i ==> responses[j].id != id,
    ensures
        first_with_id(responses, id) == Some(i),
{
    let c = choose|k: int|
        0 <= k < responses.len() && responses[k].id == id && forall|j: int|
            0 <= j < k ==> responses[j].id != id;
    assert(0 <= c < responses.len() && responses[c].id == id && forall|j: int|
        0 <= j < c ==> responses[j].id != id);
    if c < i {
        assert(responses[c].id != id);
    }
    if c > i {
        assert(responses[i].id != id);
    }
}

/// The result of the first answer that carries `id`, or the message that names the
/// missing id. Asked for ids 1 to 9 in turn, it lets each result be read before the
/// next id is looked up.
pub fn select_rpc_result(responses: &Vec<JsonRpcResponseBase>, id: i64) -> (r: Result<
    serde_json::Value,
    String,
>)
    ensures
        r is Ok <==> first_with_id(responses@, id as int) is Some,
        r is Ok ==> r->Ok_0 == responses@[first_with_id(responses@, id as int)->Some_0].result,
        r is Err ==> r->Err_0@ == missing_id_message(id as int),
{
    let mut i: usize = 0;
    while i < responses.len() && responses[i].id != id
        invariant
            i <= responses@.len(),
            forall|j: int| 0 <= j < i ==> responses@[j].id != id,
        decreases responses@.len() - i,
    {
        i = i + 1;
    }
    if i >= responses.len() {
        let mut msg = String::from_str("Json 解析错误: 未找到 id 为 ");
        crate::text::push_int(&mut msg, id);
        msg.append(" 的响应");
        return Err(msg);
    }
    proof {
        lemma_first_with_id(responses@, id as int, i as int);
    }
    Ok(responses[i].result.clone())
}

} // verus!
