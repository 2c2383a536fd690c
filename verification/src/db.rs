//! Database monitoring (MySQL / Redis / MongoDB): the metric catalog, the
//! instance lists and the query dimensions. Every metric name was checked
//! against real instances through the console.
use crate::json::{
    at, field, int_of, items_of, items_or_empty, json_str, member_keys, member_value, members_of, push_int,
    push_member, push_text, push_value, str_of, str_or_empty, Json,
};
use crate::login::str_field;
use crate::text::copy_str;
use vstd::prelude::*;

verus! {

/// How a series is reduced over the window.
#[derive(Clone, Copy, PartialEq, Eq, Structural)]
pub enum Stat {
    Max,
    Avg,
}

/// One catalog entry: output key, monitor namespace, metric name, reduction.
pub struct CatalogEntry {
    pub key: &'static str,
    pub ns: &'static str,
    pub metric: &'static str,
    pub stat: Stat,
}

/// A catalog entry as plain values.
pub open spec fn entry_view(e: CatalogEntry) -> (Seq<char>, Seq<char>, Seq<char>, Stat) {
    (e.key@, e.ns@, e.metric@, e.stat)
}

/// The metrics queried for each database type.
pub open spec fn catalog_for(db_type: Seq<char>) -> Seq<(Seq<char>, Seq<char>, Seq<char>, Stat)> {
    if db_type == "mysql"@ {
        seq![
        ("cpu"@, "QCE/CDB"@, "CpuUseRate"@, Stat::Max),
        ("mem"@, "QCE/CDB"@, "MemoryUseRate"@, Stat::Max),
        ("qps"@, "QCE/CDB"@, "QPS"@, Stat::Max),
        ("tps"@, "QCE/CDB"@, "TPS"@, Stat::Max),
        ("conn"@, "QCE/CDB"@, "ThreadsConnected"@, Stat::Max),
        ("conn_limit"@, "QCE/CDB"@, "MaxConnections"@, Stat::Max),
        ("conn_rate"@, "QCE/CDB"@, "ConnectionUseRate"@, Stat::Max),
        ("threads_running"@, "QCE/CDB"@, "ThreadsRunning"@, Stat::Max),
        ("slow"@, "QCE/CDB"@, "SlowQueries"@, Stat::Max),
        ("innodb_hit"@, "QCE/CDB"@, "InnodbCacheHitRate"@, Stat::Avg),
        ("commit"@, "QCE/CDB"@, "ComCommit"@, Stat::Max),
        ("rollback"@, "QCE/CDB"@, "ComRollback"@, Stat::Max),
        ]
    } else if db_type == "redis"@ {
        seq![
        ("cpu"@, "QCE/REDIS_MEM"@, "CpuUtil"@, Stat::Max),
        ("cpu_max"@, "QCE/REDIS_MEM"@, "CpuMaxUtil"@, Stat::Max),
        ("mem"@, "QCE/REDIS_MEM"@, "MemUtil"@, Stat::Max),
        ("mem_max"@, "QCE/REDIS_MEM"@, "MemMaxUtil"@, Stat::Max),
        ("conn_util"@, "QCE/REDIS_MEM"@, "ConnectionsUtil"@, Stat::Max),
        ("conn_max_util"@, "QCE/REDIS_MEM"@, "ConnectionsMaxUtil"@, Stat::Max),
        ("hit"@, "QCE/REDIS_MEM"@, "CmdHitsRatio"@, Stat::Avg),
        ("qps"@, "QCE/REDIS_MEM"@, "Commands"@, Stat::Max),
        ("conn"@, "QCE/REDIS_MEM"@, "Connections"@, Stat::Max),
        ("mem_used"@, "QCE/REDIS_MEM"@, "MemUsed"@, Stat::Max),
        ("keys"@, "QCE/REDIS_MEM"@, "Keys"@, Stat::Max),
        ("cmd_err"@, "QCE/REDIS_MEM"@, "CmdErr"@, Stat::Max),
        ("evicted"@, "QCE/REDIS_MEM"@, "Evicted"@, Stat::Max),
        ("expired"@, "QCE/REDIS_MEM"@, "Expired"@, Stat::Max),
        ("slow"@, "QCE/REDIS_MEM"@, "CmdSlow"@, Stat::Max),
        ("latency_avg"@, "QCE/REDIS_MEM"@, "LatencyAvg"@, Stat::Max),
        ("latency_max"@, "QCE/REDIS_MEM"@, "LatencyMax"@, Stat::Max),
        ("latency_p99"@, "QCE/REDIS_MEM"@, "LatencyP99"@, Stat::Max),
        ("flow_in"@, "QCE/REDIS_MEM"@, "InFlow"@, Stat::Max),
        ("flow_out"@, "QCE/REDIS_MEM"@, "OutFlow"@, Stat::Max),
        ]
    } else if db_type == "mongodb"@ {
        seq![
        ("cpu"@, "QCE/CMONGO"@, "MonogdMaxCpuUsage"@, Stat::Max),
        ("cpu_avg"@, "QCE/CMONGO"@, "MonogdAvgCpuUsage"@, Stat::Avg),
        ("mem"@, "QCE/CMONGO"@, "MongodAvgMemUsage"@, Stat::Avg),
        ("mem_max"@, "QCE/CMONGO"@, "MongodMaxMemUsage"@, Stat::Max),
        ("disk"@, "QCE/CMONGO"@, "ClusterDiskusage"@, Stat::Max),
        ("mongos_cpu_avg"@, "QCE/CMONGO"@, "MonogsAvgCpuUsage"@, Stat::Avg),
        ("mongos_cpu_max"@, "QCE/CMONGO"@, "MonogsMaxCpuUsage"@, Stat::Max),
        ]
    } else {
        Seq::empty()
    }
}

fn catalog_mysql() -> (v: Vec<CatalogEntry>)
    ensures
        v@.map_values(|e: CatalogEntry| entry_view(e)) == catalog_for("mysql"@),
{
    let v: Vec<CatalogEntry> = vec![
        CatalogEntry { key: "cpu", ns: "QCE/CDB", metric: "CpuUseRate", stat: Stat::Max },
        CatalogEntry { key: "mem", ns: "QCE/CDB", metric: "MemoryUseRate", stat: Stat::Max },
        CatalogEntry { key: "qps", ns: "QCE/CDB", metric: "QPS", stat: Stat::Max },
        CatalogEntry { key: "tps", ns: "QCE/CDB", metric: "TPS", stat: Stat::Max },
        CatalogEntry { key: "conn", ns: "QCE/CDB", metric: "ThreadsConnected", stat: Stat::Max },
        CatalogEntry { key: "conn_limit", ns: "QCE/CDB", metric: "MaxConnections", stat: Stat::Max },
        CatalogEntry { key: "conn_rate", ns: "QCE/CDB", metric: "ConnectionUseRate", stat: Stat::Max },
        CatalogEntry { key: "threads_running", ns: "QCE/CDB", metric: "ThreadsRunning", stat: Stat::Max },
        CatalogEntry { key: "slow", ns: "QCE/CDB", metric: "SlowQueries", stat: Stat::Max },
        CatalogEntry { key: "innodb_hit", ns: "QCE/CDB", metric: "InnodbCacheHitRate", stat: Stat::Avg },
        CatalogEntry { key: "commit", ns: "QCE/CDB", metric: "ComCommit", stat: Stat::Max },
        CatalogEntry { key: "rollback", ns: "QCE/CDB", metric: "ComRollback", stat: Stat::Max },
    ];
    proof {
        reveal_strlit("mysql");
        reveal_strlit("redis");
        reveal_strlit("mongodb");
        assert("redis"@[0] != "mysql"@[0]);
        assert("mongodb"@.len() != "mysql"@.len() && "mongodb"@.len() != "redis"@.len());
    }
    assert(v@.map_values(|e: CatalogEntry| entry_view(e)) =~= catalog_for("mysql"@));
    v
}

fn catalog_redis() -> (v: Vec<CatalogEntry>)
    ensures
        v@.map_values(|e: CatalogEntry| entry_view(e)) == catalog_for("redis"@),
{
    let v: Vec<CatalogEntry> = vec![
        CatalogEntry { key: "cpu", ns: "QCE/REDIS_MEM", metric: "CpuUtil", stat: Stat::Max },
        CatalogEntry { key: "cpu_max", ns: "QCE/REDIS_MEM", metric: "CpuMaxUtil", stat: Stat::Max },
        CatalogEntry { key: "mem", ns: "QCE/REDIS_MEM", metric: "MemUtil", stat: Stat::Max },
        CatalogEntry { key: "mem_max", ns: "QCE/REDIS_MEM", metric: "MemMaxUtil", stat: Stat::Max },
        CatalogEntry { key: "conn_util", ns: "QCE/REDIS_MEM", metric: "ConnectionsUtil", stat: Stat::Max },
        CatalogEntry { key: "conn_max_util", ns: "QCE/REDIS_MEM", metric: "ConnectionsMaxUtil", stat: Stat::Max },
        CatalogEntry { key: "hit", ns: "QCE/REDIS_MEM", metric: "CmdHitsRatio", stat: Stat::Avg },
        CatalogEntry { key: "qps", ns: "QCE/REDIS_MEM", metric: "Commands", stat: Stat::Max },
        CatalogEntry { key: "conn", ns: "QCE/REDIS_MEM", metric: "Connections", stat: Stat::Max },
        CatalogEntry { key: "mem_used", ns: "QCE/REDIS_MEM", metric: "MemUsed", stat: Stat::Max },
        CatalogEntry { key: "keys", ns: "QCE/REDIS_MEM", metric: "Keys", stat: Stat::Max },
        CatalogEntry { key: "cmd_err", ns: "QCE/REDIS_MEM", metric: "CmdErr", stat: Stat::Max },
        CatalogEntry { key: "evicted", ns: "QCE/REDIS_MEM", metric: "Evicted", stat: Stat::Max },
        CatalogEntry { key: "expired", ns: "QCE/REDIS_MEM", metric: "Expired", stat: Stat::Max },
        CatalogEntry { key: "slow", ns: "QCE/REDIS_MEM", metric: "CmdSlow", stat: Stat::Max },
        CatalogEntry { key: "latency_avg", ns: "QCE/REDIS_MEM", metric: "LatencyAvg", stat: Stat::Max },
        CatalogEntry { key: "latency_max", ns: "QCE/REDIS_MEM", metric: "LatencyMax", stat: Stat::Max },
        CatalogEntry { key: "latency_p99", ns: "QCE/REDIS_MEM", metric: "LatencyP99", stat: Stat::Max },
        CatalogEntry { key: "flow_in", ns: "QCE/REDIS_MEM", metric: "InFlow", stat: Stat::Max },
        CatalogEntry { key: "flow_out", ns: "QCE/REDIS_MEM", metric: "OutFlow", stat: Stat::Max },
    ];
    proof {
        reveal_strlit("mysql");
        reveal_strlit("redis");
        reveal_strlit("mongodb");
        assert("redis"@[0] != "mysql"@[0]);
        assert("mongodb"@.len() != "mysql"@.len() && "mongodb"@.len() != "redis"@.len());
    }
    assert(v@.map_values(|e: CatalogEntry| entry_view(e)) =~= catalog_for("redis"@));
    v
}

fn catalog_mongodb() -> (v: Vec<CatalogEntry>)
    ensures
        v@.map_values(|e: CatalogEntry| entry_view(e)) == catalog_for("mongodb"@),
{
    let v: Vec<CatalogEntry> = vec![
        CatalogEntry { key: "cpu", ns: "QCE/CMONGO", metric: "MonogdMaxCpuUsage", stat: Stat::Max },
        CatalogEntry { key: "cpu_avg", ns: "QCE/CMONGO", metric: "MonogdAvgCpuUsage", stat: Stat::Avg },
        CatalogEntry { key: "mem", ns: "QCE/CMONGO", metric: "MongodAvgMemUsage", stat: Stat::Avg },
        CatalogEntry { key: "mem_max", ns: "QCE/CMONGO", metric: "MongodMaxMemUsage", stat: Stat::Max },
        CatalogEntry { key: "disk", ns: "QCE/CMONGO", metric: "ClusterDiskusage", stat: Stat::Max },
        CatalogEntry { key: "mongos_cpu_avg", ns: "QCE/CMONGO", metric: "MonogsAvgCpuUsage", stat: Stat::Avg },
        CatalogEntry { key: "mongos_cpu_max", ns: "QCE/CMONGO", metric: "MonogsMaxCpuUsage", stat: Stat::Max },
    ];
    proof {
        reveal_strlit("mysql");
        reveal_strlit("redis");
        reveal_strlit("mongodb");
        assert("redis"@[0] != "mysql"@[0]);
        assert("mongodb"@.len() != "mysql"@.len() && "mongodb"@.len() != "redis"@.len());
    }
    assert(v@.map_values(|e: CatalogEntry| entry_view(e)) =~= catalog_for("mongodb"@));
    v
}

/// The metric catalog of a database type (empty for an unknown type).
pub fn catalog(db_type: &str) -> (v: Vec<CatalogEntry>)
    ensures
        v@.map_values(|e: CatalogEntry| entry_view(e)) == catalog_for(db_type@),
{
    proof {
        reveal_strlit("mysql");
        reveal_strlit("redis");
        reveal_strlit("mongodb");
    }
    if crate::json::str_eq(db_type, "mysql") {
        catalog_mysql()
    } else if crate::json::str_eq(db_type, "redis") {
        catalog_redis()
    } else if crate::json::str_eq(db_type, "mongodb") {
        catalog_mongodb()
    } else {
        let v: Vec<CatalogEntry> = Vec::new();
        assert(v@.map_values(|e: CatalogEntry| entry_view(e)) =~= catalog_for(db_type@));
        v
    }
}

} // verus!

verus! {

/// A database instance: id and name.
pub struct DbInstance {
    pub id: String,
    pub name: String,
}

/// The dimension name of a database type in the monitor API.
pub open spec fn dims_name(db_type: Seq<char>) -> Seq<char> {
    if db_type == "redis"@ {
        "instanceid"@
    } else if db_type == "mongodb"@ {
        "target"@
    } else {
        "InstanceId"@
    }
}

/// The monitor dimensions of one instance: `[{"Name": .., "Value": id}]`.
pub fn dims_for(db_type: &str, instance_id: &str) -> (j: Json)
    ensures
        items_of(j) is Some,
        items_of(j).unwrap().len() == 1,
        members_of(items_of(j).unwrap()[0]) is Some,
        members_of(items_of(j).unwrap()[0]).unwrap().len() == 2,
        str_of(at(items_of(j).unwrap()[0], "Name"@)) == Some(dims_name(db_type@)),
        str_of(at(items_of(j).unwrap()[0], "Value"@)) == Some(instance_id@),
{
    proof {
        reveal_strlit("Name");
        reveal_strlit("Value");
        assert("Name"@.len() == 4 && "Value"@.len() == 5);
    }
    let name = if crate::json::str_eq(db_type, "redis") {
        "instanceid"
    } else if crate::json::str_eq(db_type, "mongodb") {
        "target"
    } else {
        "InstanceId"
    };
    let mut m: Vec<(String, Json)> = Vec::new();
    let a = json_str(name);
    let ghost ga = a;
    push_member(&mut m, "Name", a);
    let b = json_str(instance_id);
    let ghost gb = b;
    push_member(&mut m, "Value", b);
    let item = Json::Object(m);
    assert(field(item, "Name"@) == Some(ga));
    assert(field(item, "Value"@) == Some(gb));
    let mut items: Vec<Json> = Vec::new();
    items.push(item);
    Json::Array(items)
}

/// The DBbrain product of a supported database type.
pub open spec fn supported_db(db_type: Seq<char>) -> bool {
    db_type == "mysql"@ || db_type == "redis"@ || db_type == "mongodb"@
}

/// `不支持的数据库类型: {db_type}`.
pub fn unsupported_db_error(db_type: &str) -> (e: String)
    ensures
        e@ == "不支持的数据库类型: "@ + db_type@,
{
    crate::text::concat("不支持的数据库类型: ", db_type)
}

/// Whether the type is one DBbrain lists (`mysql`, `redis`, `mongodb`).
pub fn is_supported_db(db_type: &str) -> (b: bool)
    ensures
        b == supported_db(db_type@),
{
    crate::json::str_eq(db_type, "mysql") || crate::json::str_eq(db_type, "redis")
        || crate::json::str_eq(db_type, "mongodb")
}

/// The product API that lists instances of a type: service, version,
/// action and the key of the list in the answer.
pub open spec fn product_api_for(db_type: Seq<char>) -> Option<(Seq<char>, Seq<char>, Seq<char>, Seq<char>)> {
    if db_type == "mysql"@ {
        Some(("cdb"@, "2017-03-20"@, "DescribeDBInstances"@, "Items"@))
    } else if db_type == "redis"@ {
        Some(("redis"@, "2018-04-12"@, "DescribeInstances"@, "InstanceSet"@))
    } else if db_type == "mongodb"@ {
        Some(("mongodb"@, "2019-07-25"@, "DescribeDBInstances"@, "InstanceDetails"@))
    } else {
        None
    }
}

/// The product API of a database type.
pub fn product_api(db_type: &str) -> (r: Option<(&'static str, &'static str, &'static str, &'static str)>)
    ensures
        match r {
            Some((a, b, c, d)) => product_api_for(db_type@) == Some((a@, b@, c@, d@)),
            None => product_api_for(db_type@) is None,
        },
{
    if crate::json::str_eq(db_type, "mysql") {
        Some(("cdb", "2017-03-20", "DescribeDBInstances", "Items"))
    } else if crate::json::str_eq(db_type, "redis") {
        Some(("redis", "2018-04-12", "DescribeInstances", "InstanceSet"))
    } else if crate::json::str_eq(db_type, "mongodb") {
        Some(("mongodb", "2019-07-25", "DescribeDBInstances", "InstanceDetails"))
    } else {
        None
    }
}

/// The instances after reading one page: every item counts as read; those
/// with an id are kept, and with `dedupe` an id already kept is skipped.
pub open spec fn page_step(out: Seq<(Seq<char>, Seq<char>)>, it: Json, dedupe: bool) -> Seq<(Seq<char>, Seq<char>)> {
    let id = str_or_empty(at(it, "InstanceId"@));
    if id.len() == 0 {
        out
    } else if dedupe && (exists|k: int| 0 <= k < out.len() && out[k].0 == id) {
        out
    } else {
        out.push((id, str_or_empty(at(it, "InstanceName"@))))
    }
}

/// The instances after reading `items` in order.
pub open spec fn page_read(out: Seq<(Seq<char>, Seq<char>)>, items: Seq<Json>, dedupe: bool) -> Seq<(Seq<char>, Seq<char>)>
    decreases items.len(),
{
    if items.len() == 0 {
        out
    } else {
        page_step(page_read(out, items.drop_last(), dedupe), items.last(), dedupe)
    }
}

/// Instances as plain values.
pub open spec fn instances_view(v: Seq<DbInstance>) -> Seq<(Seq<char>, Seq<char>)> {
    v.map_values(|d: DbInstance| (d.id@, d.name@))
}

fn has_instance(out: &Vec<DbInstance>, id: &str) -> (b: bool)
    ensures
        b == exists|k: int| 0 <= k < instances_view(out@).len() && instances_view(out@)[k].0 == id@,
{
    let mut k: usize = 0;
    while k < out.len()
        invariant
            k <= out@.len(),
            forall|j: int| 0 <= j < k ==> instances_view(out@)[j].0 != id@,
        decreases out.len() - k,
    {
        if crate::json::str_eq(out[k].id.as_str(), id) {
            assert(instances_view(out@)[k as int].0 == id@);
            return true;
        }
        k = k + 1;
    }
    false
}

/// Reads one page of an instance list (`resp[list_key]`) into `out`; returns
/// how many items the page held (paging stops below the page size).
pub fn read_instance_page(resp: &Json, list_key: &str, dedupe: bool, out: &mut Vec<DbInstance>) -> (got: usize)
    ensures
        got == crate::container::array_at(*resp, list_key@).len(),
        instances_view(final(out)@) == page_read(
            instances_view(old(out)@),
            crate::container::array_at(*resp, list_key@),
            dedupe,
        ),
        instances_view(final(out)@).take(old(out)@.len() as int) == instances_view(old(out)@),
        forall|k: int|
            old(out)@.len() <= k < final(out)@.len() ==> exists|i: int|
                0 <= i < crate::container::array_at(*resp, list_key@).len() && item_text(
                    crate::container::array_at(*resp, list_key@)[i],
                    "InstanceId"@,
                ) == (#[trigger] final(out)@[k]).id@ && item_text(
                    crate::container::array_at(*resp, list_key@)[i],
                    "InstanceName"@,
                ) == final(out)@[k].name@,
{
    let empty: Vec<Json> = Vec::new();
    let items: &Vec<Json> = match resp.get(list_key) {
        Some(x) => match x.as_array() {
            Some(a) => a,
            None => &empty,
        },
        None => &empty,
    };
    let ghost start = instances_view(out@);
    let mut i: usize = 0;
    while i < items.len()
        invariant
            i <= items@.len(),
            instances_view(out@) == page_read(start, items@.take(i as int), dedupe),
        decreases items.len() - i,
    {
        assert(items@.take(i + 1).drop_last() == items@.take(i as int));
        let it = &items[i];
        let id = str_field(it, "InstanceId");
        if !id.as_str().is_empty() {
            let seen = dedupe && has_instance(out, id.as_str());
            if !seen {
                let name = str_field(it, "InstanceName");
                let ghost before = instances_view(out@);
                let ghost entry = (id@, name@);
                out.push(DbInstance { id, name });
                assert(instances_view(out@) =~= before.push(entry));
            }
        }
        i = i + 1;
    }
    assert(items@.take(items@.len() as int) == items@);
    proof {
        law_page_entries_come_from_items(start, items@, dedupe);
        let v = instances_view(out@);
        assert forall|k: int| start.len() <= k < out@.len() implies exists|i: int|
            0 <= i < items@.len() && item_text(items@[i], "InstanceId"@) == (#[trigger] out@[k]).id@ && item_text(
                items@[i],
                "InstanceName"@,
            ) == out@[k].name@ by {
            assert(v[k] == (out@[k].id@, out@[k].name@));
            let i = choose|i: int|
                0 <= i < items@.len() && item_text(items@[i], "InstanceId"@).len() > 0 && item_text(
                    items@[i],
                    "InstanceId"@,
                ) == (#[trigger] v[k]).0 && item_text(items@[i], "InstanceName"@) == v[k].1;
        }
    }
    items.len()
}

/// Whether the product API must be asked: DBbrain failed or listed nothing.
pub open spec fn fallback_needed(primary: Result<Vec<DbInstance>, String>) -> bool {
    match primary {
        Ok(l) => l@.len() == 0,
        Err(_) => true,
    }
}

/// Whether the product API must be asked after the DBbrain list.
pub fn needs_fallback(primary: &Result<Vec<DbInstance>, String>) -> (b: bool)
    ensures
        b == fallback_needed(*primary),
{
    match primary {
        Ok(l) => l.len() == 0,
        Err(_) => true,
    }
}

/// The instance list: DBbrain's when it listed something (it is the more
/// complete source), else the product API's; when DBbrain failed, its error
/// stands unless the product API listed something.
pub fn instance_list_outcome(
    primary: Result<Vec<DbInstance>, String>,
    fallback: Result<Vec<DbInstance>, String>,
) -> (r: Result<Vec<DbInstance>, String>)
    requires
        fallback_needed(primary),
    ensures
        r == match primary {
            Ok(_) => fallback,
            Err(e) => match fallback {
                Ok(l) => if l@.len() > 0 {
                    Ok::<Vec<DbInstance>, String>(l)
                } else {
                    Err::<Vec<DbInstance>, String>(e)
                },
                Err(_) => Err::<Vec<DbInstance>, String>(e),
            },
        },
{
    match primary {
        Ok(_) => fallback,
        Err(e) => match fallback {
            Ok(l) => if l.len() > 0 {
                Ok(l)
            } else {
                Err(e)
            },
            Err(_) => Err(e),
        },
    }
}

/// The text of member `key` of an item (empty when it is missing or not a
/// string).
pub open spec fn item_text(it: Json, key: Seq<char>) -> Seq<char> {
    match at(it, key) {
        Json::Str(s) => s@,
        _ => Seq::<char>::empty(),
    }
}

/// Reading a page keeps what was listed before, and every instance it adds
/// is one of the page's items: with that item's non-empty `InstanceId` and
/// that same item's `InstanceName`.
pub proof fn law_page_entries_come_from_items(
    out: Seq<(Seq<char>, Seq<char>)>,
    items: Seq<Json>,
    dedupe: bool,
)
    ensures
        page_read(out, items, dedupe).len() >= out.len(),
        page_read(out, items, dedupe).take(out.len() as int) == out,
        forall|k: int|
            out.len() <= k < page_read(out, items, dedupe).len() ==> exists|i: int|
                0 <= i < items.len() && item_text(items[i], "InstanceId"@).len() > 0 && item_text(
                    items[i],
                    "InstanceId"@,
                ) == (#[trigger] page_read(out, items, dedupe)[k]).0 && item_text(items[i], "InstanceName"@)
                    == page_read(out, items, dedupe)[k].1,
    decreases items.len(),
{
    if items.len() > 0 {
        let pre = items.drop_last();
        law_page_entries_come_from_items(out, pre, dedupe);
        let prev = page_read(out, pre, dedupe);
        let next = page_read(out, items, dedupe);
        let it = items.last();
        let n = items.len() - 1;
        assert(it == items[n]);
        assert(next == page_step(prev, it, dedupe));
        assert(str_or_empty(at(it, "InstanceId"@)) == item_text(it, "InstanceId"@));
        assert(str_or_empty(at(it, "InstanceName"@)) == item_text(it, "InstanceName"@));
        assert forall|k: int| out.len() <= k < next.len() implies exists|i: int|
            0 <= i < items.len() && item_text(items[i], "InstanceId"@).len() > 0 && item_text(
                items[i],
                "InstanceId"@,
            ) == (#[trigger] next[k]).0 && item_text(items[i], "InstanceName"@) == next[k].1 by {
            if k < prev.len() {
                assert(next[k] == prev[k]);
                let i = choose|i: int|
                    0 <= i < pre.len() && item_text(pre[i], "InstanceId"@).len() > 0 && item_text(
                        pre[i],
                        "InstanceId"@,
                    ) == (#[trigger] prev[k]).0 && item_text(pre[i], "InstanceName"@) == prev[k].1;
                assert(pre[i] == items[i]);
            } else {
                assert(k == prev.len());
                assert(next[k].0 == item_text(items[n], "InstanceId"@));
            }
        }
        assert(next.take(out.len() as int) =~= prev.take(out.len() as int));
    }
}

/// No instance id occurs twice.
pub open spec fn unique_ids(out: Seq<(Seq<char>, Seq<char>)>) -> bool {
    forall|i: int, j: int| 0 <= i < j < out.len() ==> out[i].0 != out[j].0
}

/// Paging with `dedupe` never lists an instance twice and keeps what was
/// listed before in place.
pub proof fn law_dedupe_keeps_ids_unique(
    out: Seq<(Seq<char>, Seq<char>)>,
    items: Seq<Json>,
)
    requires
        unique_ids(out),
    ensures
        unique_ids(page_read(out, items, true)),
        page_read(out, items, true).len() >= out.len(),
        page_read(out, items, true).take(out.len() as int) == out,
    decreases items.len(),
{
    if items.len() > 0 {
        law_dedupe_keeps_ids_unique(out, items.drop_last());
        let prev = page_read(out, items.drop_last(), true);
        let next = page_read(out, items, true);
        assert(next == page_step(prev, items.last(), true));
        let id = crate::json::str_or_empty(at(items.last(), "InstanceId"@));
        if id.len() > 0 && !(exists|k: int| 0 <= k < prev.len() && prev[k].0 == id) {
            assert(next == prev.push((id, crate::json::str_or_empty(at(items.last(), "InstanceName"@)))));
            assert forall|i: int, j: int| 0 <= i < j < next.len() implies next[i].0 != next[j].0 by {
                if j == prev.len() {
                    assert(next[i] == prev[i]);
                }
            }
            assert(next.take(out.len() as int) == prev.take(out.len() as int));
        }
    }
}


// ---------------------------------------------------------------------------
// Requests of a database query
// ---------------------------------------------------------------------------

/// The entries of the catalog that were asked for, in catalog order.
pub open spec fn wanted_of(
    entries: Seq<(Seq<char>, Seq<char>, Seq<char>, Stat)>,
    metrics: Seq<Seq<char>>,
) -> Seq<(Seq<char>, Seq<char>, Seq<char>, Stat)>
    decreases entries.len(),
{
    if entries.len() == 0 {
        entries
    } else {
        let rest = wanted_of(entries.drop_last(), metrics);
        if metrics.contains(entries.last().0) {
            rest.push(entries.last())
        } else {
            rest
        }
    }
}

fn asked(metrics: &[String], key: &str) -> (b: bool)
    ensures
        b == metrics@.map_values(|s: String| s@).contains(key@),
{
    let mut i: usize = 0;
    while i < metrics.len()
        invariant
            i <= metrics@.len(),
            forall|k: int| 0 <= k < i ==> metrics@[k]@ != key@,
        decreases metrics.len() - i,
    {
        if crate::json::str_eq(metrics[i].as_str(), key) {
            assert(metrics@.map_values(|s: String| s@)[i as int] == key@);
            return true;
        }
        i = i + 1;
    }
    proof {
        let v = metrics@.map_values(|s: String| s@);
        if v.contains(key@) {
            let k = choose|k: int| 0 <= k < v.len() && v[k] == key@;
            assert(metrics@[k]@ == key@);
        }
    }
    false
}

/// The catalog entries of `db_type` among the asked `metrics`.
pub fn wanted_entries(db_type: &str, metrics: &[String]) -> (r: Vec<CatalogEntry>)
    ensures
        r@.map_values(|e: CatalogEntry| entry_view(e)) == wanted_of(
            catalog_for(db_type@),
            metrics@.map_values(|s: String| s@),
        ),
{
    let all = catalog(db_type);
    let ghost cat = all@.map_values(|e: CatalogEntry| entry_view(e));
    let mut r: Vec<CatalogEntry> = Vec::new();
    let mut i: usize = 0;
    while i < all.len()
        invariant
            i <= all@.len(),
            cat == all@.map_values(|e: CatalogEntry| entry_view(e)),
            cat == catalog_for(db_type@),
            r@.map_values(|e: CatalogEntry| entry_view(e)) == wanted_of(
                cat.take(i as int),
                metrics@.map_values(|s: String| s@),
            ),
        decreases all.len() - i,
    {
        assert(cat.take(i + 1).drop_last() == cat.take(i as int));
        assert(cat.take(i + 1).last() == entry_view(all@[i as int]));
        let e = &all[i];
        if asked(metrics, e.key) {
            let ghost before = r@.map_values(|x: CatalogEntry| entry_view(x));
            r.push(CatalogEntry { key: e.key, ns: e.ns, metric: e.metric, stat: e.stat });
            assert(r@.map_values(|x: CatalogEntry| entry_view(x)) =~= before.push(entry_view(all@[i as int])));
        }
        i = i + 1;
    }
    assert(cat.take(all@.len() as int) == cat);
    r
}

/// The DBbrain figure a query adds after the monitor metrics.
pub enum DbExtra {
    /// Disk usage from the space status (MySQL, when `disk` is asked).
    Disk,
    /// The health score (Redis / MongoDB, when `score` is asked).
    Score,
    /// Nothing more.
    Nothing,
}

/// Which DBbrain figure a query of `db_type` adds.
pub open spec fn extra_of(db_type: Seq<char>, metrics: Seq<Seq<char>>) -> DbExtra {
    if db_type == "mysql"@ && metrics.contains("disk"@) {
        DbExtra::Disk
    } else if (db_type == "redis"@ || db_type == "mongodb"@) && metrics.contains("score"@) {
        DbExtra::Score
    } else {
        DbExtra::Nothing
    }
}

/// Which DBbrain figure a query of `db_type` adds.
pub fn db_extra(db_type: &str, metrics: &[String]) -> (r: DbExtra)
    ensures
        r == extra_of(db_type@, metrics@.map_values(|s: String| s@)),
{
    if crate::json::str_eq(db_type, "mysql") && asked(metrics, "disk") {
        DbExtra::Disk
    } else if (crate::json::str_eq(db_type, "redis") || crate::json::str_eq(db_type, "mongodb")) && asked(
        metrics,
        "score",
    ) {
        DbExtra::Score
    } else {
        DbExtra::Nothing
    }
}

/// The size of a page of an instance list.
pub open spec fn page_size() -> int {
    100
}

/// Whether a page came full, so that the next one is to be read.
pub fn page_full(got: usize) -> (b: bool)
    ensures
        b == (got >= page_size()),
{
    got >= 100
}

/// The payload of one DBbrain page (`DescribeDiagDBInstances`).
pub fn dbbrain_page_payload(product: &str, page: i64) -> (p: Json)
    requires
        i64::MIN <= page * 100 <= i64::MAX,
    ensures
        member_keys(p) == seq!["Version"@, "Product"@, "IsSupported"@, "Limit"@, "Offset"@],
        str_of(member_value(p, 0)) == Some("2019-10-16"@),
        str_of(member_value(p, 1)) == Some(product@),
        member_value(p, 2) == Json::Bool(true),
        int_of(member_value(p, 3)) == Some(100i64),
        int_of(member_value(p, 4)) == Some((page * 100) as i64),
{
    let mut m: Vec<(String, Json)> = Vec::new();
    push_text(&mut m, "Version", "2019-10-16");
    push_text(&mut m, "Product", product);
    push_value(&mut m, "IsSupported", Json::Bool(true));
    push_int(&mut m, "Limit", 100);
    push_int(&mut m, "Offset", page * 100);
    let p = Json::Object(m);
    assert(member_keys(p) =~= seq!["Version"@, "Product"@, "IsSupported"@, "Limit"@, "Offset"@]);
    p
}

/// The payload of one page of a product's own list.
pub fn product_page_payload(page: i64) -> (p: Json)
    requires
        i64::MIN <= page * 100 <= i64::MAX,
    ensures
        member_keys(p) == seq!["Limit"@, "Offset"@],
        int_of(member_value(p, 0)) == Some(100i64),
        int_of(member_value(p, 1)) == Some((page * 100) as i64),
{
    let mut m: Vec<(String, Json)> = Vec::new();
    push_int(&mut m, "Limit", 100);
    push_int(&mut m, "Offset", page * 100);
    let p = Json::Object(m);
    assert(member_keys(p) =~= seq!["Limit"@, "Offset"@]);
    p
}

/// The payload of `GetMonitorData` for one metric of one instance, one
/// point a minute over the window (`start` / `end` in local ISO time).
pub open spec fn is_monitor_payload(
    p: Json,
    ns: Seq<char>,
    metric: Seq<char>,
    dims: Json,
    start: Seq<char>,
    end: Seq<char>,
) -> bool {
    &&& member_keys(p) == seq![
        "Version"@,
        "Namespace"@,
        "MetricName"@,
        "Instances"@,
        "Period"@,
        "StartTime"@,
        "EndTime"@,
    ]
    &&& str_of(member_value(p, 0)) == Some("2018-07-24"@)
    &&& str_of(member_value(p, 1)) == Some(ns)
    &&& str_of(member_value(p, 2)) == Some(metric)
    &&& items_or_empty(member_value(p, 3)).len() == 1
    &&& member_keys(items_or_empty(member_value(p, 3))[0]) == seq!["Dimensions"@]
    &&& member_value(items_or_empty(member_value(p, 3))[0], 0) == dims
    &&& int_of(member_value(p, 4)) == Some(60i64)
    &&& str_of(member_value(p, 5)) == Some(start)
    &&& str_of(member_value(p, 6)) == Some(end)
}

/// The monitor query with the window given as local ISO times.
pub fn monitor_payload(ns: &str, metric: &str, dims: Json, start: &str, end: &str) -> (p: Json)
    ensures
        is_monitor_payload(p, ns@, metric@, dims, start@, end@),
{
    let mut inst: Vec<(String, Json)> = Vec::new();
    push_value(&mut inst, "Dimensions", dims);
    let i0 = Json::Object(inst);
    assert(member_keys(i0) =~= seq!["Dimensions"@]);
    let mut insts: Vec<Json> = Vec::new();
    insts.push(i0);
    let mut m: Vec<(String, Json)> = Vec::new();
    push_text(&mut m, "Version", "2018-07-24");
    push_text(&mut m, "Namespace", ns);
    push_text(&mut m, "MetricName", metric);
    push_value(&mut m, "Instances", Json::Array(insts));
    push_int(&mut m, "Period", 60);
    push_text(&mut m, "StartTime", start);
    push_text(&mut m, "EndTime", end);
    let p = Json::Object(m);
    assert(member_keys(p) =~= seq![
        "Version"@,
        "Namespace"@,
        "MetricName"@,
        "Instances"@,
        "Period"@,
        "StartTime"@,
        "EndTime"@,
    ]);
    p
}

/// The payload of `DescribeDBSpaceStatus` for a MySQL instance.
pub fn space_payload(instance_id: &str) -> (p: Json)
    ensures
        member_keys(p) == seq!["Version"@, "Product"@, "InstanceId"@],
        str_of(member_value(p, 0)) == Some("2019-10-16"@),
        str_of(member_value(p, 1)) == Some("mysql"@),
        str_of(member_value(p, 2)) == Some(instance_id@),
{
    let mut m: Vec<(String, Json)> = Vec::new();
    push_text(&mut m, "Version", "2019-10-16");
    push_text(&mut m, "Product", "mysql");
    push_text(&mut m, "InstanceId", instance_id);
    let p = Json::Object(m);
    assert(member_keys(p) =~= seq!["Version"@, "Product"@, "InstanceId"@]);
    p
}

/// The payload of `DescribeHealthScore` at `time` (local ISO time).
pub open spec fn is_health_payload(p: Json, db_type: Seq<char>, instance_id: Seq<char>, time: Seq<char>) -> bool {
    &&& member_keys(p) == seq!["Version"@, "Product"@, "InstanceId"@, "Time"@]
    &&& str_of(member_value(p, 0)) == Some("2019-10-16"@)
    &&& str_of(member_value(p, 1)) == Some(db_type)
    &&& str_of(member_value(p, 2)) == Some(instance_id)
    &&& str_of(member_value(p, 3)) == Some(time)
}

/// The health score query at `time` (local ISO time).
pub fn health_payload(db_type: &str, instance_id: &str, time: &str) -> (p: Json)
    ensures
        is_health_payload(p, db_type@, instance_id@, time@),
{
    let mut m: Vec<(String, Json)> = Vec::new();
    push_text(&mut m, "Version", "2019-10-16");
    push_text(&mut m, "Product", db_type);
    push_text(&mut m, "InstanceId", instance_id);
    push_text(&mut m, "Time", time);
    let p = Json::Object(m);
    assert(member_keys(p) =~= seq!["Version"@, "Product"@, "InstanceId"@, "Time"@]);
    p
}

/// The monitor query of the window `start..end` (Unix seconds), the ends
/// written in the machine's local time.
pub fn monitor_payload_at(ns: &str, metric: &str, dims: Json, start: i64, end: i64) -> (p: Json)
    ensures
        exists|s: Seq<char>, e: Seq<char>|
            #[trigger] is_monitor_payload(p, ns@, metric@, dims, s, e) && crate::container::is_local_time_of(
                s,
                start as int,
            ) && crate::container::is_local_time_of(e, end as int),
{
    let s = crate::container::iso_local(start);
    let e = crate::container::iso_local(end);
    let p = monitor_payload(ns, metric, dims, s.as_str(), e.as_str());
    assert(is_monitor_payload(p, ns@, metric@, dims, s@, e@));
    p
}

/// The health score query at `end` (Unix seconds), written in the machine's
/// local time.
pub fn health_payload_at(db_type: &str, instance_id: &str, end: i64) -> (p: Json)
    ensures
        exists|t: Seq<char>|
            #[trigger] is_health_payload(p, db_type@, instance_id@, t) && crate::container::is_local_time_of(
                t,
                end as int,
            ),
{
    let t = crate::container::iso_local(end);
    let p = health_payload(db_type, instance_id, t.as_str());
    assert(is_health_payload(p, db_type@, instance_id@, t@));
    p
}

} // verus!
