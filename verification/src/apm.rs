//! APM data access: only the cookie channel (the console's private API).
use crate::config::{capi_csrf_of, cookie_ids, Config, MetricDef};
use crate::console::{incomplete_session_error, is_console_body, missing_csrf_error, ConsoleRequest};
use crate::cred::{cred, mark};
use crate::json::{
    at, field, int_of, items_or_empty, member_keys, member_value, push_int, push_text, push_value, str_of,
    string_array, text_array, Json,
};
use crate::text::{blank, copy_str, decimal, i64_text, is_blank, push_str};
use vstd::prelude::*;

verus! {

/// A channel to the console, holding the configuration (and so the session).
pub struct Channel {
    cfg: Config,
}

impl Channel {
    /// The configuration the channel was made from.
    pub closed spec fn settings(self) -> Config {
        self.cfg
    }

    /// A channel for `cfg`; refused (as a login error) without a cookie.
    pub fn from_config(cfg: &Config) -> (r: Result<Channel, String>)
        ensures
            match r {
                Ok(ch) => !is_blank(cfg.cookie@) && ch.settings().same_as(*cfg),
                Err(e) => is_blank(cfg.cookie@) && e@ == mark() + "未登录：请先在设置里点「扫码登录」"@,
            },
    {
        if blank(cfg.cookie.as_str()) {
            return Err(cred("未登录：请先在设置里点「扫码登录」"));
        }
        Ok(Channel { cfg: cfg.clone() })
    }

    /// Read access to the configuration (the fallback needs region / cluster).
    pub fn config(&self) -> (r: &Config)
        ensures
            *r == self.settings(),
    {
        &self.cfg
    }

    /// Prepares a call of the old gateway `/cgi/capi` (the only source of the
    /// container utilisation). The csrf code is `bkn(skey)` computed from the
    /// cookie; the body is the inner JSON itself, never wrapped in `{"text":..}`.
    pub fn capi_request(&self, service: &str, cmd: &str, data: Json, now_ms: i64) -> (r: Result<
        ConsoleRequest,
        String,
    >)
        ensures
            match r {
                Err(e) => if cookie_ids(self.settings().cookie@).0.len() == 0 || cookie_ids(
                    self.settings().cookie@,
                ).1.len() == 0 {
                    e@ == incomplete_session_error()
                } else {
                    is_blank(capi_csrf_of(self.settings().cookie@, self.settings().csrf_code@))
                        && e@ == missing_csrf_error()
                },
                Ok(req) => {
                    &&& cookie_ids(self.settings().cookie@).0.len() > 0
                    &&& cookie_ids(self.settings().cookie@).1.len() > 0
                    &&& !is_blank(capi_csrf_of(self.settings().cookie@, self.settings().csrf_code@))
                    &&& req.url@ == capi_url(
                        service@,
                        cmd@,
                        now_ms,
                        cookie_ids(self.settings().cookie@).0,
                        cookie_ids(self.settings().cookie@).1,
                        capi_csrf_of(self.settings().cookie@, self.settings().csrf_code@),
                    )
                    &&& is_console_body(req.body, cmd@, service@, data, self.settings().region_id)
                },
            },
    {
        let cfg = &self.cfg;
        let (uin, owner) = cfg.extract_ids_from_cookie();
        if uin.as_str().is_empty() || owner.as_str().is_empty() {
            return Err(cred("无法确定 uin/ownerUin：当前会话不完整，请重新登录"));
        }
        let csrf_code = cfg.capi_csrf();
        if blank(csrf_code.as_str()) {
            return Err(cred("缺少 csrfCode：请重新登录"));
        }
        let body = crate::console::console_body(cmd, service, data, cfg.region_id);
        let mut url = String::new();
        push_str(&mut url, "https://console.cloud.tencent.com/cgi/capi?cmd=");
        push_str(&mut url, cmd);
        push_str(&mut url, "&action=delegate&serviceType=");
        push_str(&mut url, service);
        push_str(&mut url, "&secure=1&version=3&dictId=2006&sts=1&t=");
        push_str(&mut url, i64_text(now_ms).as_str());
        push_str(&mut url, "&uin=");
        push_str(&mut url, uin.as_str());
        push_str(&mut url, "&ownerUin=");
        push_str(&mut url, owner.as_str());
        push_str(&mut url, "&csrfCode=");
        push_str(&mut url, csrf_code.as_str());
        assert(url@ =~= capi_url(service@, cmd@, now_ms, uin@, owner@, csrf_code@));
        Ok(ConsoleRequest { url, body })
    }
}

/// The URL of an old-gateway call (no `json=1`: the gateway would read it as
/// another kind of cloud API).
pub open spec fn capi_url(
    service: Seq<char>,
    cmd: Seq<char>,
    now_ms: i64,
    uin: Seq<char>,
    owner: Seq<char>,
    csrf: Seq<char>,
) -> Seq<char> {
    "https://console.cloud.tencent.com/cgi/capi?cmd="@ + cmd + "&action=delegate&serviceType="@
        + service + "&secure=1&version=3&dictId=2006&sts=1&t="@ + decimal(now_ms as int)
        + "&uin="@ + uin + "&ownerUin="@ + owner + "&csrfCode="@ + csrf
}

/// The error of an old-gateway answer with a non-zero code. It is not marked
/// as a login error: the gateway's 9/1216 only say its short-lived token was
/// refused.
pub open spec fn capi_code_error(code: i64, msg: Seq<char>) -> Seq<char> {
    "旧网关接口错误 code="@ + decimal(code as int) + ": "@ + msg
        + "（容器 CPU/内存利用率依赖该网关的短寿命令牌）"@
}

/// The code of an old-gateway answer, -1 when absent.
pub open spec fn capi_code(v: Json) -> i64 {
    match int_of(at(v, "code"@)) {
        Some(c) => c,
        None => -1i64,
    }
}

/// `v["data"]["data"]["Response"]` when it is an object, else
/// `v["data"]["Response"]` when it is an object, else `v["data"]["data"]`.
pub open spec fn capi_payload(v: Json) -> Json {
    let d = at(v, "data"@);
    if at(at(d, "data"@), "Response"@) is Object {
        at(at(d, "data"@), "Response"@)
    } else if at(d, "Response"@) is Object {
        at(d, "Response"@)
    } else {
        at(d, "data"@)
    }
}

/// What an old-gateway answer means.
pub open spec fn capi_answer(v: Json) -> Result<Json, Seq<char>> {
    if capi_code(v) != 0 {
        Err(
            capi_code_error(
                capi_code(v),
                match str_of(at(v, "msg"@)) {
                    Some(m) => m,
                    None => Seq::<char>::empty(),
                },
            ),
        )
    } else {
        Ok(capi_payload(v))
    }
}

/// `v[key]` taken out of `v`, `null` when absent.
pub fn take_at(v: Json, key: &str) -> (r: Json)
    ensures
        r == at(v, key@),
{
    match v.take(key) {
        Some(x) => x,
        None => Json::Null,
    }
}

fn is_object(v: Option<&Json>) -> (b: bool)
    ensures
        b == match v {
            Some(x) => *x is Object,
            None => false,
        },
{
    match v {
        Some(Json::Object(_)) => true,
        _ => false,
    }
}

/// Reads an old-gateway answer: its business data, or the error of a
/// non-zero code.
pub fn capi_response(v: Json) -> (r: Result<Json, String>)
    ensures
        match r {
            Ok(x) => capi_answer(v) == Ok::<Json, Seq<char>>(x),
            Err(e) => capi_answer(v) == Err::<Json, Seq<char>>(e@),
        },
{
    let code: i64 = match v.get("code") {
        Some(c) => match c.as_i64() {
            Some(i) => i,
            None => -1,
        },
        None => -1,
    };
    if code != 0 {
        let msg = match v.str_at("msg") {
            Some(m) => copy_str(m),
            None => String::new(),
        };
        let mut e = String::new();
        push_str(&mut e, "旧网关接口错误 code=");
        push_str(&mut e, i64_text(code).as_str());
        push_str(&mut e, ": ");
        push_str(&mut e, msg.as_str());
        push_str(&mut e, "（容器 CPU/内存利用率依赖该网关的短寿命令牌）");
        return Err(e);
    }
    let d = take_at(v, "data");
    let inner_is_obj = match d.get("data") {
        Some(dd) => is_object(dd.get("Response")),
        None => false,
    };
    if inner_is_obj {
        let dd = take_at(d, "data");
        return Ok(take_at(dd, "Response"));
    }
    if is_object(d.get("Response")) {
        return Ok(take_at(d, "Response"));
    }
    Ok(take_at(d, "data"))
}

/// The metric list built into the tool (names checked against the console).
pub open spec fn builtin_metrics() -> Seq<(Seq<char>, Seq<char>, Seq<char>)> {
    seq![
        ("request_count"@, "请求量"@, "service_metric"@),
        ("error_request_count"@, "异常请求量"@, "service_metric"@),
        ("error_req_rate_avg"@, "错误率"@, "service_metric"@),
        ("duration_p99"@, "P99耗时"@, "service_metric"@),
        ("duration_p95"@, "P95耗时"@, "service_metric"@),
        ("duration_avg"@, "平均耗时"@, "service_metric"@),
        ("duration_max"@, "最大耗时"@, "service_metric"@),
        ("duration_min"@, "最小耗时"@, "service_metric"@),
        ("slow_request_count"@, "慢调用量"@, "service_metric"@),
        ("tolerate_request_count"@, "容忍调用量"@, "service_metric"@),
        ("qps_avg"@, "平均(次/秒)"@, "computed"@),
    ]
}

fn push_def(v: &mut Vec<MetricDef>, name: &str, cn: &str, view: &str)
    ensures
        final(v)@.len() == old(v)@.len() + 1,
        forall|i: int| 0 <= i < old(v)@.len() ==> final(v)@[i] == old(v)@[i],
        final(v)@[old(v)@.len() as int].name@ == name@,
        final(v)@[old(v)@.len() as int].cn@ == cn@,
        final(v)@[old(v)@.len() as int].view@ == view@,
{
    v.push(MetricDef { name: copy_str(name), view: copy_str(view), cn: copy_str(cn) });
}

/// The built-in metric list. `qps_avg` is computed by the front end
/// (requests / window seconds), it is not a server metric.
pub fn builtin_metric_defs() -> (v: Vec<MetricDef>)
    ensures
        v@.len() == builtin_metrics().len(),
        forall|i: int|
            0 <= i < v@.len() ==> ((#[trigger] v@[i]).name@, v@[i].cn@, v@[i].view@)
                == builtin_metrics()[i],
{
    let mut v: Vec<MetricDef> = Vec::new();
    push_def(&mut v, "request_count", "请求量", "service_metric");
    push_def(&mut v, "error_request_count", "异常请求量", "service_metric");
    push_def(&mut v, "error_req_rate_avg", "错误率", "service_metric");
    push_def(&mut v, "duration_p99", "P99耗时", "service_metric");
    push_def(&mut v, "duration_p95", "P95耗时", "service_metric");
    push_def(&mut v, "duration_avg", "平均耗时", "service_metric");
    push_def(&mut v, "duration_max", "最大耗时", "service_metric");
    push_def(&mut v, "duration_min", "最小耗时", "service_metric");
    push_def(&mut v, "slow_request_count", "慢调用量", "service_metric");
    push_def(&mut v, "tolerate_request_count", "容忍调用量", "service_metric");
    push_def(&mut v, "qps_avg", "平均(次/秒)", "computed");
    v
}

/// The names given back by `DescribeGeneralMetricData`: when the server
/// returned as many records as metrics were asked, the records are put back
/// under the requested names in order; otherwise `service_request_count_sum`
/// is read as `request_count`.
pub open spec fn aligned_name(
    raw: Seq<Seq<char>>,
    metrics: Seq<Seq<char>>,
    i: int,
) -> Seq<char> {
    if raw.len() == metrics.len() {
        metrics[i]
    } else if raw[i] == "service_request_count_sum"@ {
        "request_count"@
    } else {
        raw[i]
    }
}

/// Puts the server's metric names back to the requested ones (see
/// `aligned_name`); the values are kept in order.
pub fn align_metric_names<V: Copy>(raw: Vec<(String, V)>, metrics: &[String]) -> (out: Vec<
    (String, V),
>)
    ensures
        out@.len() == raw@.len(),
        forall|i: int|
            0 <= i < out@.len() ==> (#[trigger] out@[i]).1 == raw@[i].1 && out@[i].0@
                == aligned_name(
                raw@.map_values(|p: (String, V)| p.0@),
                metrics@.map_values(|s: String| s@),
                i,
            ),
{
    let same = raw.len() == metrics.len();
    let mut out: Vec<(String, V)> = Vec::new();
    let mut i: usize = 0;
    proof {
        reveal_strlit("service_request_count_sum");
        reveal_strlit("request_count");
    }
    while i < raw.len()
        invariant
            i <= raw@.len(),
            same == (raw@.len() == metrics@.len()),
            out@.len() == i,
            forall|k: int|
                0 <= k < i ==> (#[trigger] out@[k]).1 == raw@[k].1 && out@[k].0@ == aligned_name(
                    raw@.map_values(|p: (String, V)| p.0@),
                    metrics@.map_values(|s: String| s@),
                    k,
                ),
        decreases raw.len() - i,
    {
        let name = if same {
            metrics[i].clone()
        } else if crate::json::str_eq(raw[i].0.as_str(), "service_request_count_sum") {
            copy_str("request_count")
        } else {
            raw[i].0.clone()
        };
        out.push((name, raw[i].1));
        i = i + 1;
    }
    out
}

/// A call of the old gateway as a whole: a session without both ids or
/// without a csrf code is refused before any request with an error marked
/// for a new login; an answer with a non-zero code is a refused token (the
/// caller retries).
pub proof fn law_capi_call(code: i64, msg: Seq<char>)
    ensures
        crate::text::has_sub(crate::console::incomplete_session_error(), crate::cred::mark()),
        crate::text::has_sub(crate::console::missing_csrf_error(), crate::cred::mark()),
        crate::cred::capi_stale_text(capi_code_error(code, msg)),
{
    let m = crate::cred::mark();
    let a = crate::console::incomplete_session_error();
    let b = crate::console::missing_csrf_error();
    assert(a.subrange(0, m.len() as int) =~= m);
    assert(crate::text::occurs_at(a, m, 0));
    assert(b.subrange(0, m.len() as int) =~= m);
    assert(crate::text::occurs_at(b, m, 0));
    law_gateway_rejection_is_token_stale(code, msg);
}

/// Every error of a non-zero old-gateway code reads as a refused token, so
/// the caller retries with a fresh one instead of asking for a login.
pub proof fn law_gateway_rejection_is_token_stale(code: i64, msg: Seq<char>)
    ensures
        crate::cred::capi_stale_text(capi_code_error(code, msg)),
{
    reveal_strlit("旧网关接口错误");
    reveal_strlit("旧网关接口错误 code=");
    let e = capi_code_error(code, msg);
    let p = "旧网关接口错误"@;
    let q = "旧网关接口错误 code="@;
    assert(p.len() == 7);
    assert(q.subrange(0, 7) =~= p);
    assert(e.subrange(0, 7) =~= q.subrange(0, 7));
    assert(crate::text::occurs_at(e, p, 0));
}


// ---------------------------------------------------------------------------
// Request payloads of the APM API
// ---------------------------------------------------------------------------

/// `{"InstanceId": instance_id, "PageSize": 10}`: the services of a business
/// system (without a time range the API lists them all at once).
pub fn service_list_payload(instance_id: &str) -> (p: Json)
    ensures
        member_keys(p) == seq!["InstanceId"@, "PageSize"@],
        str_of(member_value(p, 0)) == Some(instance_id@),
        int_of(member_value(p, 1)) == Some(10i64),
{
    let mut m: Vec<(String, Json)> = Vec::new();
    push_text(&mut m, "InstanceId", instance_id);
    push_int(&mut m, "PageSize", 10);
    let p = Json::Object(m);
    assert(member_keys(p) =~= seq!["InstanceId"@, "PageSize"@]);
    p
}

/// A filter `{"Key": key, "Value": value}`.
pub open spec fn is_kv_filter(j: Json, key: Seq<char>, value: Seq<char>) -> bool {
    &&& member_keys(j) == seq!["Key"@, "Value"@]
    &&& str_of(member_value(j, 0)) == Some(key)
    &&& str_of(member_value(j, 1)) == Some(value)
}

fn kv_filter(key: &str, value: &str) -> (j: Json)
    ensures
        is_kv_filter(j, key@, value@),
{
    let mut m: Vec<(String, Json)> = Vec::new();
    push_text(&mut m, "Key", key);
    push_text(&mut m, "Value", value);
    let j = Json::Object(m);
    assert(member_keys(j) =~= seq!["Key"@, "Value"@]);
    j
}

/// The strings of an array are `names`, in order.
pub open spec fn holds_texts(j: Json, names: Seq<Seq<char>>) -> bool {
    &&& j is Array
    &&& items_or_empty(j).len() == names.len()
    &&& forall|i: int| 0 <= i < names.len() ==> str_of(#[trigger] items_or_empty(j)[i]) == Some(names[i])
}

/// The payload of `DescribeGeneralMetricData` for one service and one view:
/// the whole window in one value (`Period` 0), server spans only.
pub fn general_metric_payload(
    instance_id: &str,
    app: &str,
    view: &str,
    metrics: &[String],
    start: i64,
    end: i64,
) -> (p: Json)
    ensures
        member_keys(p) == seq![
            "InstanceId"@,
            "ViewName"@,
            "Metrics"@,
            "Filters"@,
            "GroupBy"@,
            "StartTime"@,
            "EndTime"@,
            "Period"@,
            "PageSize"@,
        ],
        str_of(member_value(p, 0)) == Some(instance_id@),
        str_of(member_value(p, 1)) == Some(view@),
        holds_texts(member_value(p, 2), metrics@.map_values(|s: String| s@)),
        items_or_empty(member_value(p, 3)).len() == 2,
        is_kv_filter(items_or_empty(member_value(p, 3))[0], "service.name"@, app@),
        is_kv_filter(items_or_empty(member_value(p, 3))[1], "span.kind"@, "server"@),
        holds_texts(member_value(p, 4), seq!["service.name"@]),
        int_of(member_value(p, 5)) == Some(start),
        int_of(member_value(p, 6)) == Some(end),
        int_of(member_value(p, 7)) == Some(0i64),
        int_of(member_value(p, 8)) == Some(50i64),
{
    let mut filters: Vec<Json> = Vec::new();
    filters.push(kv_filter("service.name", app));
    filters.push(kv_filter("span.kind", "server"));
    let ms = string_array(metrics);
    let gb = text_array(&["service.name"]);
    let mut m: Vec<(String, Json)> = Vec::new();
    push_text(&mut m, "InstanceId", instance_id);
    push_text(&mut m, "ViewName", view);
    push_value(&mut m, "Metrics", ms);
    push_value(&mut m, "Filters", Json::Array(filters));
    push_value(&mut m, "GroupBy", gb);
    push_int(&mut m, "StartTime", start);
    push_int(&mut m, "EndTime", end);
    push_int(&mut m, "Period", 0);
    push_int(&mut m, "PageSize", 50);
    let p = Json::Object(m);
    assert(member_keys(p) =~= seq![
        "InstanceId"@,
        "ViewName"@,
        "Metrics"@,
        "Filters"@,
        "GroupBy"@,
        "StartTime"@,
        "EndTime"@,
        "Period"@,
        "PageSize"@,
    ]);
    assert(holds_texts(member_value(p, 2), metrics@.map_values(|s: String| s@)));
    assert(holds_texts(member_value(p, 4), seq!["service.name"@]));
    p
}

/// The instance-level metrics the API answers for (it wants the whole set).
pub open spec fn instance_metric_names() -> Seq<Seq<char>> {
    seq![
        "jvm_heap_usage_percent_top"@,
        "cpu_usage_percent_top"@,
        "qps"@,
        "duration_avg"@,
        "duration_p50"@,
        "duration_p95"@,
        "duration_p99"@,
        "duration_max"@,
        "error_req_rate_avg"@,
        "error_request_count"@,
        "request_count_sum"@,
        "diagnostic_tab_presence"@,
    ]
}

/// A filter `{"Key": key, "Type": op, "Value": value}`.
pub open spec fn is_typed_filter(j: Json, key: Seq<char>, op: Seq<char>, value: Seq<char>) -> bool {
    &&& member_keys(j) == seq!["Key"@, "Type"@, "Value"@]
    &&& str_of(member_value(j, 0)) == Some(key)
    &&& str_of(member_value(j, 1)) == Some(op)
    &&& str_of(member_value(j, 2)) == Some(value)
}

fn typed_filter(key: &str, op: &str, value: &str) -> (j: Json)
    ensures
        is_typed_filter(j, key@, op@, value@),
{
    let mut m: Vec<(String, Json)> = Vec::new();
    push_text(&mut m, "Key", key);
    push_text(&mut m, "Type", op);
    push_text(&mut m, "Value", value);
    let j = Json::Object(m);
    assert(member_keys(j) =~= seq!["Key"@, "Type"@, "Value"@]);
    j
}

/// One metric of the instance query, compared with yesterday and last week.
pub open spec fn is_compared_metric(j: Json, name: Seq<char>) -> bool {
    &&& member_keys(j) == seq!["MetricName"@, "Compares"@]
    &&& str_of(member_value(j, 0)) == Some(name)
    &&& holds_texts(member_value(j, 1), seq!["CompareByYesterday"@, "CompareByLastWeek"@])
}

fn compared_metric(name: &str) -> (j: Json)
    ensures
        is_compared_metric(j, name@),
{
    let c = text_array(&["CompareByYesterday", "CompareByLastWeek"]);
    let mut m: Vec<(String, Json)> = Vec::new();
    push_text(&mut m, "MetricName", name);
    push_value(&mut m, "Compares", c);
    let j = Json::Object(m);
    assert(member_keys(j) =~= seq!["MetricName"@, "Compares"@]);
    assert(holds_texts(member_value(j, 1), seq!["CompareByYesterday"@, "CompareByLastWeek"@]));
    j
}

/// The payload of `DescribeMetricRecords`: every instance of one service,
/// the whole metric set, highest CPU first.
pub fn instance_records_payload(instance_id: &str, app: &str, start: i64, end: i64) -> (p: Json)
    ensures
        member_keys(p) == seq![
            "Version"@,
            "Language"@,
            "Filters"@,
            "StartTime"@,
            "EndTime"@,
            "Metrics"@,
            "GroupBy"@,
            "InstanceId"@,
            "OrderBy"@,
        ],
        str_of(member_value(p, 0)) == Some("2021-06-22"@),
        str_of(member_value(p, 1)) == Some("zh-CN"@),
        items_or_empty(member_value(p, 2)).len() == 2,
        is_typed_filter(items_or_empty(member_value(p, 2))[0], "service.name"@, "="@, app@),
        is_typed_filter(items_or_empty(member_value(p, 2))[1], "span.kind"@, "in"@, "consumer,server"@),
        int_of(member_value(p, 3)) == Some(start),
        int_of(member_value(p, 4)) == Some(end),
        items_or_empty(member_value(p, 5)).len() == instance_metric_names().len(),
        forall|i: int|
            0 <= i < instance_metric_names().len() ==> is_compared_metric(
                #[trigger] items_or_empty(member_value(p, 5))[i],
                instance_metric_names()[i],
            ),
        holds_texts(member_value(p, 6), seq!["service.instance"@]),
        str_of(member_value(p, 7)) == Some(instance_id@),
        is_kv_filter(member_value(p, 8), "cpu_usage_percent_top"@, "desc"@),
{
    let names: [&str; 12] = [
        "jvm_heap_usage_percent_top",
        "cpu_usage_percent_top",
        "qps",
        "duration_avg",
        "duration_p50",
        "duration_p95",
        "duration_p99",
        "duration_max",
        "error_req_rate_avg",
        "error_request_count",
        "request_count_sum",
        "diagnostic_tab_presence",
    ];
    assert(names@.map_values(|s: &str| s@) =~= instance_metric_names());
    let mut metrics: Vec<Json> = Vec::new();
    let mut i: usize = 0;
    while i < 12
        invariant
            i <= 12,
            names@.map_values(|s: &str| s@) == instance_metric_names(),
            metrics@.len() == i,
            forall|k: int| 0 <= k < i ==> is_compared_metric(#[trigger] metrics@[k], instance_metric_names()[k]),
        decreases 12 - i,
    {
        assert(names@.map_values(|s: &str| s@)[i as int] == names@[i as int]@);
        metrics.push(compared_metric(names[i]));
        i = i + 1;
    }
    let mut filters: Vec<Json> = Vec::new();
    filters.push(typed_filter("service.name", "=", app));
    filters.push(typed_filter("span.kind", "in", "consumer,server"));
    let gb = text_array(&["service.instance"]);
    let order = kv_filter("cpu_usage_percent_top", "desc");
    let mut m: Vec<(String, Json)> = Vec::new();
    push_text(&mut m, "Version", "2021-06-22");
    push_text(&mut m, "Language", "zh-CN");
    push_value(&mut m, "Filters", Json::Array(filters));
    push_int(&mut m, "StartTime", start);
    push_int(&mut m, "EndTime", end);
    push_value(&mut m, "Metrics", Json::Array(metrics));
    push_value(&mut m, "GroupBy", gb);
    push_text(&mut m, "InstanceId", instance_id);
    push_value(&mut m, "OrderBy", order);
    let p = Json::Object(m);
    assert(member_keys(p) =~= seq![
        "Version"@,
        "Language"@,
        "Filters"@,
        "StartTime"@,
        "EndTime"@,
        "Metrics"@,
        "GroupBy"@,
        "InstanceId"@,
        "OrderBy"@,
    ]);
    assert(holds_texts(member_value(p, 6), seq!["service.instance"@]));
    p
}


/// The error for an old-gateway answer that is not JSON: its first 200
/// characters.
pub fn capi_non_json(text: &str) -> (r: String)
    ensures
        r@ == "响应非 JSON: "@ + crate::capi::prefix_chars(text@, 200),
{
    let mut r = copy_str("响应非 JSON: ");
    let head = crate::text::take_chars(text, 200);
    assert(head@ == crate::capi::prefix_chars(text@, 200)) by {
        if text@.len() < 200 {
            assert(text@.take(text@.len() as int) == text@);
        }
    }
    push_str(&mut r, head.as_str());
    r
}

} // verus!
