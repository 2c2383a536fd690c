use apm_monitor::apm::{align_metric_names, builtin_metric_defs, capi_response, Channel};
use apm_monitor::config::Config;
use apm_monitor::console::{add_version, api_err, normalize, prepare_console_call, snippet};
use apm_monitor::cred::is_cred;
use apm_monitor::db::{catalog, instance_list_outcome, is_supported_db, needs_fallback, product_api, read_instance_page, DbInstance, Stat};
use apm_monitor::json::{Json, JsonNumber};

fn sj(s: &str) -> Json {
    Json::Str(s.to_string())
}

fn nj(i: i64) -> Json {
    Json::Number(JsonNumber { int: Some(i), uint: if i >= 0 { Some(i as u64) } else { None }, text: i.to_string() })
}

fn oj(m: Vec<(&str, Json)>) -> Json {
    Json::Object(m.into_iter().map(|(k, v)| (k.to_string(), v)).collect())
}

fn member<'a>(j: &'a Json, key: &str) -> Option<&'a Json> {
    match j {
        Json::Object(m) => m.iter().find(|(k, _)| k == key).map(|(_, v)| v),
        _ => None,
    }
}

fn session() -> Config {
    Config { cookie: "uin=o11; ownerUin=O22G".into(), csrf_code: "33".into(), ..Config::with_defaults() }
}

#[test]
fn console_call_url_carries_the_session() {
    let req = prepare_console_call(&session(), "monitor", "2018-07-24", "GetMonitorData", oj(vec![]), 1700).unwrap();
    assert_eq!(
        req.url,
        "https://console-hc.cloud.tencent.com/_api/monitor/GetMonitorData?timeout=30000&t=1700&uin=11&ownerUin=22&csrfCode=33"
    );
    let data = member(&req.body, "data").unwrap();
    assert!(matches!(member(data, "Version"), Some(Json::Str(v)) if v == "2018-07-24"));
    assert!(matches!(member(data, "Language"), Some(Json::Str(v)) if v == "zh-CN"));
    assert!(matches!(member(&req.body, "cmd"), Some(Json::Str(v)) if v == "GetMonitorData"));
}

#[test]
fn console_call_refuses_an_incomplete_session() {
    let c = Config { cookie: "uin=o11".into(), csrf_code: "33".into(), ..Config::with_defaults() };
    let e = prepare_console_call(&c, "m", "v", "A", oj(vec![]), 1).err().unwrap();
    assert!(is_cred(&e));
    let c = Config { csrf_code: String::new(), ..session() };
    let e = prepare_console_call(&c, "m", "v", "A", oj(vec![]), 1).err().unwrap();
    assert!(e.ends_with("缺少 csrfCode：请重新登录"));
}

#[test]
fn given_version_is_kept() {
    let d = add_version(oj(vec![("Version", sj("old"))]), "new");
    assert!(matches!(member(&d, "Version"), Some(Json::Str(v)) if v == "old"));
    assert!(matches!(add_version(sj("x"), "v"), Json::Str(_)));
}

#[test]
fn api_errors_mark_login_problems() {
    assert_eq!(api_err("InvalidParameter", "bad"), "接口错误 InvalidParameter: bad");
    assert!(is_cred(&api_err("9", "x")));
    assert!(is_cred(&api_err("", "请重新登录")));
    assert!(api_err("", "x").starts_with("接口错误 Unknown"));
}

#[test]
fn normalize_reads_every_wrapping() {
    let v = oj(vec![("Response", oj(vec![("Items", Json::Array(vec![]))]))]);
    assert!(matches!(normalize(v, "", 200), Ok(Json::Object(_))));
    let v = oj(vec![("code", nj(0)), ("data", oj(vec![("Response", oj(vec![("Error", oj(vec![("Code", sj("9")), ("Message", sj("m"))]))]))]))]);
    assert!(is_cred(&normalize(v, "", 200).err().unwrap()));
    let v = oj(vec![("code", sj("200")), ("Data", oj(vec![("x", nj(1))]))]);
    assert!(matches!(normalize(v, "", 200), Ok(Json::Object(_))));
    let e = normalize(oj(vec![("code", nj(5))]), "{\"code\":5}", 502).err().unwrap();
    assert_eq!(e, "Cookie 接口返回异常 (HTTP 502): {\"code\":5}");
    assert_eq!(snippet(&"x".repeat(400)).len(), 300);
}

#[test]
fn channel_needs_a_cookie() {
    assert!(is_cred(&Channel::from_config(&Config::with_defaults()).err().unwrap()));
    let ch = Channel::from_config(&session()).unwrap();
    let req = ch.capi_request("monitor", "DescribeDashboardMetricData", oj(vec![]), 5).unwrap();
    assert_eq!(
        req.url,
        "https://console.cloud.tencent.com/cgi/capi?cmd=DescribeDashboardMetricData&action=delegate&serviceType=monitor&secure=1&version=3&dictId=2006&sts=1&t=5&uin=11&ownerUin=22&csrfCode=33"
    );
    assert!(!req.url.contains("json=1"));
}

#[test]
fn capi_csrf_comes_from_skey_when_present() {
    let c = Config { cookie: "uin=o11; ownerUin=O22G; skey=JDf9UdfZDWrSYaYlU5lYZGoE3PwBB96Es4spg6UJf2U_".into(), ..session() };
    let req = Channel::from_config(&c).unwrap().capi_request("s", "c", oj(vec![]), 1).unwrap();
    assert!(req.url.ends_with("&csrfCode=1732802354"));
}

#[test]
fn capi_answers_are_unwrapped_or_refused() {
    let v = oj(vec![("code", nj(0)), ("data", oj(vec![("Response", oj(vec![("Data", Json::Array(vec![]))]))]))]);
    assert!(matches!(capi_response(v), Ok(Json::Object(_))));
    let e = capi_response(oj(vec![("code", nj(1216)), ("msg", sj("不合法的云 API 类型"))])).err().unwrap();
    assert_eq!(e, "旧网关接口错误 code=1216: 不合法的云 API 类型（容器 CPU/内存利用率依赖该网关的短寿命令牌）");
    assert!(!is_cred(&e));
}

#[test]
fn builtin_metrics_end_with_the_computed_qps() {
    let d = builtin_metric_defs();
    assert_eq!(d.len(), 11);
    assert_eq!(d[0].name, "request_count");
    assert_eq!(d[10].view, "computed");
}

#[test]
fn metric_names_are_put_back_in_request_order() {
    let raw = vec![("service_request_count_sum".to_string(), 1u32), ("x".to_string(), 2u32)];
    let same = align_metric_names(raw.clone(), &["request_count".to_string(), "duration_avg".to_string()]);
    assert_eq!(same, vec![("request_count".to_string(), 1), ("duration_avg".to_string(), 2)]);
    let fewer = align_metric_names(raw, &["a".to_string()]);
    assert_eq!(fewer, vec![("request_count".to_string(), 1), ("x".to_string(), 2)]);
}

#[test]
fn catalogs_know_three_database_types() {
    assert!(is_supported_db("mysql") && is_supported_db("redis") && is_supported_db("mongodb"));
    assert!(!is_supported_db("postgres"));
    assert!(catalog("postgres").is_empty());
    let m = catalog("mongodb");
    assert_eq!(m[0].key, "cpu");
    assert!(matches!(m[0].stat, Stat::Max));
    assert_eq!(product_api("redis"), Some(("redis", "2018-04-12", "DescribeInstances", "InstanceSet")));
    assert_eq!(product_api("x"), None);
}

#[test]
fn instance_pages_skip_items_without_id() {
    let resp = oj(vec![(
        "Items",
        Json::Array(vec![
            oj(vec![("InstanceId", sj("a")), ("InstanceName", sj("A"))]),
            oj(vec![("InstanceName", sj("no id"))]),
            oj(vec![("InstanceId", sj("a")), ("InstanceName", sj("again"))]),
        ]),
    )]);
    let mut out: Vec<DbInstance> = Vec::new();
    assert_eq!(read_instance_page(&resp, "Items", true, &mut out), 3);
    assert_eq!(out.len(), 1);
    let mut out2: Vec<DbInstance> = Vec::new();
    read_instance_page(&resp, "Items", false, &mut out2);
    assert_eq!(out2.len(), 2);
}

#[test]
fn product_list_replaces_an_empty_or_failed_dbbrain_list() {
    let empty: Result<Vec<DbInstance>, String> = Ok(vec![]);
    assert!(needs_fallback(&empty));
    let got = instance_list_outcome(Err("dbbrain down".into()), Ok(vec![DbInstance { id: "a".into(), name: "".into() }]));
    assert_eq!(got.unwrap().len(), 1);
    let got = instance_list_outcome(Err("dbbrain down".into()), Ok(vec![]));
    assert_eq!(got.err().unwrap(), "dbbrain down");
}
