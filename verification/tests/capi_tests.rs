use apm_monitor::capi::use_page_fallback;
use apm_monitor::capi::{
    build_fetch_js, capi_fetch_body, dashboard_non_json, dashboard_response, dashboard_url, eval_result,
    eval_start, eval_step, fetch_label, is_fetch_label,
};
use apm_monitor::config::Config;
use apm_monitor::json::{Json, JsonNumber};
use serde_json::Value;

fn json_value(j: &Json) -> Value {
    match j {
        Json::Null => Value::Null,
        Json::Bool(b) => Value::Bool(*b),
        Json::Number(n) => match (n.int, n.uint) {
            (Some(i), _) => Value::from(i),
            (None, Some(u)) => Value::from(u),
            _ => serde_json::from_str(&n.text).unwrap_or(Value::Null),
        },
        Json::Str(s) => Value::String(s.clone()),
        Json::Array(a) => Value::Array(a.iter().map(json_value).collect()),
        Json::Object(m) => {
            let mut o = serde_json::Map::new();
            for (k, v) in m {
                o.insert(k.clone(), json_value(v));
            }
            Value::Object(o)
        }
    }
}

fn str_json(s: &str) -> Json {
    Json::Str(s.to_string())
}

fn int_json(i: i64) -> Json {
    Json::Number(JsonNumber { int: Some(i), uint: if i >= 0 { Some(i as u64) } else { None }, text: i.to_string() })
}

fn obj_json(m: Vec<(&str, Json)>) -> Json {
    Json::Object(m.into_iter().map(|(k, v)| (k.to_string(), v)).collect())
}

fn body_text(service: &str, cmd: &str, data: Json, region_id: i64) -> String {
    json_value(&capi_fetch_body(cmd, service, data, region_id)).to_string()
}

#[test]
fn fetch_js_embeds_captured_credentials_and_payload() {
    let data = obj_json(vec![(
        "Query",
        Json::Array(vec![obj_json(vec![("MetricName", str_json("K8sPodRateCpuCoreUsedLimit"))])]),
    )]);
    let body = body_text("monitor", "DescribeDashboardMetricData", data, 4);
    let js = build_fetch_js(
        "765378326",
        "100012781415",
        "monitor",
        "DescribeDashboardMetricData",
        &body,
        "1286230423",
        "sJxn-Y7DfV",
        1790078075676,
    );
    assert!(js.contains("csrfCode=1286230423"), "{}", js);
    assert!(js.contains("\"x-lid\": \"sJxn-Y7DfV\""), "{}", js);
    assert!(js.contains("\"x-life\": String(Date.now() - 1790078075676)"), "{}", js);
    assert!(js.contains("/cgi/capi"));
    assert!(!js.contains("getEntriesByType"), "{}", js);
    assert!(js.contains("NO_FETCH"));
    assert!(js.contains("uin=765378326"));
    assert!(js.contains("ownerUin=100012781415"));
    assert!(js.contains("K8sPodRateCpuCoreUsedLimit"));
    assert!(js.contains("regionId"));
    assert!(!js.contains("json=1"), "{}", js);
    assert!(js.contains("credentials: \"include\""));
    assert!(js.contains("body: JSON.stringify("), "{}", js);
    assert!(js.contains("\"cmd\":\"DescribeDashboardMetricData\""), "{}", js);
    assert!(!js.contains("mime"), "{}", js);
    assert!(!js.contains("encoding"), "{}", js);
}

#[test]
fn fetch_js_omits_x_headers_when_not_captured() {
    let body = body_text("monitor", "DescribeDashboardMetricData", obj_json(vec![]), 4);
    let js = build_fetch_js("u", "o", "monitor", "DescribeDashboardMetricData", &body, "csrf", "", 0);
    assert!(!js.contains("x-lid"), "{}", js);
    assert!(!js.contains("x-life"), "{}", js);
    assert!(js.contains("csrfCode=csrf"), "{}", js);
}

#[test]
fn fetch_js_keeps_x_lid_without_life_epoch() {
    let js = build_fetch_js("u", "o", "monitor", "Cmd", "{}", "c", "  lid-1  ", 0);
    assert!(js.contains(", \"x-lid\": \"lid-1\" }"), "{}", js);
    assert!(!js.contains("x-life"), "{}", js);
}

#[test]
fn fetch_js_quotes_the_lid_as_json() {
    let js = build_fetch_js("u", "o", "s", "c", "{}", "t", "a\"b", 5);
    assert!(js.contains("\"x-lid\": \"a\\\"b\""), "{}", js);
    assert!(js.contains("String(Date.now() - 5)"), "{}", js);
}

#[test]
fn fetch_body_holds_the_four_members() {
    let v: Value = serde_json::from_str(&body_text("monitor", "Cmd", obj_json(vec![("k", int_json(1))]), 4)).unwrap();
    assert_eq!(v["cmd"], "Cmd");
    assert_eq!(v["serviceType"], "monitor");
    assert_eq!(v["regionId"], 4);
    assert_eq!(v["data"]["k"], 1);
}

#[test]
fn dashboard_url_needs_a_cluster() {
    let c = Config::with_defaults();
    match dashboard_url(&c) {
        Err(e) => assert_eq!(e, "未选择集群，无法打开取数页面"),
        Ok(u) => panic!("{}", u),
    }
    let c = Config {
        container_cluster: "cls-1".into(),
        container_namespace: "ns".into(),
        selected_deployments: vec!["web".into(), "api".into()],
        ..Config::with_defaults()
    };
    assert_eq!(
        dashboard_url(&c).unwrap(),
        "https://console.cloud.tencent.com/tke2/cluster/sub/detail/resource/deployment?rid=4&clusterId=cls-1&resourceIns=web&np=ns"
    );
}

#[test]
fn fetch_labels_share_their_prefix() {
    assert_eq!(fetch_label(42), "cloud-capi-fetch-42");
    assert!(is_fetch_label("cloud-capi-fetch-1"));
    assert!(!is_fetch_label("cloud-login-1"));
}

#[test]
fn retries_stop_at_the_first_answer() {
    let mut s = eval_start();
    assert!(!eval_step(&mut s, Ok("NO_FETCH".to_string())));
    assert_eq!(s.last, "页面里 fetch 不可用");
    assert!(!eval_step(&mut s, Err("boom".to_string())));
    assert_eq!(s.last, "boom");
    assert!(eval_step(&mut s, Ok("{\"code\":0}".to_string())));
    assert_eq!(eval_result(s).unwrap(), "{\"code\":0}");
    let mut s = eval_start();
    eval_step(&mut s, Err("x".to_string()));
    assert_eq!(eval_result(s).unwrap_err(), "退路取数失败：x");
}

#[test]
fn dashboard_answer_reads_nested_data() {
    let inner = obj_json(vec![("Response", obj_json(vec![("Data", Json::Array(vec![int_json(7)]))]))]);
    let v = obj_json(vec![("code", int_json(0)), ("data", obj_json(vec![("data", inner)]))]);
    match dashboard_response(v, "") {
        Ok(Json::Array(a)) => assert_eq!(a.len(), 1),
        _ => panic!("data expected"),
    }
    let v = obj_json(vec![("code", int_json(0)), ("data", obj_json(vec![("Data", Json::Array(vec![]))]))]);
    assert!(matches!(dashboard_response(v, ""), Ok(Json::Array(_))));
}

#[test]
fn dashboard_error_quotes_the_raw_answer_without_message() {
    let v = obj_json(vec![("code", int_json(1216))]);
    let e = dashboard_response(v, "{\"code\":1216}").err().unwrap();
    assert_eq!(e, "旧网关接口错误 code=1216: （在页面里发也一样，说明不是「谁发」的问题） 原始响应: {\"code\":1216}");
    let v = obj_json(vec![("msg", str_json("bad"))]);
    let e = dashboard_response(v, "x").err().unwrap();
    assert_eq!(e, "旧网关接口错误 code=-1: bad（在页面里发也一样，说明不是「谁发」的问题）");
}

#[test]
fn non_json_dashboard_answer_is_cut_at_200_chars() {
    let long: String = "字".repeat(250);
    let e = dashboard_non_json(&long);
    assert_eq!(e.chars().count(), "退路取数响应非 JSON: ".chars().count() + 200);
}

#[test]
fn page_fallback_only_for_a_refused_gateway_call_with_a_window() {
    let stale = "旧网关接口错误 code=1216: 不合法的云 API 类型";
    assert!(use_page_fallback(stale, true));
    assert!(!use_page_fallback(stale, false));
    assert!(!use_page_fallback("请求失败: reset", true));
    assert!(!use_page_fallback("\u{1}CRED\u{1}缺少 csrfCode", true));
}
