use apm_monitor::json::{Json, JsonNumber};
use apm_monitor::login::{
    b64, bkn, build_cookie, capi_request_meta, cookie_has, cookie_has_uin, cookie_is_complete,
    describe_cookie, extract, extract_id, is_login_url,
};

fn text(x: &str) -> Json {
    Json::Str(x.to_string())
}

fn object(m: Vec<(&str, Json)>) -> Json {
    Json::Object(m.into_iter().map(|(k, v)| (k.to_string(), v)).collect())
}

fn cookie_item(domain: &str, name: &str, value: &str) -> Json {
    object(vec![("domain", text(domain)), ("name", text(name)), ("value", text(value))])
}

fn cookies(list: Vec<Json>) -> Json {
    object(vec![("result", object(vec![("cookies", Json::Array(list))]))])
}

fn request_event(url: &str, headers: Vec<(&str, Json)>) -> Json {
    object(vec![(
        "params",
        object(vec![("request", object(vec![("url", text(url)), ("headers", object(headers))]))]),
    )])
}

#[test]
fn build_cookie_skips_empty_and_prefers_console_domain() {
    let c = build_cookie(&cookies(vec![
        cookie_item(".tencent.com", "uin", ""),
        cookie_item(".cloud.tencent.com", "uin", "o765378326"),
        cookie_item(".tencent.com", "ownerUin", "O100G"),
        cookie_item(".example.com", "nope", "x"),
    ]));
    assert!(c.contains("uin=o765378326"), "{}", c);
    assert!(c.contains("ownerUin=O100G"), "{}", c);
    assert!(!c.contains("nope"), "非 tencent.com 域不该进 Cookie 头");
    assert!(!c.contains("uin=;"), "空值不该出现");
}

#[test]
fn build_cookie_prefers_console_domain_regardless_of_order() {
    let c = build_cookie(&cookies(vec![
        cookie_item(".cloud.tencent.com", "uin", "real"),
        cookie_item(".tencent.com", "uin", "weaker"),
    ]));
    assert!(c.contains("uin=real"), "{}", c);
    assert!(!c.contains("weaker"), "{}", c);
}

#[test]
fn cookie_has_requires_non_empty_value() {
    assert!(!cookie_has("uin=", "uin"), "空值不算有");
    assert!(!cookie_has("uin=; x=1", "uin"));
    assert!(cookie_has("uin=o1; x=1", "uin"));
    assert!(!cookie_has("ownerUin=O1G", "uin"));
    assert!(cookie_has("ownerUin=O1G", "owneruin"), "键名匹配应大小写不敏感");
}

#[test]
fn cookie_is_complete_needs_uin_plus_owner_or_refresh() {
    assert!(!cookie_is_complete("ownerUin=O1G"), "只有 ownerUin 是半套");
    assert!(!cookie_is_complete("uin=o1"), "只有 uin 是半套");
    assert!(cookie_is_complete("uin=o1; ownerUin=O1G"));
    assert!(cookie_is_complete("uin=o1; refreshSession=r"));
}

#[test]
fn describe_cookie_never_leaks_values() {
    let d = describe_cookie("uin=o765378326; ownerUin=O100012781415G; saas_synced_session=SECRETVAL");
    assert!(d.starts_with("段数 3"), "{}", d);
    assert!(!d.contains("765378326"), "不能泄露值：{}", d);
    assert!(!d.contains("100012781415"), "不能泄露值：{}", d);
    assert!(!d.contains("SECRETVAL"), "不能泄露值：{}", d);
}

#[test]
fn extract_id_treats_zero_as_missing() {
    assert_eq!(extract_id("?ownerUin=0&x=1", "ownerUin="), "");
    assert_eq!(extract_id("?uin=o123&x=1", "uin="), "o123");
}

#[test]
fn extract_stops_at_delimiter() {
    assert_eq!(extract("a&csrfCode=abc-1_2&b", "csrfCode=").as_deref(), Some("abc-1_2"));
    assert_eq!(extract("csrfCode=&b", "csrfCode="), None);
    assert_eq!(extract("no-such-key", "csrfCode="), None);
}

#[test]
fn capi_request_meta_reads_x_headers_case_insensitively() {
    let v = request_event(
        "https://console.cloud.tencent.com/cgi/capi?cmd=DescribeDashboardMetricData&action=delegate&serviceType=monitor&secure=1&version=3&dictId=2006&sts=1&t=1790127636620&uin=765378326&ownerUin=100012781415&csrfCode=1732802354",
        vec![("X-Lid", text("sJxn-Y7DfV")), ("X-life", text("49560944"))],
    );
    let (lid, epoch) = capi_request_meta(&v);
    assert_eq!(lid, "sJxn-Y7DfV");
    assert_eq!(epoch, 1790127636620 - 49560944, "life_epoch = t_ms - x_life");
}

#[test]
fn capi_request_meta_missing_headers_is_graceful() {
    let v = request_event(
        "https://console.cloud.tencent.com/cgi/capi?t=1790127636620&csrfCode=1",
        vec![("content-type", text("application/json"))],
    );
    let (lid, epoch) = capi_request_meta(&v);
    assert_eq!(lid, "");
    assert_eq!(epoch, 0, "缺 x-life 时 life_epoch 应为 0（发请求时跳过 x-life 头）");
}

#[test]
fn capi_request_meta_ignores_non_capi_urls() {
    let v = request_event(
        "https://console-hc.cloud.tencent.com/_api/monitor/GetMonitorData?t=99&uin=1",
        vec![("x-lid", text("abc")), ("x-life", text("123"))],
    );
    let (lid, epoch) = capi_request_meta(&v);
    assert_eq!(lid, "abc");
    assert_eq!(epoch, 0, "x-life 在，但 URL 里没有 t= 可供对齐，无法算 epoch");
}

#[test]
fn bkn_matches_capture_csrf() {
    let skey_from_capture = "JDf9UdfZDWrSYaYlU5lYZGoE3PwBB96Es4spg6UJf2U_";
    assert_eq!(bkn(skey_from_capture), 1732802354);
    assert_eq!(bkn(skey_from_capture), bkn(skey_from_capture));
    let _ = bkn("");
}

#[test]
fn bkn_of_empty_is_the_seed() {
    assert_eq!(bkn(""), 5381);
}

#[test]
fn b64_pads_like_the_standard_alphabet() {
    assert_eq!(b64(b""), "");
    assert_eq!(b64(b"f"), "Zg==");
    assert_eq!(b64(b"fo"), "Zm8=");
    assert_eq!(b64(b"foo"), "Zm9v");
    assert_eq!(b64(b"foobar"), "Zm9vYmFy");
    assert_eq!(b64(&[0xff, 0xfe]), "//4=");
}

#[test]
fn login_pages_are_recognised_but_workload_pages_are_not() {
    assert!(is_login_url("https://cloud.tencent.com/login?s=1"));
    assert!(is_login_url("https://AUTH.example.com/x"));
    assert!(!is_login_url("https://console.cloud.tencent.com/tke2/login/x"));
    assert!(!is_login_url("https://console.cloud.tencent.com/monitor"));
}

#[test]
fn cookie_has_uin_reads_only_the_uin_key() {
    assert!(cookie_has_uin("a=1; uin=o5"));
    assert!(!cookie_has_uin("ownerUin=O5G"));
}

#[test]
fn number_values_are_not_header_text() {
    let v = request_event(
        "https://console.cloud.tencent.com/cgi/capi?t=1000",
        vec![(
            "x-life",
            Json::Number(JsonNumber { int: Some(10), uint: Some(10), text: "10".to_string() }),
        )],
    );
    let (_, epoch) = capi_request_meta(&v);
    assert_eq!(epoch, 0);
}

#[test]
fn bkn_of_one_char_is_one_step_of_the_hash() {
    assert_eq!(bkn("a"), 177670);
    // a long key wraps at 2^32 and keeps the low 31 bits
    let h = "abcdefghijklmnop".chars().fold(5381u128, |h, c| 33 * h + c as u128);
    assert_eq!(bkn("abcdefghijklmnop") as u128, h % 0x8000_0000);
}
