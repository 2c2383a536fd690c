use apm_monitor::json::{Json, JsonNumber};
use apm_monitor::tc3::{
    console_only_key, hmac_sha256_hex, non_json_error, prepare_tc3_call, sha256_hex, tc3_payload, tc3_request,
    tc3_response, truncate, Tc3Credential,
};

fn s_json(s: &str) -> Json {
    Json::Str(s.to_string())
}

fn o_json(m: Vec<(&str, Json)>) -> Json {
    Json::Object(m.into_iter().map(|(k, v)| (k.to_string(), v)).collect())
}

fn keys_of(j: &Json) -> Vec<String> {
    match j {
        Json::Object(m) => m.iter().map(|(k, _)| k.clone()).collect(),
        _ => Vec::new(),
    }
}

fn credential() -> Tc3Credential {
    Tc3Credential { secret_id: "AKIDEXAMPLE".to_string(), secret_key: "SECRETEXAMPLE".to_string() }
}

#[test]
fn sha256_hex_matches_known_digests() {
    assert_eq!(sha256_hex(b"abc"), "ba7816bf8f01cfea414140de5dae2223b00361a396177a9cb410ff61f20015ad");
    assert_eq!(sha256_hex(b""), "e3b0c44298fc1c149afbf4c8996fb92427ae41e4649b934ca495991b7852b855");
}

#[test]
fn hmac_matches_the_rfc_vector() {
    assert_eq!(
        hmac_sha256_hex(b"Jefe", b"what do ya want for nothing?"),
        "5bdcc146bf60754e6a042426089575c75a003f089d2739839dec58b964ec3843"
    );
}

#[test]
fn request_is_signed_with_the_derived_key() {
    let r = tc3_request("ap-guangzhou", "cvm", "2017-03-12", "DescribeInstances", "{\"Limit\":1}", &credential(), 1551113065, "2019-02-25");
    assert_eq!(r.url, "https://cvm.tencentcloudapi.com");
    assert_eq!(r.body, "{\"Limit\":1}");
    let h: Vec<(&str, &str)> = r.headers.iter().map(|(a, b)| (a.as_str(), b.as_str())).collect();
    assert_eq!(h[0], ("X-TC-Action", "DescribeInstances"));
    assert_eq!(h[1], ("X-TC-Version", "2017-03-12"));
    assert_eq!(h[2], ("X-TC-Region", "ap-guangzhou"));
    assert_eq!(h[3], ("X-TC-Timestamp", "1551113065"));
    assert_eq!(
        h[4],
        (
            "Authorization",
            "TC3-HMAC-SHA256 Credential=AKIDEXAMPLE/2019-02-25/cvm/tc3_request, SignedHeaders=content-type;host;x-tc-action, Signature=bfccaa6f2c613cb23a89cd7af659c8537218a093b351fb75cc433f3143579aee"
        )
    );
    assert_eq!(h[5], ("Content-Type", "application/json; charset=utf-8"));
    assert_eq!(h.len(), 6);
}

#[test]
fn request_signed_now_has_the_same_shape() {
    let r = prepare_tc3_call("ap-guangzhou", "cvm", "2017-03-12", "DescribeInstances", "{}", &credential());
    assert_eq!(r.url, "https://cvm.tencentcloudapi.com");
    assert_eq!(r.headers.len(), 6);
    assert!(r.headers[4].1.starts_with("TC3-HMAC-SHA256 Credential=AKIDEXAMPLE/"));
    assert!(r.headers[3].1.parse::<i64>().unwrap() > 1_600_000_000);
}

#[test]
fn payload_loses_console_only_members() {
    let p = o_json(vec![
        ("Version", s_json("2021")),
        ("Limit", Json::Number(JsonNumber { int: Some(1), uint: Some(1), text: "1".into() })),
        ("Language", s_json("zh-CN")),
        ("Region", s_json("ap-shanghai")),
        ("regionId", s_json("4")),
        ("SpaceUUID", s_json("x")),
        ("Module", s_json("m")),
        ("Filters", Json::Array(vec![])),
    ]);
    assert_eq!(keys_of(&tc3_payload(p)), vec!["Limit".to_string(), "Filters".to_string()]);
    assert!(matches!(tc3_payload(s_json("x")), Json::Str(_)));
    assert!(console_only_key("SpaceUUID"));
    assert!(!console_only_key("version"));
}

#[test]
fn api_error_is_reported_with_code_and_message() {
    let v = o_json(vec![(
        "Response",
        o_json(vec![("Error", o_json(vec![("Code", s_json("AuthFailure")), ("Message", s_json("bad sig"))]))]),
    )]);
    assert_eq!(tc3_response(v).err().unwrap(), "腾讯云 API 错误 AuthFailure: bad sig");
    let v = o_json(vec![("Response", o_json(vec![("Error", o_json(vec![]))]))]);
    assert_eq!(tc3_response(v).err().unwrap(), "腾讯云 API 错误 Unknown: ");
}

#[test]
fn api_answer_is_the_response_node() {
    let v = o_json(vec![("Response", o_json(vec![("RequestId", s_json("r1"))]))]);
    match tc3_response(v) {
        Ok(r) => assert_eq!(keys_of(&r), vec!["RequestId".to_string()]),
        Err(e) => panic!("{}", e),
    }
    assert!(matches!(tc3_response(o_json(vec![])), Ok(Json::Null)));
}

#[test]
fn truncate_cuts_bytes_and_marks_the_cut() {
    assert_eq!(truncate("abcdef", 3), "abc...");
    assert_eq!(truncate("abc", 3), "abc");
    assert_eq!(truncate("中文字", 6), "中文...");
}

#[test]
fn non_json_error_quotes_status_and_text() {
    assert_eq!(non_json_error("502 Bad Gateway", "<html>"), "响应非 JSON (HTTP 502 Bad Gateway): <html>");
    let long = "x".repeat(301);
    let e = non_json_error("500", &long);
    assert!(e.ends_with(&format!("{}...", "x".repeat(300))));
}

#[test]
fn request_signed_now_uses_the_utc_date_of_its_timestamp() {
    let r = prepare_tc3_call("ap-guangzhou", "cvm", "2017-03-12", "DescribeInstances", "{}", &credential());
    let ts = r.headers[3].1.parse::<i64>().unwrap();
    let date = chrono::DateTime::from_timestamp(ts, 0).unwrap().format("%Y-%m-%d").to_string();
    let expected = format!("TC3-HMAC-SHA256 Credential=AKIDEXAMPLE/{}/cvm/tc3_request,", date);
    assert!(r.headers[4].1.starts_with(&expected), "{}", r.headers[4].1);
}
