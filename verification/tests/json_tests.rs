use apm_monitor::json::{json_text, Json, JsonNumber};
use apm_monitor::tc3::{prepare_api_call, Tc3Credential};

fn obj(m: Vec<(&str, Json)>) -> Json {
    Json::Object(m.into_iter().map(|(k, v)| (k.to_string(), v)).collect())
}

fn num(i: i64) -> Json {
    Json::Number(JsonNumber { int: Some(i), uint: if i >= 0 { Some(i as u64) } else { None }, text: i.to_string() })
}

#[test]
fn json_text_prints_members_in_order_without_spaces() {
    let v = obj(vec![
        ("b", num(-3)),
        ("a", Json::Array(vec![Json::Null, Json::Bool(true), Json::Str("x".into())])),
        ("c", obj(vec![])),
    ]);
    assert_eq!(json_text(&v), r#"{"b":-3,"a":[null,true,"x"],"c":{}}"#);
    assert_eq!(json_text(&Json::Array(vec![])), "[]");
}

#[test]
fn json_text_quotes_strings_as_serde_json_does() {
    for s in ["plain", "quote \" and \\ back", "tab\tnl\ncr\r", "\u{1}CRED\u{1}", "\u{8}\u{c}\u{1f}", "中文"] {
        assert_eq!(json_text(&Json::Str(s.to_string())), serde_json::to_string(s).unwrap());
    }
    assert_eq!(json_text(&Json::Str("\u{1}".into())), "\"\\u0001\"");
}

#[test]
fn api_call_signs_and_sends_the_payload_without_console_keys() {
    let cred = Tc3Credential { secret_id: "AKIDEXAMPLE".to_string(), secret_key: "SECRETEXAMPLE".to_string() };
    let p = obj(vec![("Limit", num(10)), ("Region", Json::Str("ap-guangzhou".into()))]);
    let req = prepare_api_call("ap-guangzhou", "cvm", "2017-03-12", "DescribeInstances", p, &cred);
    assert_eq!(req.body, r#"{"Limit":10}"#);
}
