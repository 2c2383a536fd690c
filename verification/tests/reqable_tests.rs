use apm_monitor::json::{Json, JsonNumber};
use apm_monitor::reqable::{
    capture_ids, login_info_from_record, mcp_candidates, mcp_error_message, mcp_path, mcp_reply, no_login_in_capture,
    pick, scan_order, tool_text, McpReply,
};

fn t(s: &str) -> Json {
    Json::Str(s.to_string())
}

fn num(i: i64) -> Json {
    Json::Number(JsonNumber { int: Some(i), uint: if i >= 0 { Some(i as u64) } else { None }, text: i.to_string() })
}

fn ob(m: Vec<(&str, Json)>) -> Json {
    Json::Object(m.into_iter().map(|(k, v)| (k.to_string(), v)).collect())
}

#[test]
fn mcp_path_prefers_the_configured_one() {
    assert_eq!(mcp_path("D:\\x\\mcp.exe", &[true, true, true]), "D:\\x\\mcp.exe");
    assert_eq!(mcp_path("  ", &[false, true, true]), "C:\\Program Files (x86)\\Reqable\\mcp-server.exe");
    assert_eq!(mcp_path("", &[false, false, false]), "C:\\Program Files\\Reqable\\mcp-server.exe");
    assert_eq!(mcp_path("", &[]), "C:\\Program Files\\Reqable\\mcp-server.exe");
    assert_eq!(mcp_candidates().len(), 3);
}

#[test]
fn mcp_reply_matches_the_request_id() {
    assert!(matches!(mcp_reply(ob(vec![("method", t("notify"))]), 1), McpReply::Skip));
    assert!(matches!(mcp_reply(ob(vec![("id", num(2)), ("result", t("x"))]), 1), McpReply::Skip));
    assert!(matches!(mcp_reply(ob(vec![("id", num(1)), ("result", t("x"))]), 1), McpReply::Answer(Json::Str(s)) if s == "x"));
    assert!(matches!(mcp_reply(ob(vec![("id", num(1))]), 1), McpReply::Answer(Json::Null)));
    assert!(matches!(mcp_reply(ob(vec![("id", num(1)), ("error", t("bad"))]), 1), McpReply::Failed(_)));
    assert_eq!(mcp_error_message("{\"code\":1}"), "MCP 调用失败: {\"code\":1}");
}

#[test]
fn tool_text_joins_text_contents() {
    let res = ob(vec![(
        "content",
        Json::Array(vec![ob(vec![("text", t("[1,"))]), ob(vec![("image", t("x"))]), ob(vec![("text", t("2]"))])]),
    )]);
    assert_eq!(tool_text(&res), "[1,\n2]");
    assert_eq!(tool_text(&ob(vec![])), "");
}

#[test]
fn capture_ids_accept_numbers_and_objects() {
    let ids = Json::Array(vec![num(5), ob(vec![("id", num(9))]), t("x"), ob(vec![("name", t("y"))])]);
    assert_eq!(capture_ids(&ids).unwrap(), vec![5, 9]);
    assert!(capture_ids(&t("x")).err().unwrap().starts_with("Reqable 未返回抓包记录"));
    assert!(capture_ids(&Json::Array(vec![])).err().unwrap().starts_with("Reqable 抓包里没有找到控制台请求"));
}

#[test]
fn newest_forty_are_scanned_first() {
    let list: Vec<i64> = (1..=50).collect();
    let order = scan_order(&list);
    assert_eq!(order.len(), 40);
    assert_eq!(order[0], 50);
    assert_eq!(order[39], 11);
    assert_eq!(scan_order(&vec![1, 2]), vec![2, 1]);
}

#[test]
fn pick_reads_the_token_after_the_key() {
    assert_eq!(pick(&t("a?csrfCode=x-1_2&b"), "csrfCode="), Some("x-1_2".to_string()));
    assert_eq!(pick(&t("a?csrfCode=&b"), "csrfCode="), Some(String::new()));
    assert_eq!(pick(&t("a"), "csrfCode="), None);
    assert_eq!(pick(&num(1), "csrfCode="), None);
}

#[test]
fn console_record_gives_the_login() {
    let rec = ob(vec![
        ("url", t("https://console.cloud.tencent.com/cgi/capi?uin=123&ownerUin=456&csrfCode=789")),
        (
            "request",
            ob(vec![(
                "headers",
                Json::Array(vec![
                    ob(vec![("name", t("Cookie")), ("value", t(" a=1 "))]),
                    ob(vec![("name", t("accept")), ("value", t("x"))]),
                    ob(vec![("name", t("cookie")), ("value", t("b=2"))]),
                ]),
            )]),
        ),
    ]);
    let info = login_info_from_record(&rec).unwrap();
    assert_eq!(info.cookie, "a=1; b=2");
    assert_eq!(info.uin, "123");
    assert_eq!(info.owner_uin, "456");
    assert_eq!(info.csrf_code, "789");
    assert!(info.source.starts_with("https://console.cloud.tencent.com"));
}

#[test]
fn records_without_cookie_or_ids_are_skipped() {
    let no_cookie = ob(vec![("url", t("https://console.cloud.tencent.com/x?uin=1&csrfCode=2"))]);
    assert!(login_info_from_record(&no_cookie).is_none());
    let other_site = ob(vec![
        ("url", t("https://example.com/x?uin=1&csrfCode=2")),
        ("request", ob(vec![("headers", Json::Array(vec![ob(vec![("name", t("cookie")), ("value", t("a"))])]))])),
    ]);
    assert!(login_info_from_record(&other_site).is_none());
    let path_only = ob(vec![(
        "request",
        ob(vec![
            ("path", t("/cgi?x.tencent.com&uin=1&csrfCode=2")),
            ("headers", Json::Array(vec![ob(vec![("name", t("COOKIE")), ("value", t("a"))])])),
        ]),
    )]);
    assert_eq!(login_info_from_record(&path_only).unwrap().uin, "1");
    assert!(no_login_in_capture().starts_with("抓包里没能解析出"));
}
