use apm_monitor::cdp::{
    bridge_request, bridge_targets, channel_error, check_page_address, curl_args, curl_output, login_command_parts,
    owner_uin_from_cookie, page_eval_reply, pick_target, retry_token_read, string_reply, trim_end_matches,
    trim_start_matches, uin_from_cookie, BridgeRequest, LoginCommand, LoginStep, LoginWatch, PageEval, TokenScan,
};
use apm_monitor::cred::is_cred;
use apm_monitor::json::{Json, JsonNumber};

fn js(s: &str) -> Json {
    Json::Str(s.to_string())
}

fn jn(i: i64) -> Json {
    Json::Number(JsonNumber { int: Some(i), uint: if i >= 0 { Some(i as u64) } else { None }, text: i.to_string() })
}

fn jo(m: Vec<(&str, Json)>) -> Json {
    Json::Object(m.into_iter().map(|(k, v)| (k.to_string(), v)).collect())
}

fn request_will_be_sent(url: &str) -> Json {
    jo(vec![
        ("method", js("Network.requestWillBeSent")),
        ("params", jo(vec![("request", jo(vec![("url", js(url)), ("headers", jo(vec![]))]))])),
    ])
}

fn cookie_reply(id: i64, pairs: &[(&str, &str)]) -> Json {
    let list = pairs
        .iter()
        .map(|(n, v)| jo(vec![("domain", js(".cloud.tencent.com")), ("name", js(n)), ("value", js(v))]))
        .collect();
    jo(vec![("id", jn(id)), ("result", jo(vec![("cookies", Json::Array(list))]))])
}

fn ids_of(step: &LoginStep) -> Vec<(u8, u64)> {
    match step {
        LoginStep::Wait(cmds) => cmds
            .iter()
            .map(|c| match c {
                LoginCommand::NetworkEnable(i) => (0, *i),
                LoginCommand::GetAllCookies(i) => (1, *i),
                LoginCommand::ProbeQuickLogin(i) => (2, *i),
                LoginCommand::ClickQuickLogin(i) => (3, *i),
                LoginCommand::MousePressed(i, _, _) => (4, *i),
                LoginCommand::MouseReleased(i, _, _) => (5, *i),
            })
            .collect(),
        _ => panic!("wait expected"),
    }
}

#[test]
fn login_watch_waits_for_a_stable_complete_cookie() {
    let mut w = LoginWatch::new(0, 60_000, true);
    assert!(ids_of(&w.tick(1000)).is_empty());
    assert_eq!(ids_of(&w.tick(2000)), vec![(1, 2), (2, 3)]);
    let s = w.on_message(
        &request_will_be_sent("https://console.cloud.tencent.com/_api/x?uin=o1&ownerUin=0&csrfCode=abc"),
        2050,
        None,
    );
    assert!(ids_of(&s).is_empty());
    assert_eq!(w.uin, "o1");
    assert_eq!(w.owner_uin, "");
    assert_eq!(w.csrf_code, "abc");
    let s = w.on_message(&cookie_reply(2, &[("uin", "o1"), ("ownerUin", "O2G")]), 2100, None);
    assert!(ids_of(&s).is_empty());
    assert_eq!(w.cookie, "uin=o1; ownerUin=O2G");
    assert_eq!(w.stable_since, Some(2100));
    assert_eq!(ids_of(&w.tick(4000)), vec![(1, 4), (1, 5), (2, 6)]);
    match w.on_message(&cookie_reply(5, &[("uin", "o1"), ("ownerUin", "O2G"), ("skey", "k")]), 4100, None) {
        LoginStep::Done(r) => {
            assert_eq!(r.cookie, "uin=o1; ownerUin=O2G; skey=k");
            assert_eq!(r.uin, "o1");
            assert_eq!(r.owner_uin, "2");
            assert_eq!(r.csrf_code, "abc");
            assert!(!r.auto_quick_clicked);
        }
        _ => panic!("done expected"),
    }
}

#[test]
fn login_watch_refuses_a_half_written_session() {
    let mut w = LoginWatch::new(0, 60_000, false);
    w.final_req = Some(9);
    w.cookie = "uin=o1".into();
    match w.on_message(&cookie_reply(9, &[]), 10, None) {
        LoginStep::Failed(e) => assert_eq!(e, "控制台会话没有建立完整（Cookie 缺 ownerUin），本次不覆盖已有会话，请重新登录"),
        _ => panic!("failure expected"),
    }
}

#[test]
fn login_watch_times_out_with_a_reason() {
    let mut w = LoginWatch::new(0, 1000, false);
    match w.tick(1001) {
        LoginStep::Failed(e) => assert!(e.contains("Cookie 里没有 uin"), "{}", e),
        _ => panic!("timeout expected"),
    }
    w.cookie = "uin=o1".into();
    match w.tick(5000) {
        LoginStep::Failed(e) => assert_eq!(e, "等待登录超时：请在登录窗口中完成扫码登录"),
        _ => panic!("timeout expected"),
    }
}

#[test]
fn quick_login_is_clicked_once_then_by_mouse() {
    let mut w = LoginWatch::new(0, 600_000, true);
    assert_eq!(ids_of(&w.tick(2000)), vec![(1, 2), (2, 3)]);
    let reply = jo(vec![
        ("id", jn(3)),
        ("result", jo(vec![("result", jo(vec![("value", js("{\"status\":\"found\",\"x\":10.4,\"y\":20.6}"))]))])),
    ]);
    assert_eq!(ids_of(&w.on_message(&reply, 2100, Some((10, 21)))), vec![(3, 4)]);
    assert!(w.quick_native_done);
    assert_eq!(w.quick_coords, Some((10, 21)));
    let step = w.tick(7200);
    let kinds: Vec<u8> = ids_of(&step).iter().map(|p| p.0).collect();
    assert!(kinds.contains(&4) && kinds.contains(&5), "{:?}", kinds);
    assert!(w.quick_mouse_done);
}

#[test]
fn login_commands_carry_their_methods() {
    let (id, method, _) = login_command_parts(&LoginCommand::GetAllCookies(7));
    assert_eq!((id, method.as_str()), (7, "Network.getAllCookies"));
    let (_, method, params) = login_command_parts(&LoginCommand::ProbeQuickLogin(8));
    assert_eq!(method, "Runtime.evaluate");
    match params {
        Json::Object(m) => assert!(m.iter().any(|(k, v)| k == "expression" && matches!(v, Json::Str(s) if s.contains("快捷登录")))),
        _ => panic!("object expected"),
    }
}

#[test]
fn cookie_ids_lose_console_affixes() {
    assert_eq!(uin_from_cookie("a=1; uin=oo123; ownerUin=OO45GG"), "123");
    assert_eq!(owner_uin_from_cookie("a=1; uin=oo123; ownerUin=OO45GG"), "45");
    assert_eq!(uin_from_cookie("a=1"), "");
    let v: Vec<char> = "xxabx".chars().collect();
    assert_eq!(trim_start_matches(&v, 'x').into_iter().collect::<String>(), "abx");
    assert_eq!(trim_end_matches(&v, 'x').into_iter().collect::<String>(), "xxab");
}

#[test]
fn token_scan_collects_csrf_lid_and_epoch() {
    let mut t = TokenScan::new();
    assert!(!t.on_message(&request_will_be_sent("https://console.cloud.tencent.com/_api/x?csrfCode=1")));
    let ev = jo(vec![
        ("method", js("Network.requestWillBeSent")),
        (
            "params",
            jo(vec![(
                "request",
                jo(vec![
                    ("url", js("https://console.cloud.tencent.com/cgi/capi?t=1000&csrfCode=77")),
                    ("headers", jo(vec![("x-lid", js("L")), ("x-life", js("400"))])),
                ]),
            )]),
        ),
    ]);
    assert!(t.on_message(&ev));
    let tok = t.finish().unwrap();
    assert_eq!((tok.csrf.as_str(), tok.x_lid.as_str(), tok.life_epoch_ms), ("77", "L", 600));
}

#[test]
fn token_scan_without_capi_request_fails() {
    let mut t = TokenScan::new();
    for _ in 0..5 {
        assert!(t.on_idle().is_some());
    }
    assert!(t.on_idle().is_none());
    assert!(t.finish().err().unwrap().starts_with("没能从控制台页面取到旧网关令牌"));
}

#[test]
fn login_page_address_is_a_credential_error() {
    let e = check_page_address("https://cloud.tencent.com/login?s=1").err().unwrap();
    assert!(is_cred(&e));
    assert!(e.contains("https://cloud.tencent.com/login?s=1"));
    assert!(check_page_address("https://console.cloud.tencent.com/tke2/x").is_ok());
}

#[test]
fn channel_errors_are_retried_once() {
    let e = channel_error("reset");
    assert_eq!(e, "调试通道错误: reset");
    assert!(retry_token_read(&e));
    assert!(!retry_token_read("预热窗口已关闭"));
}

#[test]
fn string_reply_reads_only_its_own_answer() {
    let v = jo(vec![("id", jn(4)), ("result", jo(vec![("result", jo(vec![("value", js("https://x"))]))]))]);
    assert_eq!(string_reply(&v, 4), Some(Some("https://x".to_string())));
    assert_eq!(string_reply(&v, 5), None);
}

#[test]
fn first_console_page_target_is_picked() {
    let list = vec![
        jo(vec![("type", js("page")), ("url", js("https://example.com")), ("webSocketDebuggerUrl", js("ws://a"))]),
        jo(vec![("type", js("iframe")), ("url", js("https://tencent.com/x")), ("webSocketDebuggerUrl", js("ws://b"))]),
        jo(vec![("type", js("page")), ("url", js("https://console.cloud.tencent.com")), ("webSocketDebuggerUrl", js("ws://c"))]),
    ];
    assert_eq!(pick_target(&list), Some("ws://c".to_string()));
    let mut first_two = list;
    first_two.pop();
    assert_eq!(pick_target(&first_two), None);
}

#[test]
fn weixin_frames_are_bridged_once() {
    let list = vec![
        jo(vec![("url", js("https://open.weixin.qq.com/a")), ("webSocketDebuggerUrl", js("ws://1"))]),
        jo(vec![("url", js("https://open.weixin.qq.com/b")), ("webSocketDebuggerUrl", js("ws://2"))]),
        jo(vec![("url", js("https://open.weixin.qq.com/c")), ("webSocketDebuggerUrl", js("ws://2"))]),
        jo(vec![("url", js("https://other")), ("webSocketDebuggerUrl", js("ws://3"))]),
    ];
    assert_eq!(bridge_targets(&list, &vec!["ws://1".to_string()]), vec!["ws://2".to_string()]);
}

#[test]
fn paused_requests_are_sorted_by_kind() {
    let paused = |method: &str, url: &str| {
        jo(vec![
            ("method", js("Fetch.requestPaused")),
            (
                "params",
                jo(vec![
                    ("requestId", js("r1")),
                    ("request", jo(vec![("method", js(method)), ("url", js(url)), ("postData", js("{}"))])),
                ]),
            ),
        ])
    };
    assert!(matches!(bridge_request(&paused("options", "https://localhost.weixin.qq.com/api/x")), BridgeRequest::Preflight(id) if id == "r1"));
    match bridge_request(&paused("POST", "https://localhost.weixin.qq.com/api/x")) {
        BridgeRequest::Exchange { request_id, method, url, post } => {
            assert_eq!((request_id.as_str(), method.as_str(), post.as_str()), ("r1", "POST", "{}"));
            assert!(url.ends_with("/api/x"));
        }
        _ => panic!("exchange expected"),
    }
    assert!(matches!(bridge_request(&paused("GET", "https://localhost.weixin.qq.com/x")), BridgeRequest::Pass(_)));
    assert!(matches!(bridge_request(&jo(vec![("method", js("Other"))])), BridgeRequest::Ignore));
}

#[test]
fn curl_output_splits_status_from_body() {
    assert_eq!(curl_output("{\"a\":1}\n201"), (201, "{\"a\":1}".to_string()));
    assert_eq!(curl_output("line1\nline2\n abc "), (200, "line1\nline2".to_string()));
    assert_eq!(curl_output("no newline"), (200, "no newline".to_string()));
    let args = curl_args("POST", "https://localhost.weixin.qq.com/api/x");
    assert_eq!(args.len(), 17);
    assert_eq!(args[7], "POST");
    assert_eq!(args[14], "\n%{http_code}");
}

#[test]
fn page_evaluation_reports_exceptions_and_values() {
    let v = jo(vec![("id", jn(2)), ("result", jo(vec![("exceptionDetails", jo(vec![("text", js("boom"))]))]))]);
    assert!(matches!(page_eval_reply(v, 2), PageEval::Exception(_)));
    let v = jo(vec![("id", jn(2)), ("result", jo(vec![("result", jo(vec![("value", js("ok"))]))]))]);
    assert!(matches!(page_eval_reply(v, 2), PageEval::Value(Json::Str(s)) if s == "ok"));
    let v = jo(vec![("id", jn(3))]);
    assert!(matches!(page_eval_reply(v, 2), PageEval::Other));
}

#[test]
fn login_watch_takes_the_first_api_csrf_and_never_probes_when_quick_login_is_off() {
    let mut w = LoginWatch::new(0, 60_000, false);
    for now in [2000u64, 4000, 6000] {
        if let LoginStep::Wait(cmds) = w.tick(now) {
            assert!(cmds.iter().all(|c| matches!(c, LoginCommand::GetAllCookies(_))));
        } else {
            panic!("wait expected");
        }
    }
    w.on_message(&request_will_be_sent("https://console.cloud.tencent.com/sso?csrfCode=sso"), 6100, None);
    assert_eq!(w.csrf_code, "");
    w.on_message(&request_will_be_sent("https://console.cloud.tencent.com/cgi/capi?csrfCode=abc"), 6200, None);
    assert_eq!(w.csrf_code, "abc");
    w.on_message(&request_will_be_sent("https://console.cloud.tencent.com/_api/x?csrfCode=def"), 6300, None);
    assert_eq!(w.csrf_code, "abc");
    assert!(!w.quick_native_done && !w.quick_mouse_done && w.quick_probe_id.is_none());
}
