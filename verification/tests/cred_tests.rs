use apm_monitor::cred::{cred, is_capi_token_stale, is_cred, is_session_invalid, is_transport, server_says_invalid, strip};

#[test]
fn capi_1216_is_not_session_invalid() {
    let e = "旧网关接口错误 code=1216: 不合法的云 API 类型（容器 CPU/内存利用率依赖该网关的短寿命令牌）";
    assert!(is_capi_token_stale(e), "应判为令牌需重试");
    assert!(!is_session_invalid(e), "绝不该判成会话失效");
    assert!(!server_says_invalid(e));
    assert!(!is_cred(e));
}

#[test]
fn capi_preheat_failure_is_neither_cred_nor_token_stale() {
    let e = "没能从控制台页面取到旧网关令牌（页面没有发出 dashboard 请求：可能是工作负载页打不开，\
             也可能登录窗口里没有登录态 —— 展开「设置」点一次「扫码登录」即可）";
    assert!(!is_capi_token_stale(e), "不该触发换令牌重试");
    assert!(!is_session_invalid(e), "也不该判成会话失效");
}

#[test]
fn capi_login_page_is_cred() {
    let e = cred(
        "登录窗口里没有登录态（控制台页面被送到了 https://cloud.tencent.com/login?s=1）：\
         请在「设置」里点「扫码登录」完成扫码",
    );
    assert!(is_session_invalid(&e));
    assert!(!is_capi_token_stale(&e));
}

#[test]
fn api_session_failure_is_session_invalid() {
    assert!(is_session_invalid(&cred("接口错误 9: 登录态验证失败")));
    assert!(server_says_invalid("接口错误 Unknown: 登录态验证失败"));
    assert!(server_says_invalid("接口错误 Unknown: 验证CSRF失败"));
    assert!(server_says_invalid("接口错误 Unknown: 请重新登录"));
    assert!(!is_capi_token_stale(&cred("接口错误 9: 登录态验证失败")));
}

#[test]
fn transport_never_triggers_login() {
    for e in [
        "请求失败: connection reset by peer",
        "响应非 JSON (HTTP 502): <html>",
        "连接不上调试端口 127.0.0.1:9223（请确认 tauri.config 的 additionalBrowserArgs）",
        "调试通道错误: broken pipe",
    ] {
        assert!(!is_session_invalid(e), "{} 不该判成会话失效", e);
    }
}

#[test]
fn parameter_and_permission_errors_are_not_cred() {
    for e in [
        "InvalidParameterValue: 参数取值错误",
        "UnauthorizedOperation.CamNoAuth: 没有权限",
        "未选择对象",
    ] {
        assert!(!is_session_invalid(e), "{} 不该判成会话失效", e);
    }
}

#[test]
fn strip_removes_invisible_marker() {
    let e = cred("缺少 csrfCode：请重新登录");
    assert!(is_cred(&e));
    assert_eq!(strip(&e), "缺少 csrfCode：请重新登录");
    assert!(!strip(&e).contains('\u{1}'));
}

#[test]
fn marked_transport_error_is_still_not_a_login_problem() {
    let e = cred("请求失败: timeout");
    assert!(is_transport(&e));
    assert!(!is_session_invalid(&e));
}

#[test]
fn strip_of_unmarked_text_is_unchanged() {
    assert_eq!(strip("普通错误"), "普通错误");
    assert!(!is_cred("普通错误"));
}

#[test]
fn timeouts_never_trigger_login() {
    for e in ["在页面里执行 JS 超时", "读取 MCP 响应超时", "等待登录超时：请在登录窗口中完成扫码登录"] {
        assert!(is_transport(e));
        assert!(!is_session_invalid(e), "{} 不该判成会话失效", e);
    }
}

#[test]
fn explicit_http_401_and_403_are_session_invalid() {
    assert!(server_says_invalid("Cookie 接口返回异常 (HTTP 401): {}"));
    assert!(is_session_invalid("Cookie 接口返回异常 (HTTP 401): {}"));
    assert!(is_session_invalid("Cookie 接口返回异常 (HTTP 403): {}"));
    assert!(!is_session_invalid("Cookie 接口返回异常 (HTTP 500): {}"));
    // a transport failure stays out even with a 401 status in its text
    assert!(!is_session_invalid("响应非 JSON (HTTP 401): <html>"));
}
