//! The fallback for container dashboards: the hidden console page sends the
//! old-gateway request itself.
//!
//! The application opens the hidden window and evaluates the script in it;
//! the library checks the configuration, builds the page address, the window
//! label and the script, keeps track of the retries and reads the answer.
use crate::config::Config;
use crate::json::{at, field, int_of, json_quote, json_string_literal, members_of, str_of, Json};
use crate::text::{copy_str, decimal, has_prefix, chars_of, i64_text, is_blank, push_str, take_chars, trim, trimmed, blank, u64_text};
use vstd::prelude::*;

verus! {

/// The start of the label of every hidden fetch window.
pub open spec fn fetch_label_prefix() -> Seq<char> {
    "cloud-capi-fetch"@
}

/// The label of the hidden window opened at `now` (Unix seconds).
pub fn fetch_label(now: i64) -> (r: String)
    ensures
        r@ == fetch_label_prefix() + "-"@ + decimal(now as int),
{
    let mut r = copy_str("cloud-capi-fetch");
    push_str(&mut r, "-");
    push_str(&mut r, i64_text(now).as_str());
    r
}

/// Whether a window is a left-over fetch window, to be closed first.
pub fn is_fetch_label(label: &str) -> (b: bool)
    ensures
        b == (fetch_label_prefix().len() <= label@.len() && label@.take(
            fetch_label_prefix().len() as int,
        ) == fetch_label_prefix()),
{
    let l = chars_of(label);
    let p = chars_of("cloud-capi-fetch");
    has_prefix(&l, &p)
}

/// The message when no cluster is selected.
pub open spec fn no_cluster_error() -> Seq<char> {
    "未选择集群，无法打开取数页面"@
}

/// The first selected deployment, empty when none.
pub open spec fn first_deployment(cfg: Config) -> Seq<char> {
    if cfg.selected_deployments@.len() > 0 {
        cfg.selected_deployments@[0]@
    } else {
        Seq::<char>::empty()
    }
}

/// The console page of the selected deployment.
pub open spec fn dashboard_page(cfg: Config) -> Seq<char> {
    "https://console.cloud.tencent.com/tke2/cluster/sub/detail/resource/deployment?rid="@
        + decimal(cfg.region_id as int) + "&clusterId="@ + cfg.container_cluster@
        + "&resourceIns="@ + first_deployment(cfg) + "&np="@ + cfg.container_namespace@
}

/// The page the hidden window opens; refused when no cluster is selected.
pub fn dashboard_url(cfg: &Config) -> (r: Result<String, String>)
    ensures
        is_blank(cfg.container_cluster@) ==> match r {
            Err(e) => e@ == no_cluster_error(),
            Ok(_) => false,
        },
        !is_blank(cfg.container_cluster@) ==> match r {
            Ok(u) => u@ == dashboard_page(*cfg),
            Err(_) => false,
        },
{
    if blank(cfg.container_cluster.as_str()) {
        return Err(copy_str("未选择集群，无法打开取数页面"));
    }
    let mut u = copy_str("https://console.cloud.tencent.com/tke2/cluster/sub/detail/resource/deployment?rid=");
    push_str(&mut u, i64_text(cfg.region_id).as_str());
    push_str(&mut u, "&clusterId=");
    push_str(&mut u, cfg.container_cluster.as_str());
    push_str(&mut u, "&resourceIns=");
    if cfg.selected_deployments.len() > 0 {
        push_str(&mut u, cfg.selected_deployments[0].as_str());
    } else {
        let ghost t = u@;
        assert(t + Seq::<char>::empty() == t);
    }
    push_str(&mut u, "&np=");
    push_str(&mut u, cfg.container_namespace.as_str());
    Ok(u)
}

/// The body the page posts: `{"cmd", "serviceType", "data", "regionId"}`.
pub fn capi_fetch_body(cmd: &str, service: &str, data: Json, region_id: i64) -> (r: Json)
    ensures
        str_of(at(r, "cmd"@)) == Some(cmd@),
        str_of(at(r, "serviceType"@)) == Some(service@),
        at(r, "data"@) == data,
        int_of(at(r, "regionId"@)) == Some(region_id),
        members_of(r) matches Some(m) && m.len() == 4,
{
    let mut m: Vec<(String, Json)> = Vec::new();
    crate::json::push_member(&mut m, "cmd", crate::json::json_str(cmd));
    crate::json::push_member(&mut m, "serviceType", crate::json::json_str(service));
    crate::json::push_member(&mut m, "data", data);
    crate::json::push_member(&mut m, "regionId", crate::json::json_int(region_id));
    proof {
        reveal_strlit("cmd");
        reveal_strlit("serviceType");
        reveal_strlit("data");
        reveal_strlit("regionId");
        assert("cmd"@.len() == 3);
        assert("serviceType"@.len() == 11);
        assert("data"@.len() == 4);
        assert("regionId"@.len() == 8);
        assert("cmd"@ != "serviceType"@);
        assert("cmd"@ != "data"@);
        assert("cmd"@ != "regionId"@);
        assert("serviceType"@ != "data"@);
        assert("serviceType"@ != "regionId"@);
        assert("data"@ != "regionId"@);
    }
    Json::Object(m)
}

/// The extra request headers: `x-lid` when one was captured, and `x-life`
/// made fresh in the page from the captured epoch when that is positive.
pub open spec fn lid_headers(x_lid: Seq<char>, lid_literal: Seq<char>, life_epoch_ms: i64) -> Seq<char> {
    if trim(x_lid).len() == 0 {
        Seq::<char>::empty()
    } else if life_epoch_ms > 0 {
        ", \"x-lid\": "@ + lid_literal + ", \"x-life\": String(Date.now() - "@ + decimal(
            life_epoch_ms as int,
        ) + ")"@
    } else {
        ", \"x-lid\": "@ + lid_literal
    }
}

/// The script that the console page runs: it posts `body` (the JSON text of
/// the request body, sent through `JSON.stringify`) to the old gateway with
/// the page's own cookies, and gives back the answer's text, or `NO_FETCH`.
pub open spec fn fetch_js_text(
    uin: Seq<char>,
    owner: Seq<char>,
    service: Seq<char>,
    cmd: Seq<char>,
    body: Seq<char>,
    csrf: Seq<char>,
    lid_hdr: Seq<char>,
) -> Seq<char> {
    "(async () => {\n  if (typeof fetch !== \"function\") return \"NO_FETCH\";\n  const url = \"https://console.cloud.tencent.com/cgi/capi?cmd="@
        + cmd + "&action=delegate&serviceType="@ + service
        + "\"\n    + \"&secure=1&version=3&dictId=2006&sts=1&t=\" + Date.now()\n    + \"&uin="@ + uin
        + "&ownerUin="@ + owner + "&csrfCode="@ + csrf
        + "\";\n  const r = await fetch(url, { method: \"POST\", credentials: \"include\",\n    headers: { \"Content-Type\": \"application/json\", \"Accept\": \"application/json, text/javascript, */*; q=0.01\", \"X-Requested-With\": \"XMLHttpRequest\""@
        + lid_hdr + " },\n    body: JSON.stringify("@ + body + ") });\n  return await r.text();\n})()"@
}

/// The script, given the JSON literal of the trimmed `x-lid` value.
pub fn build_fetch_js_with(
    uin: &str,
    owner: &str,
    service: &str,
    cmd: &str,
    body: &str,
    csrf: &str,
    x_lid: &str,
    lid_literal: &str,
    life_epoch_ms: i64,
) -> (r: String)
    ensures
        r@ == fetch_js_text(
            uin@,
            owner@,
            service@,
            cmd@,
            body@,
            csrf@,
            lid_headers(x_lid@, lid_literal@, life_epoch_ms),
        ),
{
    let mut hdr = String::new();
    if !blank(x_lid) {
        proof {
            crate::text::lemma_trim_empty_iff_blank(x_lid@);
        }
        push_str(&mut hdr, ", \"x-lid\": ");
        push_str(&mut hdr, lid_literal);
        if life_epoch_ms > 0 {
            push_str(&mut hdr, ", \"x-life\": String(Date.now() - ");
            push_str(&mut hdr, i64_text(life_epoch_ms).as_str());
            push_str(&mut hdr, ")");
        }
        assert(hdr@ == lid_headers(x_lid@, lid_literal@, life_epoch_ms)) by {
            assert(Seq::<char>::empty() + ", \"x-lid\": "@ == ", \"x-lid\": "@);
        }
    } else {
        proof {
            crate::text::lemma_trim_empty_iff_blank(x_lid@);
        }
    }
    let mut js = copy_str(
        "(async () => {\n  if (typeof fetch !== \"function\") return \"NO_FETCH\";\n  const url = \"https://console.cloud.tencent.com/cgi/capi?cmd=",
    );
    push_str(&mut js, cmd);
    push_str(&mut js, "&action=delegate&serviceType=");
    push_str(&mut js, service);
    push_str(&mut js, "\"\n    + \"&secure=1&version=3&dictId=2006&sts=1&t=\" + Date.now()\n    + \"&uin=");
    push_str(&mut js, uin);
    push_str(&mut js, "&ownerUin=");
    push_str(&mut js, owner);
    push_str(&mut js, "&csrfCode=");
    push_str(&mut js, csrf);
    push_str(
        &mut js,
        "\";\n  const r = await fetch(url, { method: \"POST\", credentials: \"include\",\n    headers: { \"Content-Type\": \"application/json\", \"Accept\": \"application/json, text/javascript, */*; q=0.01\", \"X-Requested-With\": \"XMLHttpRequest\"",
    );
    push_str(&mut js, hdr.as_str());
    push_str(&mut js, " },\n    body: JSON.stringify(");
    push_str(&mut js, body);
    push_str(&mut js, ") });\n  return await r.text();\n})()");
    js
}

/// The script that the console page runs (see `fetch_js_text`); `body` is
/// the JSON text of the request body (see `capi_fetch_body`).
pub fn build_fetch_js(
    uin: &str,
    owner: &str,
    service: &str,
    cmd: &str,
    body: &str,
    csrf: &str,
    x_lid: &str,
    life_epoch_ms: i64,
) -> (r: String)
    ensures
        r@ == fetch_js_text(
            uin@,
            owner@,
            service@,
            cmd@,
            body@,
            csrf@,
            lid_headers(x_lid@, json_string_literal(trim(x_lid@)), life_epoch_ms),
        ),
{
    let t = trimmed(x_lid);
    let lit = json_quote(t.as_str());
    build_fetch_js_with(uin, owner, service, cmd, body, csrf, x_lid, lit.as_str(), life_epoch_ms)
}

// ---------------------------------------------------------------------------
// Retries and the answer
// ---------------------------------------------------------------------------

/// What the evaluations so far left: the answer's text (empty while there
/// is none) and the last failure.
pub struct EvalState {
    pub body: String,
    pub last: String,
}

/// The state before the first evaluation.
pub fn eval_start() -> (s: EvalState)
    ensures
        s.body@.len() == 0,
        s.last@.len() == 0,
{
    EvalState { body: String::new(), last: String::new() }
}

/// One evaluation of the script: a text other than `NO_FETCH` is the answer
/// and ends the retries; `NO_FETCH` and errors are remembered as the last
/// failure. The result says whether to stop.
pub fn eval_step(s: &mut EvalState, outcome: Result<String, String>) -> (done: bool)
    ensures
        match outcome {
            Ok(t) => if t@ == "NO_FETCH"@ {
                !done && final(s).body@ == old(s).body@ && final(s).last@ == "页面里 fetch 不可用"@
            } else {
                done && final(s).body@ == t@ && final(s).last@ == old(s).last@
            },
            Err(e) => !done && final(s).body@ == old(s).body@ && final(s).last@ == e@,
        },
{
    match outcome {
        Ok(t) => {
            if crate::json::str_eq(t.as_str(), "NO_FETCH") {
                s.last = copy_str("页面里 fetch 不可用");
                false
            } else {
                s.body = t;
                true
            }
        },
        Err(e) => {
            s.last = e;
            false
        },
    }
}

/// The answer once the retries are over: the body, or the last failure
/// when none came.
pub fn eval_result(s: EvalState) -> (r: Result<String, String>)
    ensures
        s.body@.len() == 0 ==> match r {
            Err(e) => e@ == "退路取数失败："@ + s.last@,
            Ok(_) => false,
        },
        s.body@.len() != 0 ==> match r {
            Ok(b) => b@ == s.body@,
            Err(_) => false,
        },
{
    if s.body.as_str().is_empty() {
        let mut e = copy_str("退路取数失败：");
        push_str(&mut e, s.last.as_str());
        Err(e)
    } else {
        Ok(s.body)
    }
}

/// The first `n` characters of `s`.
pub open spec fn prefix_chars(s: Seq<char>, n: int) -> Seq<char> {
    if s.len() < n {
        s
    } else {
        s.take(n)
    }
}

/// The error for an answer that is not JSON.
pub fn dashboard_non_json(body: &str) -> (r: String)
    ensures
        r@ == "退路取数响应非 JSON: "@ + prefix_chars(body@, 200),
{
    let mut e = copy_str("退路取数响应非 JSON: ");
    let head = take_chars(body, 200);
    assert(head@ == prefix_chars(body@, 200)) by {
        if body@.len() < 200 {
            assert(body@.take(body@.len() as int) == body@);
        }
    }
    push_str(&mut e, head.as_str());
    e
}

/// The answer's code, `-1` when it has none.
pub open spec fn answer_code(v: Json) -> i64 {
    match int_of(at(v, "code"@)) {
        Some(c) => c,
        None => -1i64,
    }
}

/// The message for a non-zero code: the raw answer is added when the
/// gateway gave no message.
pub open spec fn dashboard_code_error(code: i64, msg: Seq<char>, body: Seq<char>) -> Seq<char> {
    "旧网关接口错误 code="@ + decimal(code as int) + ": "@ + msg
        + "（在页面里发也一样，说明不是「谁发」的问题）"@ + if msg.len() == 0 {
        " 原始响应: "@ + prefix_chars(body, 300)
    } else {
        Seq::<char>::empty()
    }
}

/// Whether a value is an object.
pub open spec fn is_object(v: Json) -> bool {
    v is Object
}

/// The `Data` list of an answer with code 0: under `data.data.Response`,
/// else `data.Response`, else `data`.
pub open spec fn dashboard_data(v: Json) -> Json {
    let d = at(v, "data"@);
    if is_object(at(at(d, "data"@), "Response"@)) {
        at(at(at(d, "data"@), "Response"@), "Data"@)
    } else if is_object(at(d, "Response"@)) {
        at(at(d, "Response"@), "Data"@)
    } else {
        at(d, "Data"@)
    }
}

fn object_at(v: &Json, key: &str) -> (b: bool)
    ensures
        b == is_object(at(*v, key@)),
{
    match v.at(key) {
        Some(Json::Object(_)) => true,
        _ => false,
    }
}

/// Reads the page's answer (`body` is its text, `v` what it parsed to):
/// the `Data` list, or the error of a non-zero code.
pub fn dashboard_response(v: Json, body: &str) -> (r: Result<Json, String>)
    ensures
        answer_code(v) != 0 ==> match r {
            Err(e) => e@ == dashboard_code_error(
                answer_code(v),
                match str_of(at(v, "msg"@)) {
                    Some(m) => m,
                    None => Seq::<char>::empty(),
                },
                body@,
            ),
            Ok(_) => false,
        },
        answer_code(v) == 0 ==> r == Ok::<Json, String>(dashboard_data(v)),
{
    let code: i64 = match v.at("code") {
        Some(c) => match c.as_i64() {
            Some(i) => i,
            None => -1,
        },
        None => -1,
    };
    if code != 0 {
        let msg = match v.str_at("msg") {
            Some(m) => copy_str(m),
            None => String::new(),
        };
        let mut e = copy_str("旧网关接口错误 code=");
        push_str(&mut e, i64_text(code).as_str());
        push_str(&mut e, ": ");
        push_str(&mut e, msg.as_str());
        push_str(&mut e, "（在页面里发也一样，说明不是「谁发」的问题）");
        if msg.as_str().is_empty() {
            push_str(&mut e, " 原始响应: ");
            let head = take_chars(body, 300);
            assert(head@ == prefix_chars(body@, 300)) by {
                if body@.len() < 300 {
                    assert(body@.take(body@.len() as int) == body@);
                }
            }
            push_str(&mut e, head.as_str());
        } else {
            let ghost t = e@;
            assert(t + Seq::<char>::empty() == t);
        }
        return Err(e);
    }
    let d = crate::apm::take_at(v, "data");
    let inner = match d.at("data") {
        Some(dd) => object_at(dd, "Response"),
        None => false,
    };
    if inner {
        let dd = crate::apm::take_at(d, "data");
        let resp = crate::apm::take_at(dd, "Response");
        return Ok(crate::apm::take_at(resp, "Data"));
    }
    if object_at(&d, "Response") {
        let resp = crate::apm::take_at(d, "Response");
        return Ok(crate::apm::take_at(resp, "Data"));
    }
    Ok(crate::apm::take_at(d, "Data"))
}


/// The error when the page's own request worked but gave no utilisation.
pub fn fallback_empty_error(e: &str) -> (r: String)
    ensures
        r@ == e@ + "；退路：页面里发成功了但没解析出数据"@,
{
    let mut r = copy_str(e);
    push_str(&mut r, "；退路：页面里发成功了但没解析出数据");
    r
}

/// The error when the page's own request failed too.
pub fn fallback_failed_error(e: &str, e2: &str) -> (r: String)
    ensures
        r@ == e@ + "；退路也失败："@ + e2@,
{
    let mut r = copy_str(e);
    push_str(&mut r, "；退路也失败：");
    push_str(&mut r, e2);
    r
}

/// Whether a failed old-gateway call is retried through the hidden console
/// page: only when the gateway refused the request (not a session or
/// transport failure) and a window is there to run the page in.
pub fn use_page_fallback(err: &str, has_window: bool) -> (b: bool)
    ensures
        b == (crate::cred::capi_stale_text(err@) && has_window),
{
    has_window && crate::cred::is_capi_token_stale(err)
}

} // verus!
