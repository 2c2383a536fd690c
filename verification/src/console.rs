//! The console's private API (cookie mode), one BFF for every product:
//!
//! ```text
//! POST https://console-hc.cloud.tencent.com/_api/{service}/{Action}
//!      ?timeout=30000&t={ms}&uin={uin}&ownerUin={ownerUin}&csrfCode={code}
//! Body: {"cmd":"{Action}","serviceType":"{service}","data":{...},"regionId":4}
//! ```
//!
//! The library prepares the request and reads the answer; sending it is the
//! application's part.
use crate::config::{cookie_ids, Config};
use crate::cred::{cred, mark};
use crate::json::{at, field, int_of, is_int, json_int, json_str, lookup, members_of, push_member, str_of, Json};
use crate::text::{contains, decimal, has_sub, i64_text, push_str, u64_text};
use vstd::prelude::*;

verus! {

/// A prepared request: the URL and the JSON body to post.
pub struct ConsoleRequest {
    pub url: String,
    pub body: Json,
}

/// The body every console gateway expects.
pub open spec fn is_console_body(
    b: Json,
    cmd: Seq<char>,
    service: Seq<char>,
    data: Json,
    region_id: i64,
) -> bool {
    &&& members_of(b) is Some
    &&& members_of(b).unwrap().len() == 4
    &&& str_of(at(b, "cmd"@)) == Some(cmd)
    &&& str_of(at(b, "serviceType"@)) == Some(service)
    &&& field(b, "data"@) == Some(data)
    &&& is_int(at(b, "regionId"@), region_id)
}

/// `{"cmd": cmd, "serviceType": service, "data": data, "regionId": region_id}`.
pub fn console_body(cmd: &str, service: &str, data: Json, region_id: i64) -> (b: Json)
    ensures
        is_console_body(b, cmd@, service@, data, region_id),
{
    proof {
        reveal_strlit("cmd");
        reveal_strlit("serviceType");
        reveal_strlit("data");
        reveal_strlit("regionId");
        assert("cmd"@.len() == 3 && "serviceType"@.len() == 11 && "data"@.len() == 4
            && "regionId"@.len() == 8);
    }
    let mut m: Vec<(String, Json)> = Vec::new();
    let c = json_str(cmd);
    let ghost gc = c;
    push_member(&mut m, "cmd", c);
    let ghost m1 = m@;
    assert(lookup(m1, "cmd"@) == Some(gc));
    let sv = json_str(service);
    let ghost gs = sv;
    push_member(&mut m, "serviceType", sv);
    let ghost m2 = m@;
    assert(lookup(m2, "cmd"@) == Some(gc));
    assert(lookup(m2, "serviceType"@) == Some(gs));
    assert(lookup(m1, "data"@) is None);
    assert(lookup(m2, "data"@) is None);
    assert(lookup(m2, "regionId"@) is None);
    push_member(&mut m, "data", data);
    let ghost m3 = m@;
    assert(lookup(m3, "cmd"@) == Some(gc));
    assert(lookup(m3, "serviceType"@) == Some(gs));
    assert(lookup(m3, "data"@) == Some(data));
    assert(lookup(m3, "regionId"@) is None);
    let ri = json_int(region_id);
    let ghost gr = ri;
    push_member(&mut m, "regionId", ri);
    assert(lookup(m@, "cmd"@) == Some(gc));
    assert(lookup(m@, "serviceType"@) == Some(gs));
    assert(lookup(m@, "data"@) == Some(data));
    assert(lookup(m@, "regionId"@) == Some(gr));
    Json::Object(m)
}

/// `data` with `Version` / `Language` added when it is an object without them.
pub open spec fn with_version(data: Json, out: Json, version: Seq<char>) -> bool {
    match data {
        Json::Object(_) => {
            &&& members_of(out) is Some
            &&& (field(data, "Version"@) is Some ==> field(out, "Version"@) == field(
                data,
                "Version"@,
            ))
            &&& (field(data, "Version"@) is None ==> str_of(at(out, "Version"@)) == Some(version))
            &&& (field(data, "Language"@) is Some ==> field(out, "Language"@) == field(
                data,
                "Language"@,
            ))
            &&& (field(data, "Language"@) is None ==> str_of(at(out, "Language"@)) == Some(
                "zh-CN"@,
            ))
            &&& forall|k: Seq<char>|
                k != "Version"@ && k != "Language"@ ==> #[trigger] field(out, k) == field(data, k)
        },
        _ => out == data,
    }
}

/// Adds `Version` and `Language` to an object payload when the caller did not
/// give them (products have different API versions).
pub fn add_version(data: Json, version: &str) -> (out: Json)
    ensures
        with_version(data, out, version@),
{
    let ghost d = data;
    match data {
        Json::Object(mut m) => {
            proof {
                reveal_strlit("Version");
                reveal_strlit("Language");
                assert("Version"@.len() == 7 && "Language"@.len() == 8);
            }
            let ghost m0 = m@;
            assert(field(d, "Version"@) == lookup(m0, "Version"@));
            let has_version = Json::has_key(&m, "Version");
            if !has_version {
                push_member(&mut m, "Version", json_str(version));
            }
            let ghost m1 = m@;
            assert(forall|k: Seq<char>| k != "Version"@ ==> #[trigger] lookup(m1, k) == lookup(m0, k));
            assert(lookup(m1, "Language"@) == lookup(m0, "Language"@));
            let has_language = Json::has_key(&m, "Language");
            if !has_language {
                push_member(&mut m, "Language", json_str("zh-CN"));
            }
            let ghost m2 = m@;
            assert(forall|k: Seq<char>| k != "Language"@ ==> #[trigger] lookup(m2, k) == lookup(m1, k));
            assert(lookup(m2, "Version"@) == lookup(m1, "Version"@));
            let out = Json::Object(m);
            assert forall|k: Seq<char>| k != "Version"@ && k != "Language"@ implies #[trigger] field(out, k) == field(d, k) by {
                assert(lookup(m2, k) == lookup(m1, k));
                assert(lookup(m1, k) == lookup(m0, k));
            }
            out
        },
        other => other,
    }
}

impl Json {
    /// Whether the members hold `key`.
    pub fn has_key(m: &Vec<(String, Json)>, key: &str) -> (b: bool)
        ensures
            b == lookup(m@, key@) is Some,
    {
        let mut i: usize = 0;
        assert(m@.skip(0) == m@);
        while i < m.len()
            invariant
                i <= m@.len(),
                lookup(m@, key@) == lookup(m@.skip(i as int), key@),
            decreases m.len() - i,
        {
            assert(m@.skip(i as int).drop_first() == m@.skip(i + 1));
            assert(m@.skip(i as int)[0] == m@[i as int]);
            if crate::json::str_eq(m[i].0.as_str(), key) {
                return true;
            }
            i = i + 1;
        }
        false
    }
}

/// The URL of a console call.
pub open spec fn console_url(
    service: Seq<char>,
    action: Seq<char>,
    now_ms: i64,
    uin: Seq<char>,
    owner: Seq<char>,
    csrf: Seq<char>,
) -> Seq<char> {
    "https://console-hc.cloud.tencent.com/_api/"@ + service + "/"@ + action
        + "?timeout=30000&t="@ + decimal(now_ms as int) + "&uin="@ + uin + "&ownerUin="@ + owner
        + "&csrfCode="@ + csrf
}

/// The error for a session whose cookie lacks an id.
pub open spec fn incomplete_session_error() -> Seq<char> {
    mark() + "无法确定 uin/ownerUin：当前会话不完整，请重新登录"@
}

/// The error for a session without csrf code.
pub open spec fn missing_csrf_error() -> Seq<char> {
    mark() + "缺少 csrfCode：请重新登录"@
}

/// Prepares a console call at time `now_ms`: refuses a session without both
/// ids or without csrf code (marked as login errors), adds `Version` /
/// `Language` to the payload, and builds the URL and the body.
pub fn prepare_console_call(
    cfg: &Config,
    service: &str,
    version: &str,
    action: &str,
    data: Json,
    now_ms: i64,
) -> (r: Result<ConsoleRequest, String>)
    ensures
        match r {
            Err(e) => if cookie_ids(cfg.cookie@).0.len() == 0 || cookie_ids(cfg.cookie@).1.len()
                == 0 {
                e@ == incomplete_session_error()
            } else {
                cfg.csrf_code@.len() == 0 && e@ == missing_csrf_error()
            },
            Ok(req) => {
                &&& cookie_ids(cfg.cookie@).0.len() > 0
                &&& cookie_ids(cfg.cookie@).1.len() > 0
                &&& cfg.csrf_code@.len() > 0
                &&& req.url@ == console_url(
                    service@,
                    action@,
                    now_ms,
                    cookie_ids(cfg.cookie@).0,
                    cookie_ids(cfg.cookie@).1,
                    cfg.csrf_code@,
                )
                &&& exists|d: Json|
                    with_version(data, d, version@) && is_console_body(
                        req.body,
                        action@,
                        service@,
                        d,
                        cfg.region_id,
                    )
            },
        },
{
    let (uin, owner) = cfg.extract_ids_from_cookie();
    if uin.as_str().is_empty() || owner.as_str().is_empty() {
        return Err(cred("无法确定 uin/ownerUin：当前会话不完整，请重新登录"));
    }
    if cfg.csrf_code.as_str().is_empty() {
        return Err(cred("缺少 csrfCode：请重新登录"));
    }
    let d = add_version(data, version);
    let mut url = String::new();
    push_str(&mut url, "https://console-hc.cloud.tencent.com/_api/");
    push_str(&mut url, service);
    push_str(&mut url, "/");
    push_str(&mut url, action);
    push_str(&mut url, "?timeout=30000&t=");
    push_str(&mut url, i64_text(now_ms).as_str());
    push_str(&mut url, "&uin=");
    push_str(&mut url, uin.as_str());
    push_str(&mut url, "&ownerUin=");
    push_str(&mut url, owner.as_str());
    push_str(&mut url, "&csrfCode=");
    push_str(&mut url, cfg.csrf_code.as_str());
    let ghost dd = d;
    let body = console_body(action, service, d, cfg.region_id);
    assert(url@ =~= console_url(service@, action@, now_ms, uin@, owner@, cfg.csrf_code@));
    Ok(ConsoleRequest { url, body })
}

/// The first 300 characters of `s`.
pub open spec fn snippet_of(s: Seq<char>) -> Seq<char> {
    if s.len() <= 300 {
        s
    } else {
        s.take(300)
    }
}

/// The first 300 characters, for error messages.
pub fn snippet(s: &str) -> (r: String)
    ensures
        r@ == snippet_of(s@),
{
    let v = crate::text::chars_of(s);
    let n = if v.len() <= 300 {
        v.len()
    } else {
        300
    };
    let r = crate::text::string_of_range(&v, 0, n);
    assert(v@.subrange(0, n as int) == snippet_of(s@));
    r
}

/// A console error that means the login is gone. `1216` is kept although it
/// may belong to the old gateway only: without evidence the worst it does is
/// one extra login window.
pub open spec fn cred_payload_of(code: Seq<char>, msg: Seq<char>) -> bool {
    ||| code == "9"@
    ||| code == "1216"@
    ||| has_sub(msg, "登录态"@)
    ||| has_sub(msg, "CSRF"@)
    ||| has_sub(msg, "重新登录"@)
}

/// Whether a console error code / message means the login is gone.
pub fn cred_payload(code: &str, msg: &str) -> (b: bool)
    ensures
        b == cred_payload_of(code@, msg@),
{
    crate::json::str_eq(code, "9") || crate::json::str_eq(code, "1216") || contains(msg, "登录态")
        || contains(msg, "CSRF") || contains(msg, "重新登录")
}

/// `接口错误 {code}: {msg}` (`Unknown` for an empty code), marked when it
/// means the login is gone.
pub open spec fn api_err_text(code: Seq<char>, msg: Seq<char>) -> Seq<char> {
    let detail = "接口错误 "@ + (if code.len() == 0 {
        "Unknown"@
    } else {
        code
    }) + ": "@ + msg;
    if cred_payload_of(code, msg) {
        mark() + detail
    } else {
        detail
    }
}

/// The error text for a console error.
pub fn api_err(code: &str, msg: &str) -> (s: String)
    ensures
        s@ == api_err_text(code@, msg@),
{
    let mut detail = String::new();
    push_str(&mut detail, "接口错误 ");
    if code.is_empty() {
        push_str(&mut detail, "Unknown");
    } else {
        push_str(&mut detail, code);
    }
    push_str(&mut detail, ": ");
    push_str(&mut detail, msg);
    if cred_payload(code, msg) {
        cred(detail.as_str())
    } else {
        detail
    }
}

/// The code and message of `resp["Error"]` when it is an object.
pub open spec fn error_parts(resp: Json) -> Option<(Seq<char>, Seq<char>)> {
    let err = at(resp, "Error"@);
    match err {
        Json::Object(_) => Some(
            (
                match str_of(at(err, "Code"@)) {
                    Some(c) => c,
                    None => "Unknown"@,
                },
                match str_of(at(err, "Message"@)) {
                    Some(m) => m,
                    None => Seq::<char>::empty(),
                },
            ),
        ),
        _ => None,
    }
}

/// Reads the error of a `Response` object, if any.
pub fn response_error(resp: &Json) -> (r: Option<(String, String)>)
    ensures
        match r {
            Some((c, m)) => error_parts(*resp) == Some((c@, m@)),
            None => error_parts(*resp) is None,
        },
{
    match resp.get("Error") {
        Some(err) => match err {
            Json::Object(_) => {
                let code = match err.str_at("Code") {
                    Some(c) => crate::text::copy_str(c),
                    None => crate::text::copy_str("Unknown"),
                };
                let msg = match err.str_at("Message") {
                    Some(m) => crate::text::copy_str(m),
                    None => String::new(),
                };
                Some((code, msg))
            },
            _ => None,
        },
        None => None,
    }
}

/// A success code: the number 0, or the string "0" / "200".
pub open spec fn ok_code(code: Option<Json>) -> bool {
    match code {
        Some(Json::Number(n)) => n.int == Some(0i64),
        Some(Json::Str(s)) => s@ == "0"@ || s@ == "200"@,
        _ => false,
    }
}

/// `v.get("code").or_else(|| v.get("Code"))`.
pub open spec fn code_of(v: Json) -> Option<Json> {
    match field(v, "code"@) {
        Some(c) => Some(c),
        None => field(v, "Code"@),
    }
}

/// `v.get("data").or_else(|| v.get("Data"))`, `null` when both are absent.
pub open spec fn data_of(v: Json) -> Json {
    match field(v, "data"@) {
        Some(d) => d,
        None => at(v, "Data"@),
    }
}

/// The error of an answer the library could not read.
pub open spec fn odd_answer_error(status: u16, text: Seq<char>) -> Seq<char> {
    "Cookie 接口返回异常 (HTTP "@ + decimal(status as int) + "): "@ + snippet_of(text)
}

/// What a console answer means: the business data, or the error.
pub open spec fn normalized(v: Json, text: Seq<char>, status: u16) -> Result<Json, Seq<char>> {
    match field(v, "Response"@) {
        Some(resp) => match error_parts(resp) {
            Some((c, m)) => Err(api_err_text(c, m)),
            None => Ok(resp),
        },
        None => if ok_code(code_of(v)) {
            let data = data_of(v);
            match field(data, "Response"@) {
                Some(resp) => match error_parts(resp) {
                    Some((c, m)) => Err(api_err_text(c, m)),
                    None => Ok(resp),
                },
                None => if data != Json::Null {
                    Ok(data)
                } else {
                    Err(odd_answer_error(status, text))
                },
            }
        } else {
            Err(odd_answer_error(status, text))
        },
    }
}

fn is_ok_code(code: Option<&Json>) -> (b: bool)
    ensures
        b == ok_code(
            match code {
                Some(c) => Some(*c),
                None => None,
            },
        ),
{
    match code {
        Some(Json::Number(n)) => match n.int {
            Some(i) => i == 0,
            None => false,
        },
        Some(Json::Str(s)) => crate::json::str_eq(s.as_str(), "0") || crate::json::str_eq(
            s.as_str(),
            "200",
        ),
        _ => false,
    }
}

fn odd_answer(status: u16, text: &str) -> (s: String)
    ensures
        s@ == odd_answer_error(status, text@),
{
    let mut s = String::new();
    push_str(&mut s, "Cookie 接口返回异常 (HTTP ");
    push_str(&mut s, u64_text(status as u64).as_str());
    push_str(&mut s, "): ");
    push_str(&mut s, snippet(text).as_str());
    s
}

/// Reads a console answer whatever its wrapping: a TC3 `Response`, or
/// `{code, data: {Response}}` / `{code: 0, data: {...}}`. `text` is the
/// answer printed back as JSON, quoted in the error when nothing fits.
pub fn normalize(v: Json, text: &str, status: u16) -> (r: Result<Json, String>)
    ensures
        match r {
            Ok(x) => normalized(v, text@, status) == Ok::<Json, Seq<char>>(x),
            Err(e) => normalized(v, text@, status) == Err::<Json, Seq<char>>(e@),
        },
{
    let ghost whole = v;
    if let Some(resp) = v.get("Response") {
        if let Some((c, m)) = response_error(resp) {
            return Err(api_err(c.as_str(), m.as_str()));
        }
        let r = v.take("Response");
        return match r {
            Some(x) => Ok(x),
            None => Err(odd_answer(status, text)),
        };
    }
    let code = match v.get("code") {
        Some(c) => Some(c),
        None => v.get("Code"),
    };
    if is_ok_code(code) {
        let has_data = v.get("data").is_some();
        let data = if has_data {
            v.take("data")
        } else {
            v.take("Data")
        };
        let data = match data {
            Some(d) => d,
            None => Json::Null,
        };
        assert(data == data_of(whole));
        if let Some(resp) = data.get("Response") {
            if let Some((c, m)) = response_error(resp) {
                return Err(api_err(c.as_str(), m.as_str()));
            }
            let r = data.take("Response");
            return match r {
                Some(x) => Ok(x),
                None => Err(odd_answer(status, text)),
            };
        }
        match data {
            Json::Null => {},
            other => {
                return Ok(other);
            },
        }
    }
    Err(odd_answer(status, text))
}


/// The error for an answer that is not JSON: the status line and the first
/// 300 characters of the text.
pub fn non_json_answer(status: &str, text: &str) -> (r: String)
    ensures
        r@ == "响应非 JSON (HTTP "@ + status@ + "): "@ + snippet_of(text@),
{
    let mut r = crate::text::copy_str("响应非 JSON (HTTP ");
    push_str(&mut r, status);
    push_str(&mut r, "): ");
    push_str(&mut r, snippet(text).as_str());
    r
}

} // verus!
