//! Login details read from a capture of the Reqable proxy.
//!
//! The application talks to Reqable's MCP server (a child process speaking
//! JSON-RPC over its standard streams); the library decides which executable
//! to start, which reply answers a request, which capture ids to look at and
//! what a captured console request gives: the cookie, the account ids and
//! the csrf code.
use crate::json::{at, field, int_of, items_of, lookup, str_of, str_or_empty, uint_of, Json};
use crate::login::{token_after, token_bounds};
use crate::text::{
    chars_of, contains, copy_str, eq_ignore_ascii_case, eq_ignore_case, has_sub, is_blank, join,
    joined, string_of_range, take_chars, trim, trimmed, views, blank,
};
use vstd::prelude::*;

verus! {

/// What a captured console request tells about the login.
pub struct LoginInfo {
    pub cookie: String,
    pub uin: String,
    pub owner_uin: String,
    pub csrf_code: String,
    pub source: String,
}

// ---------------------------------------------------------------------------
// The MCP server executable
// ---------------------------------------------------------------------------

/// The usual install places of the MCP server, in the order they are tried.
pub open spec fn mcp_candidate(i: int) -> Seq<char> {
    if i == 0 {
        "C:\\Program Files\\Reqable\\mcp-server.exe"@
    } else if i == 1 {
        "C:\\Program Files (x86)\\Reqable\\mcp-server.exe"@
    } else {
        "D:\\Program Files\\Reqable\\mcp-server.exe"@
    }
}

/// The usual install places of the MCP server, in the order they are tried.
pub fn mcp_candidates() -> (r: Vec<String>)
    ensures
        r@.len() == 3,
        views(r@) == seq![mcp_candidate(0), mcp_candidate(1), mcp_candidate(2)],
{
    let mut r: Vec<String> = Vec::new();
    r.push(copy_str("C:\\Program Files\\Reqable\\mcp-server.exe"));
    r.push(copy_str("C:\\Program Files (x86)\\Reqable\\mcp-server.exe"));
    r.push(copy_str("D:\\Program Files\\Reqable\\mcp-server.exe"));
    assert(views(r@) =~= seq![mcp_candidate(0), mcp_candidate(1), mcp_candidate(2)]);
    r
}

/// The executable to start: the configured one, else the first install
/// place that exists (`present[i]` for candidate `i`), else the first
/// install place.
pub open spec fn mcp_path_of(cfg_path: Seq<char>, present: Seq<bool>) -> Seq<char> {
    if !is_blank(cfg_path) {
        cfg_path
    } else if present.len() > 0 && present[0] {
        mcp_candidate(0)
    } else if present.len() > 1 && present[1] {
        mcp_candidate(1)
    } else if present.len() > 2 && present[2] {
        mcp_candidate(2)
    } else {
        mcp_candidate(0)
    }
}

/// The executable to start, given which of `mcp_candidates()` exist.
pub fn mcp_path(cfg_path: &str, present: &[bool]) -> (r: String)
    ensures
        r@ == mcp_path_of(cfg_path@, present@),
{
    if !blank(cfg_path) {
        return copy_str(cfg_path);
    }
    let c = mcp_candidates();
    let mut i: usize = 0;
    while i < 3
        invariant
            i <= 3,
            c@.len() == 3,
            views(c@) == seq![mcp_candidate(0), mcp_candidate(1), mcp_candidate(2)],
            is_blank(cfg_path@),
            forall|k: int| 0 <= k < i ==> !(k < present@.len() && present@[k]),
        decreases 3 - i,
    {
        assert(c@[i as int]@ == views(c@)[i as int]);
        if i < present.len() && present[i] {
            return copy_str(c[i].as_str());
        }
        i = i + 1;
    }
    assert(c@[0]@ == views(c@)[0]);
    copy_str(c[0].as_str())
}

// ---------------------------------------------------------------------------
// JSON-RPC replies
// ---------------------------------------------------------------------------

/// What a line read from the server means to the request with a given id.
pub enum McpReply {
    /// Not the answer (a notification, or another request's answer).
    Skip,
    /// The `result` of the request (`null` when there is none).
    Answer(Json),
    /// The `error` the server reported.
    Failed(Json),
}

/// Whether `v` answers the request `id`.
pub open spec fn answers(v: Json, id: u64) -> bool {
    match field(v, "id"@) {
        Some(x) => uint_of(x) == Some(id),
        None => false,
    }
}

/// What the message `v` means to the request `id`.
pub fn mcp_reply(v: Json, id: u64) -> (r: McpReply)
    ensures
        !answers(v, id) ==> r is Skip,
        answers(v, id) ==> match field(v, "error"@) {
            Some(e) => r == McpReply::Failed(e),
            None => r == McpReply::Answer(at(v, "result"@)),
        },
{
    let answered = match v.get("id") {
        Some(x) => match x.as_u64() {
            Some(n) => n == id,
            None => false,
        },
        None => false,
    };
    if !answered {
        return McpReply::Skip;
    }
    if v.get("error").is_some() {
        match v.take("error") {
            Some(e) => McpReply::Failed(e),
            None => McpReply::Skip,
        }
    } else {
        match v.take("result") {
            Some(x) => McpReply::Answer(x),
            None => McpReply::Answer(Json::Null),
        }
    }
}

/// The message for an error the server reported, given the error's JSON text.
pub fn mcp_error_message(err_text: &str) -> (r: String)
    ensures
        r@ == "MCP 调用失败: "@ + err_text@,
{
    let mut r = copy_str("MCP 调用失败: ");
    crate::text::push_str(&mut r, err_text);
    r
}

/// The `text` items among the contents of a tool's answer.
pub open spec fn texts_of(items: Seq<Json>) -> Seq<Seq<char>>
    decreases items.len(),
{
    if items.len() == 0 {
        Seq::<Seq<char>>::empty()
    } else {
        match str_of(at(items.last(), "text"@)) {
            Some(t) => texts_of(items.drop_last()).push(t),
            None => texts_of(items.drop_last()),
        }
    }
}

/// The text a tool answered: its `text` contents joined by new lines;
/// empty when the answer has no content list.
pub open spec fn tool_text_of(res: Json) -> Seq<char> {
    match items_of(at(res, "content"@)) {
        Some(items) => joined(texts_of(items), "\n"@),
        None => Seq::<char>::empty(),
    }
}

/// The text a tool answered, to be read as JSON by the caller.
pub fn tool_text(res: &Json) -> (r: String)
    ensures
        r@ == tool_text_of(*res),
{
    let items = match res.at("content") {
        Some(c) => match c.as_array() {
            Some(a) => a,
            None => {
                return String::new();
            },
        },
        None => {
            return String::new();
        },
    };
    let mut texts: Vec<String> = Vec::new();
    let mut i: usize = 0;
    while i < items.len()
        invariant
            i <= items@.len(),
            views(texts@) == texts_of(items@.take(i as int)),
        decreases items.len() - i,
    {
        assert(items@.take(i + 1).drop_last() == items@.take(i as int));
        assert(items@.take(i + 1).last() == items@[i as int]);
        match items[i].str_at("text") {
            Some(t) => {
                texts.push(copy_str(t));
                assert(views(texts@) == views(texts@).drop_last().push(t@));
                assert(views(texts@).drop_last() == texts_of(items@.take(i as int)));
            },
            None => {},
        }
        i = i + 1;
    }
    assert(items@.take(items@.len() as int) == items@);
    join(&texts, "\n")
}

// ---------------------------------------------------------------------------
// Capture records
// ---------------------------------------------------------------------------

/// The id of one item of the capture list: a number, or an object's `id`.
pub open spec fn capture_id(it: Json) -> Option<i64> {
    match it {
        Json::Number(n) => n.int,
        Json::Object(m) => match lookup(m@, "id"@) {
            Some(x) => int_of(x),
            None => None,
        },
        _ => None,
    }
}

/// The ids of the capture list, in order.
pub open spec fn capture_ids_of(items: Seq<Json>) -> Seq<i64>
    decreases items.len(),
{
    if items.len() == 0 {
        Seq::<i64>::empty()
    } else {
        match capture_id(items.last()) {
            Some(i) => capture_ids_of(items.drop_last()).push(i),
            None => capture_ids_of(items.drop_last()),
        }
    }
}

/// The answer when the capture list is not a list.
pub open spec fn no_records_error() -> Seq<char> {
    "Reqable 未返回抓包记录（请确认 Reqable 正在运行且开启抓包，并已打开过腾讯云控制台页面）"@
}

/// The answer when the capture list holds no id.
pub open spec fn no_console_request_error() -> Seq<char> {
    "Reqable 抓包里没有找到控制台请求（请先在浏览器打开一次腾讯云控制台页面）"@
}

/// The answer when no record gave the login.
pub open spec fn no_login_in_capture_error() -> Seq<char> {
    "抓包里没能解析出 Cookie/csrfCode（请先在浏览器打开一次腾讯云控制台页面）"@
}

/// The message when no record gave the login.
pub fn no_login_in_capture() -> (r: String)
    ensures
        r@ == no_login_in_capture_error(),
{
    copy_str("抓包里没能解析出 Cookie/csrfCode（请先在浏览器打开一次腾讯云控制台页面）")
}

/// The ids of the captured requests that mention the csrf code.
pub fn capture_ids(ids: &Json) -> (r: Result<Vec<i64>, String>)
    ensures
        match items_of(*ids) {
            None => match r {
                Err(e) => e@ == no_records_error(),
                Ok(_) => false,
            },
            Some(items) => if capture_ids_of(items).len() == 0 {
                match r {
                    Err(e) => e@ == no_console_request_error(),
                    Ok(_) => false,
                }
            } else {
                match r {
                    Ok(list) => list@ == capture_ids_of(items),
                    Err(_) => false,
                }
            },
        },
{
    let items = match ids.as_array() {
        Some(a) => a,
        None => {
            return Err(
                copy_str(
                    "Reqable 未返回抓包记录（请确认 Reqable 正在运行且开启抓包，并已打开过腾讯云控制台页面）",
                ),
            );
        },
    };
    let mut list: Vec<i64> = Vec::new();
    let mut i: usize = 0;
    while i < items.len()
        invariant
            i <= items@.len(),
            list@ == capture_ids_of(items@.take(i as int)),
        decreases items.len() - i,
    {
        assert(items@.take(i + 1).drop_last() == items@.take(i as int));
        assert(items@.take(i + 1).last() == items@[i as int]);
        let id = match &items[i] {
            Json::Number(n) => n.int,
            Json::Object(_) => match items[i].get("id") {
                Some(x) => x.as_i64(),
                None => None,
            },
            _ => None,
        };
        match id {
            Some(v) => list.push(v),
            None => {},
        }
        i = i + 1;
    }
    assert(items@.take(items@.len() as int) == items@);
    if list.len() == 0 {
        return Err(copy_str("Reqable 抓包里没有找到控制台请求（请先在浏览器打开一次腾讯云控制台页面）"));
    }
    Ok(list)
}

/// The ids to look at, newest first: the last 40 of the list, reversed.
pub fn scan_order(list: &Vec<i64>) -> (r: Vec<i64>)
    ensures
        r@.len() == if list@.len() < 40 {
            list@.len()
        } else {
            40
        },
        forall|k: int| 0 <= k < r@.len() ==> #[trigger] r@[k] == list@[list@.len() - 1 - k],
{
    let n = list.len();
    let mut r: Vec<i64> = Vec::new();
    while r.len() < n && r.len() < 40
        invariant
            n == list@.len(),
            r@.len() <= n,
            r@.len() <= 40,
            forall|k: int| 0 <= k < r@.len() ==> #[trigger] r@[k] == list@[n - 1 - k],
        decreases n - r@.len(),
    {
        let k = r.len();
        r.push(list[n - 1 - k]);
    }
    r
}

/// `pick(v, key)`: for a string, the run of `[A-Za-z0-9_-]` right after the
/// first `key` in it (possibly empty); nothing for other values or when the
/// key is absent.
pub open spec fn pick_of(v: Json, key: Seq<char>) -> Option<Seq<char>> {
    match str_of(v) {
        Some(s) => token_after(s, key),
        None => None,
    }
}

/// `pick(v, key)`.
pub fn pick(v: &Json, key: &str) -> (r: Option<String>)
    ensures
        match r {
            Some(t) => pick_of(*v, key@) == Some(t@),
            None => pick_of(*v, key@) is None,
        },
{
    match v.as_str() {
        Some(s) => {
            let sv = chars_of(s);
            let kv = chars_of(key);
            match token_bounds(&sv, &kv) {
                Some((a, b)) => Some(string_of_range(&sv, a, b)),
                None => None,
            }
        },
        None => None,
    }
}

/// `pick(full, key)`, empty when absent.
pub open spec fn pick_text(full: Seq<char>, key: Seq<char>) -> Seq<char> {
    match token_after(full, key) {
        Some(t) => t,
        None => Seq::<char>::empty(),
    }
}

/// `pick` on a string, empty when absent.
fn pick_str(full: &str, key: &str) -> (r: String)
    ensures
        r@ == pick_text(full@, key@),
{
    let sv = chars_of(full);
    let kv = chars_of(key);
    match token_bounds(&sv, &kv) {
        Some((a, b)) => string_of_range(&sv, a, b),
        None => String::new(),
    }
}

/// The address a record was made for: its `url`, else its request's `path`.
pub open spec fn record_target(rec: Json) -> Seq<char> {
    let url = str_or_empty(at(rec, "url"@));
    if url.len() == 0 {
        str_or_empty(at(at(rec, "request"@), "path"@))
    } else {
        url
    }
}

/// The trimmed values of the `cookie` headers (any case), in order.
pub open spec fn cookie_values(headers: Seq<Json>) -> Seq<Seq<char>>
    decreases headers.len(),
{
    if headers.len() == 0 {
        Seq::<Seq<char>>::empty()
    } else {
        let h = headers.last();
        let rest = cookie_values(headers.drop_last());
        match str_of(at(h, "name"@)) {
            Some(n) => if eq_ignore_case(n, "cookie"@) {
                match str_of(at(h, "value"@)) {
                    Some(v) => rest.push(trim(v)),
                    None => rest,
                }
            } else {
                rest
            },
            None => rest,
        }
    }
}

/// The cookie headers of a record's request.
pub open spec fn record_cookies(rec: Json) -> Seq<Seq<char>> {
    match items_of(at(at(rec, "request"@), "headers"@)) {
        Some(hs) => cookie_values(hs),
        None => Seq::<Seq<char>>::empty(),
    }
}

/// Whether a record is a console request that carries the login.
pub open spec fn gives_login(rec: Json) -> bool {
    let full = record_target(rec);
    &&& has_sub(full, "csrfCode"@)
    &&& has_sub(full, "tencent.com"@)
    &&& record_cookies(rec).len() > 0
    &&& pick_text(full, "csrfCode="@).len() > 0
    &&& pick_text(full, "uin="@).len() > 0
}

/// The trimmed cookie headers of a list of headers.
fn cookies_in(hs: &Vec<Json>) -> (r: Vec<String>)
    ensures
        views(r@) == cookie_values(hs@),
{
    let mut r: Vec<String> = Vec::new();
    let mut i: usize = 0;
    while i < hs.len()
        invariant
            i <= hs@.len(),
            views(r@) == cookie_values(hs@.take(i as int)),
        decreases hs.len() - i,
    {
        assert(hs@.take(i + 1).drop_last() == hs@.take(i as int));
        assert(hs@.take(i + 1).last() == hs@[i as int]);
        let h = &hs[i];
        match h.str_at("name") {
            Some(n) => {
                if eq_ignore_ascii_case(n, "cookie") {
                    match h.str_at("value") {
                        Some(v) => {
                            let ghost before = views(r@);
                            r.push(trimmed(v));
                            assert(views(r@) == before.push(trim(v@)));
                        },
                        None => {},
                    }
                }
            },
            None => {},
        }
        i = i + 1;
    }
    assert(hs@.take(hs@.len() as int) == hs@);
    r
}

/// The login that a captured request gives, when it is a console request
/// with a cookie, a csrf code and an account id.
pub fn login_info_from_record(rec: &Json) -> (r: Option<LoginInfo>)
    ensures
        match r {
            None => !gives_login(*rec),
            Some(info) => {
                let full = record_target(*rec);
                &&& gives_login(*rec)
                &&& info.cookie@ == joined(record_cookies(*rec), "; "@)
                &&& info.uin@ == pick_text(full, "uin="@)
                &&& info.owner_uin@ == pick_text(full, "ownerUin="@)
                &&& info.csrf_code@ == pick_text(full, "csrfCode="@)
                &&& info.source@ == full.take(
                    if full.len() < 160 {
                        full.len() as int
                    } else {
                        160
                    },
                )
            },
        },
{
    let url: &str = match rec.str_at("url") {
        Some(u) => u,
        None => "",
    };
    let full = if url.is_empty() {
        match rec.at("request") {
            Some(req) => match req.str_at("path") {
                Some(p) => copy_str(p),
                None => String::new(),
            },
            None => String::new(),
        }
    } else {
        copy_str(url)
    };
    proof {
        reveal_strlit("");
    }
    assert(full@ == record_target(*rec));
    if !contains(full.as_str(), "csrfCode") || !contains(full.as_str(), "tencent.com") {
        return None;
    }
    let cookies = match rec.at("request") {
        Some(req) => match req.at("headers") {
            Some(h) => match h.as_array() {
                Some(hs) => cookies_in(hs),
                None => Vec::new(),
            },
            None => Vec::new(),
        },
        None => Vec::new(),
    };
    assert(views(cookies@) == record_cookies(*rec));
    if cookies.len() == 0 {
        return None;
    }
    let csrf = pick_str(full.as_str(), "csrfCode=");
    let uin = pick_str(full.as_str(), "uin=");
    let owner = pick_str(full.as_str(), "ownerUin=");
    if csrf.as_str().is_empty() || uin.as_str().is_empty() {
        return None;
    }
    Some(
        LoginInfo {
            cookie: join(&cookies, "; "),
            uin,
            owner_uin: owner,
            csrf_code: csrf,
            source: take_chars(full.as_str(), 160),
        },
    )
}

} // verus!
