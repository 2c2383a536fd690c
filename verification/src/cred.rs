//! Deciding whether an error means "the session is gone, log in again".
//!
//! Low layers mark such errors with [`cred`]; upper layers use
//! [`is_session_invalid`] to decide whether to bring up the QR login. A
//! structured marker comes first, known message fragments are the fallback.
//!
//! The old gateway (`/cgi/capi`) rejecting its short-lived token is *not* a
//! session failure: those errors go through [`is_capi_token_stale`] and only
//! decide whether to retry with a fresh token.
use crate::text::{chars_of, contains, find, has_sub, occurs_at, push_str, remove_all, remove_pattern, string_of};
use vstd::prelude::*;

verus! {

/// The invisible marker put in front of errors that need a new login.
pub open spec fn mark() -> Seq<char> {
    seq!['\u{1}', 'C', 'R', 'E', 'D', '\u{1}']
}

/// The marker as a string.
pub fn marker() -> (s: String)
    ensures
        s@ == mark(),
{
    let v: Vec<char> = vec!['\u{1}', 'C', 'R', 'E', 'D', '\u{1}'];
    string_of(&v)
}

/// The marker's characters.
fn marker_chars() -> (v: Vec<char>)
    ensures
        v@ == mark(),
{
    vec!['\u{1}', 'C', 'R', 'E', 'D', '\u{1}']
}

/// Marks an error as "needs a new login".
pub fn cred(msg: &str) -> (s: String)
    ensures
        s@ == mark() + msg@,
{
    let mut s = marker();
    push_str(&mut s, msg);
    s
}

/// Whether the error carries the login marker.
pub fn is_cred(e: &str) -> (b: bool)
    ensures
        b == has_sub(e@, mark()),
{
    let ev = chars_of(e);
    let m = marker_chars();
    find(&ev, &m).is_some()
}

/// The error without the marker, for the UI and the log.
pub fn strip(e: &str) -> (s: String)
    ensures
        s@ == remove_all(e@, mark()),
{
    let m = marker();
    remove_pattern(e, m.as_str())
}

/// A transport or network failure, timeouts included: these never trigger a
/// login.
pub open spec fn transport_text(e: Seq<char>) -> bool {
    ||| has_sub(e, "请求失败"@)
    ||| has_sub(e, "超时"@)
    ||| has_sub(e, "响应非 JSON"@)
    ||| has_sub(e, "连接调试端口"@)
    ||| has_sub(e, "调试通道"@)
    ||| has_sub(e, "连接不上调试端口"@)
}

/// Whether the error is a transport or network failure.
pub fn is_transport(e: &str) -> (b: bool)
    ensures
        b == transport_text(e@),
{
    contains(e, "请求失败") || contains(e, "超时") || contains(e, "响应非 JSON") || contains(e, "连接调试端口") || contains(
        e,
        "调试通道",
    ) || contains(e, "连接不上调试端口")
}

/// The server said the session is invalid: the console's `code=9`, an
/// explicit HTTP 401 or 403, or one of the known messages. `code=1216` is left
/// out on purpose: that is the old gateway's token code, not a dead session.
pub open spec fn server_invalid_text(e: Seq<char>) -> bool {
    ||| has_sub(e, "code=9"@)
    ||| has_sub(e, "HTTP 401"@)
    ||| has_sub(e, "HTTP 403"@)
    ||| has_sub(e, "登录态过期"@)
    ||| has_sub(e, "登录态验证失败"@)
    ||| has_sub(e, "验证CSRF失败"@)
    ||| has_sub(e, "请重新登录"@)
}

/// Whether the server's answer says the session is invalid.
pub fn server_says_invalid(e: &str) -> (b: bool)
    ensures
        b == server_invalid_text(e@),
{
    contains(e, "code=9") || contains(e, "HTTP 401") || contains(e, "HTTP 403") || contains(
        e,
        "登录态过期",
    ) || contains(e, "登录态验证失败") || contains(
        e,
        "验证CSRF失败",
    ) || contains(e, "请重新登录")
}

/// The old gateway answered with a non-zero code: it rejected this request.
pub open spec fn capi_stale_text(e: Seq<char>) -> bool {
    has_sub(e, "旧网关接口错误"@)
}

/// Whether the old gateway rejected the request.
pub fn is_capi_token_stale(e: &str) -> (b: bool)
    ensures
        b == capi_stale_text(e@),
{
    contains(e, "旧网关接口错误")
}

/// "The session is invalid, log in again": never for transport errors;
/// otherwise when marked or when the server says so.
pub open spec fn session_invalid_text(e: Seq<char>) -> bool {
    !transport_text(e) && (has_sub(e, mark()) || server_invalid_text(e))
}

/// Whether the error means the session is invalid.
pub fn is_session_invalid(e: &str) -> (b: bool)
    ensures
        b == session_invalid_text(e@),
        b ==> !transport_text(e@),
{
    if is_transport(e) {
        return false;
    }
    is_cred(e) || server_says_invalid(e)
}

/// A marked error is recognised as marked, and it means an invalid session
/// unless its text is a transport failure.
pub proof fn law_cred_is_recognised(msg: Seq<char>)
    ensures
        has_sub(mark() + msg, mark()),
        session_invalid_text(mark() + msg) == !transport_text(mark() + msg),
{
    let s = mark() + msg;
    assert(s.subrange(0, mark().len() as int) == mark());
    assert(occurs_at(s, mark(), 0));
}

/// A transport or network failure never asks for a login, marked or not.
pub proof fn law_transport_never_invalid(e: Seq<char>)
    ensures
        transport_text(e) ==> !session_invalid_text(e),
{
}

/// Removing the marker from a marked error gives the same text as removing it
/// from the message alone; a message without the marker comes back unchanged.
pub proof fn law_strip_undoes_cred(msg: Seq<char>)
    ensures
        remove_all(mark() + msg, mark()) == remove_all(msg, mark()),
        !has_sub(msg, mark()) ==> remove_all(msg, mark()) == msg,
{
    let s = mark() + msg;
    assert(s.take(mark().len() as int) == mark());
    assert(s.skip(mark().len() as int) == msg);
    if !has_sub(msg, mark()) {
        lemma_remove_absent(msg, mark());
    }
}

/// Removing a pattern that does not occur changes nothing.
pub proof fn lemma_remove_absent(s: Seq<char>, p: Seq<char>)
    requires
        !has_sub(s, p),
    ensures
        remove_all(s, p) == s,
    decreases s.len(),
{
    if p.len() == 0 || s.len() < p.len() {
    } else {
        if s.take(p.len() as int) == p {
            assert(s.subrange(0, p.len() as int) == s.take(p.len() as int));
            assert(occurs_at(s, p, 0));
        }
        let t = s.drop_first();
        assert(!has_sub(t, p)) by {
            if has_sub(t, p) {
                let i = choose|i: int| occurs_at(t, p, i);
                assert(s.subrange(i + 1, i + 1 + p.len()) == t.subrange(i, i + p.len()));
                assert(occurs_at(s, p, i + 1));
            }
        }
        lemma_remove_absent(t, p);
        assert(s == seq![s[0]] + t);
    }
}

} // verus!
