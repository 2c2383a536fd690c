//! The decisions taken while the application talks to the login window
//! through the DevTools protocol (CDP).
//!
//! The application owns the socket and the clock: it asks the library what
//! to send, hands each message it reads back to the library, and does what
//! the answer says. Times are milliseconds of a monotonic clock.
use crate::json::{at, field, str_of, str_eq, uint_of, Json};
use crate::login::{
    build_cookie, cookie_complete, cookie_has_key, cookie_has_uin, cookie_header, cookie_is_complete,
    extract, extract_id, extract_id_of, extract_of,
};
use crate::text::{
    chars_of, contains, copy_str, has_prefix, has_sub, split_on, split_str, starts_with, string_of,
    string_of_range, trim, trim_chars, vec_range,
};
use vstd::prelude::*;

verus! {

// ---------------------------------------------------------------------------
// Ids read back from the cookie
// ---------------------------------------------------------------------------

/// How many times `c` starts `s`.
pub open spec fn lead_count(s: Seq<char>, c: char) -> nat
    decreases s.len(),
{
    if s.len() > 0 && s[0] == c {
        1 + lead_count(s.drop_first(), c)
    } else {
        0
    }
}

/// How many times `c` ends `s`.
pub open spec fn trail_count(s: Seq<char>, c: char) -> nat
    decreases s.len(),
{
    if s.len() > 0 && s.last() == c {
        1 + trail_count(s.drop_last(), c)
    } else {
        0
    }
}

/// `s.trim_start_matches(c)`.
pub open spec fn trim_start_char(s: Seq<char>, c: char) -> Seq<char> {
    s.skip(lead_count(s, c) as int)
}

/// `s.trim_end_matches(c)`.
pub open spec fn trim_end_char(s: Seq<char>, c: char) -> Seq<char> {
    s.take(s.len() - trail_count(s, c))
}

proof fn lemma_lead_count(s: Seq<char>, c: char, k: nat)
    requires
        k <= s.len(),
        forall|i: int| 0 <= i < k ==> #[trigger] s[i] == c,
        k < s.len() ==> s[k as int] != c,
    ensures
        lead_count(s, c) == k,
    decreases s.len(),
{
    if s.len() > 0 && s[0] == c {
        let t = s.drop_first();
        assert forall|i: int| 0 <= i < k - 1 implies #[trigger] t[i] == c by {
            assert(t[i] == s[i + 1]);
        }
        if k - 1 < t.len() {
            assert(t[k - 1] == s[k as int]);
        }
        lemma_lead_count(t, c, (k - 1) as nat);
    }
}

proof fn lemma_trail_count(s: Seq<char>, c: char, k: nat)
    requires
        k <= s.len(),
        forall|i: int| s.len() - k <= i < s.len() ==> #[trigger] s[i] == c,
        k < s.len() ==> s[s.len() - 1 - k] != c,
    ensures
        trail_count(s, c) == k,
    decreases s.len(),
{
    if s.len() > 0 && s.last() == c {
        let t = s.drop_last();
        assert forall|i: int| t.len() - (k - 1) <= i < t.len() implies #[trigger] t[i] == c by {
            assert(t[i] == s[i]);
        }
        if k - 1 < t.len() {
            assert(t[t.len() - 1 - (k - 1)] == s[s.len() - 1 - k]);
        }
        lemma_trail_count(t, c, (k - 1) as nat);
    }
}

/// `v.trim_start_matches(c)` on characters.
pub fn trim_start_matches(v: &[char], c: char) -> (r: Vec<char>)
    ensures
        r@ == trim_start_char(v@, c),
{
    let mut i: usize = 0;
    while i < v.len() && v[i] == c
        invariant
            i <= v@.len(),
            forall|k: int| 0 <= k < i ==> #[trigger] v@[k] == c,
        decreases v.len() - i,
    {
        i = i + 1;
    }
    proof {
        lemma_lead_count(v@, c, i as nat);
    }
    let r = vec_range(v, i, v.len());
    assert(r@ == v@.skip(i as int));
    r
}

/// `v.trim_end_matches(c)` on characters.
pub fn trim_end_matches(v: &[char], c: char) -> (r: Vec<char>)
    ensures
        r@ == trim_end_char(v@, c),
{
    let n = v.len();
    let mut k: usize = 0;
    while k < n && v[n - 1 - k] == c
        invariant
            n == v@.len(),
            k <= n,
            forall|i: int| n - k <= i < n ==> #[trigger] v@[i] == c,
        decreases n - k,
    {
        k = k + 1;
    }
    proof {
        lemma_trail_count(v@, c, k as nat);
    }
    let r = vec_range(v, 0, n - k);
    assert(r@ == v@.take(n - k));
    r
}

/// The rest of the first piece (trimmed) that starts with `prefix`.
pub open spec fn value_after(pieces: Seq<Seq<char>>, prefix: Seq<char>) -> Option<Seq<char>>
    decreases pieces.len(),
{
    if pieces.len() == 0 {
        None
    } else {
        let p = trim(pieces[0]);
        if starts_with(p, prefix) {
            Some(p.skip(prefix.len() as int))
        } else {
            value_after(pieces.drop_first(), prefix)
        }
    }
}

/// The account id of a cookie: the first `uin=` piece without its leading `o`s.
pub open spec fn cookie_uin(cookie: Seq<char>) -> Seq<char> {
    match value_after(split_on(cookie, ';'), "uin="@) {
        Some(v) => trim_start_char(v, 'o'),
        None => Seq::<char>::empty(),
    }
}

/// The owner id of a cookie: the first `ownerUin=` piece without its
/// leading `O`s and trailing `G`s.
pub open spec fn cookie_owner_uin(cookie: Seq<char>) -> Seq<char> {
    match value_after(split_on(cookie, ';'), "ownerUin="@) {
        Some(v) => trim_end_char(trim_start_char(v, 'O'), 'G'),
        None => Seq::<char>::empty(),
    }
}

/// The rest of the first piece of `cookie` (trimmed) that starts with `prefix`.
fn cookie_value_after(cookie: &str, prefix: &str) -> (r: Option<Vec<char>>)
    ensures
        match r {
            Some(v) => value_after(split_on(cookie@, ';'), prefix@) == Some(v@),
            None => value_after(split_on(cookie@, ';'), prefix@) is None,
        },
{
    let pieces = split_str(cookie, ';');
    let p = chars_of(prefix);
    let ghost all = split_on(cookie@, ';');
    let mut i: usize = 0;
    assert(all.skip(0) == all);
    while i < pieces.len()
        invariant
            i <= pieces@.len(),
            p@ == prefix@,
            all == split_on(cookie@, ';'),
            pieces@.len() == all.len(),
            forall|j: int| 0 <= j < pieces@.len() ==> (#[trigger] pieces@[j])@ == all[j],
            value_after(all, prefix@) == value_after(all.skip(i as int), prefix@),
        decreases pieces.len() - i,
    {
        assert(all.skip(i as int).drop_first() == all.skip(i + 1));
        assert(all.skip(i as int)[0] == all[i as int]);
        let t = trim_chars(&pieces[i]);
        if has_prefix(&t, &p) {
            return Some(vec_range(&t, p.len(), t.len()));
        }
        i = i + 1;
    }
    None
}

/// The account id that the cookie holds (see `cookie_uin`).
pub fn uin_from_cookie(cookie: &str) -> (r: String)
    ensures
        r@ == cookie_uin(cookie@),
{
    match cookie_value_after(cookie, "uin=") {
        Some(v) => string_of(&trim_start_matches(&v, 'o')),
        None => String::new(),
    }
}

/// The owner id that the cookie holds (see `cookie_owner_uin`).
pub fn owner_uin_from_cookie(cookie: &str) -> (r: String)
    ensures
        r@ == cookie_owner_uin(cookie@),
{
    match cookie_value_after(cookie, "ownerUin=") {
        Some(v) => {
            let a = trim_start_matches(&v, 'O');
            string_of(&trim_end_matches(&a, 'G'))
        },
        None => String::new(),
    }
}


// ---------------------------------------------------------------------------
// Waiting for the login
// ---------------------------------------------------------------------------

/// A command for the login window, with its message id.
pub enum LoginCommand {
    /// `Network.enable`.
    NetworkEnable(u64),
    /// `Network.getAllCookies`.
    GetAllCookies(u64),
    /// `Runtime.evaluate` of `quick_login_probe()`.
    ProbeQuickLogin(u64),
    /// `Runtime.evaluate` of `quick_login_click()`.
    ClickQuickLogin(u64),
    /// `Input.dispatchMouseEvent` `mousePressed` at `(x, y)`.
    MousePressed(u64, i64, i64),
    /// `Input.dispatchMouseEvent` `mouseReleased` at `(x, y)`.
    MouseReleased(u64, i64, i64),
}

/// What the watch over the login window knows.
pub struct LoginWatch {
    /// Click the quick login button when the page shows one.
    pub auto_quick_login: bool,
    /// When the wait ends.
    pub deadline: u64,
    /// The id of the next command.
    pub next_id: u64,
    pub csrf_code: String,
    pub uin: String,
    pub owner_uin: String,
    pub cookie: String,
    /// The cookie snapshot under way.
    pub cookie_req_id: Option<u64>,
    pub last_cookie_poll: u64,
    /// When the session was first seen ready.
    pub settle_start: Option<u64>,
    /// The last cookie snapshot, asked once the session settled.
    pub final_req: Option<u64>,
    pub last_snapshot: String,
    /// Since when the snapshots have not changed.
    pub stable_since: Option<u64>,
    pub quick_native_done: bool,
    pub quick_mouse_done: bool,
    pub quick_clicked_at: Option<u64>,
    pub quick_coords: Option<(i64, i64)>,
    pub quick_probe_id: Option<u64>,
    pub last_quick_probe: u64,
}

/// The watch's state as values.
pub struct LoginWatchView {
    pub auto_quick_login: bool,
    pub deadline: u64,
    pub next_id: u64,
    pub csrf_code: Seq<char>,
    pub uin: Seq<char>,
    pub owner_uin: Seq<char>,
    pub cookie: Seq<char>,
    pub cookie_req_id: Option<u64>,
    pub last_cookie_poll: u64,
    pub settle_start: Option<u64>,
    pub final_req: Option<u64>,
    pub last_snapshot: Seq<char>,
    pub stable_since: Option<u64>,
    pub quick_native_done: bool,
    pub quick_mouse_done: bool,
    pub quick_clicked_at: Option<u64>,
    pub quick_coords: Option<(i64, i64)>,
    pub quick_probe_id: Option<u64>,
    pub last_quick_probe: u64,
}

impl View for LoginWatch {
    type V = LoginWatchView;

    open spec fn view(&self) -> LoginWatchView {
        LoginWatchView {
            auto_quick_login: self.auto_quick_login,
            deadline: self.deadline,
            next_id: self.next_id,
            csrf_code: self.csrf_code@,
            uin: self.uin@,
            owner_uin: self.owner_uin@,
            cookie: self.cookie@,
            cookie_req_id: self.cookie_req_id,
            last_cookie_poll: self.last_cookie_poll,
            settle_start: self.settle_start,
            final_req: self.final_req,
            last_snapshot: self.last_snapshot@,
            stable_since: self.stable_since,
            quick_native_done: self.quick_native_done,
            quick_mouse_done: self.quick_mouse_done,
            quick_clicked_at: self.quick_clicked_at,
            quick_coords: self.quick_coords,
            quick_probe_id: self.quick_probe_id,
            last_quick_probe: self.last_quick_probe,
        }
    }
}

/// The session read from the login window.
pub struct LoginResult {
    pub cookie: String,
    pub uin: String,
    pub owner_uin: String,
    pub csrf_code: String,
    /// Whether the quick login button was clicked by the tool.
    pub auto_quick_clicked: bool,
}

/// What to do next.
pub enum LoginStep {
    /// Send these commands, then wait for the next message.
    Wait(Vec<LoginCommand>),
    /// The wait is over without a session.
    Failed(String),
    /// The session is complete.
    Done(LoginResult),
}

/// More than `ms` milliseconds went by from `t` to `now`.
pub open spec fn elapsed_over(now: u64, t: u64, ms: u64) -> bool {
    now > t && now - t > ms
}

fn elapsed(now: u64, t: u64, ms: u64) -> (b: bool)
    ensures
        b == elapsed_over(now, t, ms),
{
    now > t && now - t > ms
}

/// A cookie snapshot every 1.5 s until the last one is asked.
pub open spec fn poll_step(s: LoginWatchView, now: u64) -> (LoginWatchView, Seq<LoginCommand>) {
    if s.final_req is None && elapsed_over(now, s.last_cookie_poll, 1500) {
        (
            LoginWatchView {
                next_id: (s.next_id + 1) as u64,
                cookie_req_id: Some(s.next_id),
                last_cookie_poll: now,
                ..s
            },
            seq![LoginCommand::GetAllCookies(s.next_id)],
        )
    } else {
        (s, Seq::<LoginCommand>::empty())
    }
}

/// Once a csrf code and an account id are known, the last snapshot is asked
/// when the cookie is complete and has been stable 1.5 s, or 25 s after the
/// session was first seen ready.
pub open spec fn settle_step(s: LoginWatchView, now: u64) -> (LoginWatchView, Seq<LoginCommand>) {
    if s.final_req is None && s.csrf_code.len() > 0 && cookie_has_key(s.cookie, "uin"@) {
        let start = match s.settle_start {
            Some(t) => t,
            None => now,
        };
        let s1 = LoginWatchView { settle_start: Some(start), ..s };
        let stable = match s.stable_since {
            Some(t) => elapsed_over(now, t, 1500),
            None => false,
        };
        if cookie_complete(s.cookie) && (stable || elapsed_over(now, start, 25000)) {
            (
                LoginWatchView {
                    next_id: (s.next_id + 1) as u64,
                    final_req: Some(s.next_id),
                    ..s1
                },
                seq![LoginCommand::GetAllCookies(s.next_id)],
            )
        } else {
            (s1, Seq::<LoginCommand>::empty())
        }
    } else {
        (s, Seq::<LoginCommand>::empty())
    }
}

/// A look for the quick login button every 1.5 s, while that is on and the
/// mouse was not used yet.
pub open spec fn probe_step(s: LoginWatchView, now: u64) -> (LoginWatchView, Seq<LoginCommand>) {
    if s.auto_quick_login && !s.quick_mouse_done && elapsed_over(now, s.last_quick_probe, 1500) {
        (
            LoginWatchView {
                last_quick_probe: now,
                next_id: (s.next_id + 1) as u64,
                quick_probe_id: Some(s.next_id),
                ..s
            },
            seq![LoginCommand::ProbeQuickLogin(s.next_id)],
        )
    } else {
        (s, Seq::<LoginCommand>::empty())
    }
}

/// A real mouse click on the button, once, 5 s after the script's click
/// when no account id has appeared and the button's place is known.
pub open spec fn mouse_step(s: LoginWatchView, now: u64) -> (LoginWatchView, Seq<LoginCommand>) {
    let late = match s.quick_clicked_at {
        Some(t) => elapsed_over(now, t, 5000),
        None => false,
    };
    if s.auto_quick_login && s.quick_native_done && !s.quick_mouse_done && late && !cookie_has_key(
        s.cookie,
        "uin"@,
    ) && s.quick_coords is Some {
        let (x, y) = s.quick_coords->0;
        (
            LoginWatchView { quick_mouse_done: true, next_id: (s.next_id + 2) as u64, ..s },
            seq![
                LoginCommand::MousePressed(s.next_id, x, y),
                LoginCommand::MouseReleased((s.next_id + 1) as u64, x, y),
            ],
        )
    } else {
        (s, Seq::<LoginCommand>::empty())
    }
}

/// One turn of the loop before a message is awaited.
pub open spec fn tick_step(s: LoginWatchView, now: u64) -> (LoginWatchView, Seq<LoginCommand>) {
    let (a, ca) = poll_step(s, now);
    let (b, cb) = settle_step(a, now);
    let (c, cc) = probe_step(b, now);
    let (d, cd) = mouse_step(c, now);
    (d, ca + cb + cc + cd)
}

/// The message when the wait ran out.
pub open spec fn login_timeout_text(cookie: Seq<char>) -> Seq<char> {
    if cookie_has_key(cookie, "uin"@) {
        "等待登录超时：请在登录窗口中完成扫码登录"@
    } else {
        "等待登录超时：未检测到登录态（Cookie 里没有 uin），请在登录窗口中完成扫码登录"@
    }
}

/// The message when the last snapshot is not a complete session.
pub open spec fn incomplete_login_text() -> Seq<char> {
    "控制台会话没有建立完整（Cookie 缺 ownerUin），本次不覆盖已有会话，请重新登录"@
}

/// The request event `v` is `Network.requestWillBeSent`.
pub open spec fn is_request_event(v: Json) -> bool {
    str_of(at(v, "method"@)) == Some("Network.requestWillBeSent"@)
}

/// The URL of a request event.
pub open spec fn event_url(v: Json) -> Option<Seq<char>> {
    str_of(at(at(at(v, "params"@), "request"@), "url"@))
}

/// A console request fills the ids that are still empty, and the csrf code
/// from an API request (`/_api/` or `/cgi/capi`).
pub open spec fn event_step(s: LoginWatchView, v: Json) -> LoginWatchView {
    match event_url(v) {
        Some(url) => if has_sub(url, "console.cloud.tencent.com"@) {
            LoginWatchView {
                uin: if s.uin.len() == 0 {
                    extract_id_of(url, "uin="@)
                } else {
                    s.uin
                },
                owner_uin: if s.owner_uin.len() == 0 {
                    extract_id_of(url, "ownerUin="@)
                } else {
                    s.owner_uin
                },
                csrf_code: if s.csrf_code.len() == 0 && has_sub(url, "csrfCode="@) && (has_sub(
                    url,
                    "/_api/"@,
                ) || has_sub(url, "/cgi/capi"@)) {
                    match extract_of(url, "csrfCode="@) {
                        Some(t) => t,
                        None => Seq::<char>::empty(),
                    }
                } else {
                    s.csrf_code
                },
                ..s
            }
        } else {
            s
        },
        None => s,
    }
}

/// The id of an answer.
pub open spec fn reply_id(v: Json) -> Option<u64> {
    match field(v, "id"@) {
        Some(x) => uint_of(x),
        None => None,
    }
}

/// The cookie after a snapshot: the snapshot when it is not empty.
pub open spec fn snapshot_cookie(s: LoginWatchView, v: Json) -> Seq<char> {
    if cookie_header(v).len() > 0 {
        cookie_header(v)
    } else {
        s.cookie
    }
}

/// A periodic snapshot: a new cookie restarts the stability clock.
pub open spec fn snapshot_step(s: LoginWatchView, v: Json, id: u64, now: u64) -> LoginWatchView {
    if s.cookie_req_id == Some(id) {
        let c = cookie_header(v);
        let s1 = if c.len() > 0 {
            if c != s.last_snapshot {
                LoginWatchView { last_snapshot: c, stable_since: Some(now), cookie: c, ..s }
            } else {
                LoginWatchView { cookie: c, ..s }
            }
        } else {
            s
        };
        LoginWatchView { cookie_req_id: None, ..s1 }
    } else {
        s
    }
}

/// The value that a `Runtime.evaluate` answer gave back.
pub open spec fn eval_value(v: Json) -> Option<Seq<char>> {
    str_of(at(at(at(v, "result"@), "result"@), "value"@))
}

/// The probe found the button.
pub open spec fn probe_found(v: Json) -> bool {
    match eval_value(v) {
        Some(val) => starts_with(val, "{\"status\":\"found\""@),
        None => false,
    }
}

/// The answer of the probe: the button's place (read by the application
/// from the answer, `coords`) is kept, and the first time the button is
/// found the script clicks it.
pub open spec fn probe_reply_step(
    s: LoginWatchView,
    v: Json,
    id: u64,
    now: u64,
    coords: Option<(i64, i64)>,
) -> (LoginWatchView, Seq<LoginCommand>) {
    if s.quick_probe_id == Some(id) {
        let s1 = LoginWatchView { quick_probe_id: None, ..s };
        if probe_found(v) {
            let s2 = match coords {
                Some(xy) => LoginWatchView { quick_coords: Some(xy), ..s1 },
                None => s1,
            };
            if !s2.quick_native_done {
                (
                    LoginWatchView {
                        quick_native_done: true,
                        quick_clicked_at: Some(now),
                        next_id: (s2.next_id + 1) as u64,
                        ..s2
                    },
                    seq![LoginCommand::ClickQuickLogin(s2.next_id)],
                )
            } else {
                (s2, Seq::<LoginCommand>::empty())
            }
        } else {
            (s1, Seq::<LoginCommand>::empty())
        }
    } else {
        (s, Seq::<LoginCommand>::empty())
    }
}

/// An answer that is not the last snapshot.
pub open spec fn reply_step(
    s: LoginWatchView,
    v: Json,
    id: u64,
    now: u64,
    coords: Option<(i64, i64)>,
) -> (LoginWatchView, Seq<LoginCommand>) {
    probe_reply_step(snapshot_step(s, v, id, now), v, id, now, coords)
}

impl LoginWatch {
    /// The watch right after `Network.enable` (id 1) was sent at `now`,
    /// waiting at most `timeout_ms`.
    pub fn new(now: u64, timeout_ms: u64, auto_quick_login: bool) -> (w: LoginWatch)
        requires
            now + timeout_ms <= u64::MAX,
        ensures
            w@ == (LoginWatchView {
                auto_quick_login,
                deadline: (now + timeout_ms) as u64,
                next_id: 2,
                csrf_code: Seq::<char>::empty(),
                uin: Seq::<char>::empty(),
                owner_uin: Seq::<char>::empty(),
                cookie: Seq::<char>::empty(),
                cookie_req_id: None,
                last_cookie_poll: now,
                settle_start: None,
                final_req: None,
                last_snapshot: Seq::<char>::empty(),
                stable_since: None,
                quick_native_done: false,
                quick_mouse_done: false,
                quick_clicked_at: None,
                quick_coords: None,
                quick_probe_id: None,
                last_quick_probe: now,
            }),
    {
        LoginWatch {
            auto_quick_login,
            deadline: now + timeout_ms,
            next_id: 2,
            csrf_code: String::new(),
            uin: String::new(),
            owner_uin: String::new(),
            cookie: String::new(),
            cookie_req_id: None,
            last_cookie_poll: now,
            settle_start: None,
            final_req: None,
            last_snapshot: String::new(),
            stable_since: None,
            quick_native_done: false,
            quick_mouse_done: false,
            quick_clicked_at: None,
            quick_coords: None,
            quick_probe_id: None,
            last_quick_probe: now,
        }
    }

    /// The command sent before the watch starts.
    pub fn opening_command() -> (c: LoginCommand)
        ensures
            c == LoginCommand::NetworkEnable(1),
    {
        LoginCommand::NetworkEnable(1)
    }

    fn poll(&mut self, now: u64, out: &mut Vec<LoginCommand>)
        requires
            old(self).next_id < u64::MAX,
        ensures
            final(self)@ == poll_step(old(self)@, now).0,
            final(out)@ == old(out)@ + poll_step(old(self)@, now).1,
    {
        if self.final_req.is_none() && elapsed(now, self.last_cookie_poll, 1500) {
            let id = self.next_id;
            self.next_id = id + 1;
            self.cookie_req_id = Some(id);
            self.last_cookie_poll = now;
            out.push(LoginCommand::GetAllCookies(id));
        } else {
            assert(old(out)@ + Seq::<LoginCommand>::empty() == old(out)@);
        }
    }

    fn settle(&mut self, now: u64, out: &mut Vec<LoginCommand>)
        requires
            old(self).next_id < u64::MAX,
        ensures
            final(self)@ == settle_step(old(self)@, now).0,
            final(out)@ == old(out)@ + settle_step(old(self)@, now).1,
    {
        assert(old(out)@ + Seq::<LoginCommand>::empty() == old(out)@);
        if self.final_req.is_none() && !self.csrf_code.as_str().is_empty() && cookie_has_uin(
            self.cookie.as_str(),
        ) {
            let start = match self.settle_start {
                Some(t) => t,
                None => now,
            };
            self.settle_start = Some(start);
            let stable = match self.stable_since {
                Some(t) => elapsed(now, t, 1500),
                None => false,
            };
            if cookie_is_complete(self.cookie.as_str()) && (stable || elapsed(now, start, 25000)) {
                let id = self.next_id;
                self.next_id = id + 1;
                self.final_req = Some(id);
                out.push(LoginCommand::GetAllCookies(id));
            }
        }
    }

    fn probe(&mut self, now: u64, out: &mut Vec<LoginCommand>)
        requires
            old(self).next_id < u64::MAX,
        ensures
            final(self)@ == probe_step(old(self)@, now).0,
            final(out)@ == old(out)@ + probe_step(old(self)@, now).1,
    {
        assert(old(out)@ + Seq::<LoginCommand>::empty() == old(out)@);
        if self.auto_quick_login && !self.quick_mouse_done && elapsed(now, self.last_quick_probe, 1500) {
            self.last_quick_probe = now;
            let id = self.next_id;
            self.next_id = id + 1;
            self.quick_probe_id = Some(id);
            out.push(LoginCommand::ProbeQuickLogin(id));
        }
    }

    fn mouse(&mut self, now: u64, out: &mut Vec<LoginCommand>)
        requires
            old(self).next_id < u64::MAX - 1,
        ensures
            final(self)@ == mouse_step(old(self)@, now).0,
            final(out)@ == old(out)@ + mouse_step(old(self)@, now).1,
    {
        assert(old(out)@ + Seq::<LoginCommand>::empty() == old(out)@);
        let late = match self.quick_clicked_at {
            Some(t) => elapsed(now, t, 5000),
            None => false,
        };
        if self.auto_quick_login && self.quick_native_done && !self.quick_mouse_done && late
            && !cookie_has_uin(self.cookie.as_str()) {
            match self.quick_coords {
                Some((x, y)) => {
                    self.quick_mouse_done = true;
                    let id = self.next_id;
                    self.next_id = id + 2;
                    out.push(LoginCommand::MousePressed(id, x, y));
                    out.push(LoginCommand::MouseReleased(id + 1, x, y));
                    assert(out@ == old(out)@ + seq![
                        LoginCommand::MousePressed(id, x, y),
                        LoginCommand::MouseReleased((id + 1) as u64, x, y),
                    ]);
                },
                None => {},
            }
        }
    }

    /// One turn of the loop at `now`, before a message is awaited: the wait
    /// fails once `now` is past the deadline, else the commands of
    /// `tick_step` are to be sent.
    pub fn tick(&mut self, now: u64) -> (r: LoginStep)
        requires
            old(self).next_id <= u64::MAX - 8,
        ensures
            now > old(self).deadline ==> final(self)@ == old(self)@ && match r {
                LoginStep::Failed(e) => e@ == login_timeout_text(old(self).cookie@),
                _ => false,
            },
            now <= old(self).deadline ==> match r {
                LoginStep::Wait(cmds) => (final(self)@, cmds@) == tick_step(old(self)@, now),
                _ => false,
            },
    {
        if now > self.deadline {
            proof {
                reveal_strlit("uin");
            }
            let msg = if cookie_has_uin(self.cookie.as_str()) {
                copy_str("等待登录超时：请在登录窗口中完成扫码登录")
            } else {
                copy_str("等待登录超时：未检测到登录态（Cookie 里没有 uin），请在登录窗口中完成扫码登录")
            };
            return LoginStep::Failed(msg);
        }
        let ghost s0 = self@;
        let mut cmds: Vec<LoginCommand> = Vec::new();
        self.poll(now, &mut cmds);
        self.settle(now, &mut cmds);
        self.probe(now, &mut cmds);
        self.mouse(now, &mut cmds);
        proof {
            let (a, ca) = poll_step(s0, now);
            let (b, cb) = settle_step(a, now);
            let (c, cc) = probe_step(b, now);
            let (d, cd) = mouse_step(c, now);
            assert(Seq::<LoginCommand>::empty() + ca + cb + cc + cd == ca + cb + cc + cd);
        }
        LoginStep::Wait(cmds)
    }
}


impl LoginWatch {
    fn read_request_event(&mut self, v: &Json)
        ensures
            final(self)@ == event_step(old(self)@, *v),
    {
        let url: Option<&str> = match v.at("params") {
            Some(p) => match p.at("request") {
                Some(q) => q.str_at("url"),
                None => None,
            },
            None => None,
        };
        match url {
            Some(u) => {
                if contains(u, "console.cloud.tencent.com") {
                    if self.uin.as_str().is_empty() {
                        self.uin = extract_id(u, "uin=");
                    }
                    if self.owner_uin.as_str().is_empty() {
                        self.owner_uin = extract_id(u, "ownerUin=");
                    }
                    if self.csrf_code.as_str().is_empty() && contains(u, "csrfCode=") && (contains(
                        u,
                        "/_api/",
                    ) || contains(u, "/cgi/capi")) {
                        self.csrf_code = match extract(u, "csrfCode=") {
                            Some(t) => t,
                            None => String::new(),
                        };
                    }
                }
            },
            None => {},
        }
    }

    fn read_snapshot(&mut self, v: &Json, id: u64, now: u64)
        ensures
            final(self)@ == snapshot_step(old(self)@, *v, id, now),
    {
        let mine = match self.cookie_req_id {
            Some(c) => c == id,
            None => false,
        };
        if mine {
            let c = build_cookie(v);
            if !c.as_str().is_empty() {
                if !str_eq(c.as_str(), self.last_snapshot.as_str()) {
                    self.last_snapshot = copy_str(c.as_str());
                    self.stable_since = Some(now);
                }
                self.cookie = c;
            }
            self.cookie_req_id = None;
        }
    }

    fn read_probe(
        &mut self,
        v: &Json,
        id: u64,
        now: u64,
        coords: Option<(i64, i64)>,
        out: &mut Vec<LoginCommand>,
    )
        requires
            old(self).next_id < u64::MAX,
            old(out)@.len() == 0,
        ensures
            (final(self)@, final(out)@) == probe_reply_step(old(self)@, *v, id, now, coords),
    {
        let mine = match self.quick_probe_id {
            Some(p) => p == id,
            None => false,
        };
        if !mine {
            return;
        }
        self.quick_probe_id = None;
        let value: Option<&str> = match v.at("result") {
            Some(r) => match r.at("result") {
                Some(rr) => rr.str_at("value"),
                None => None,
            },
            None => None,
        };
        let found = match value {
            Some(val) => has_prefix(&chars_of(val), &chars_of("{\"status\":\"found\"")),
            None => false,
        };
        if found {
            match coords {
                Some(xy) => {
                    self.quick_coords = Some(xy);
                },
                None => {},
            }
            if !self.quick_native_done {
                self.quick_native_done = true;
                self.quick_clicked_at = Some(now);
                let cid = self.next_id;
                self.next_id = cid + 1;
                out.push(LoginCommand::ClickQuickLogin(cid));
                assert(out@ == seq![LoginCommand::ClickQuickLogin(cid)]);
            }
        }
    }

    /// The session, once the last snapshot is complete; an id still empty
    /// is read from the cookie.
    fn result(&self) -> (r: LoginResult)
        ensures
            r.cookie@ == self.cookie@,
            r.uin@ == if self.uin@.len() == 0 {
                cookie_uin(self.cookie@)
            } else {
                self.uin@
            },
            r.owner_uin@ == if self.owner_uin@.len() == 0 {
                cookie_owner_uin(self.cookie@)
            } else {
                self.owner_uin@
            },
            r.csrf_code@ == self.csrf_code@,
            r.auto_quick_clicked == (self.quick_native_done || self.quick_mouse_done),
    {
        let uin = if self.uin.as_str().is_empty() {
            uin_from_cookie(self.cookie.as_str())
        } else {
            copy_str(self.uin.as_str())
        };
        let owner = if self.owner_uin.as_str().is_empty() {
            owner_uin_from_cookie(self.cookie.as_str())
        } else {
            copy_str(self.owner_uin.as_str())
        };
        LoginResult {
            cookie: copy_str(self.cookie.as_str()),
            uin,
            owner_uin: owner,
            csrf_code: copy_str(self.csrf_code.as_str()),
            auto_quick_clicked: self.quick_native_done || self.quick_mouse_done,
        }
    }

    /// Reads one message of the login window, received at `now`. `coords`
    /// is the button's place that the application read from the message
    /// (the centre of the button, rounded), when it holds one.
    pub fn on_message(&mut self, v: &Json, now: u64, coords: Option<(i64, i64)>) -> (r: LoginStep)
        requires
            old(self).next_id < u64::MAX,
        ensures
            is_request_event(*v) ==> final(self)@ == event_step(old(self)@, *v) && match r {
                LoginStep::Wait(cmds) => cmds@.len() == 0,
                _ => false,
            },
            !is_request_event(*v) && reply_id(*v) is None ==> final(self)@ == old(self)@
                && match r {
                LoginStep::Wait(cmds) => cmds@.len() == 0,
                _ => false,
            },
            !is_request_event(*v) && reply_id(*v) is Some && old(self).final_req == reply_id(*v)
                ==> {
                let c = snapshot_cookie(old(self)@, *v);
                match r {
                    LoginStep::Failed(e) => !cookie_complete(c) && e@ == incomplete_login_text(),
                    LoginStep::Done(res) => {
                        &&& cookie_complete(c)
                        &&& res.cookie@ == c
                        &&& res.uin@ == if old(self).uin@.len() == 0 {
                            cookie_uin(c)
                        } else {
                            old(self).uin@
                        }
                        &&& res.owner_uin@ == if old(self).owner_uin@.len() == 0 {
                            cookie_owner_uin(c)
                        } else {
                            old(self).owner_uin@
                        }
                        &&& res.csrf_code@ == old(self).csrf_code@
                        &&& res.auto_quick_clicked == (old(self).quick_native_done
                            || old(self).quick_mouse_done)
                    },
                    LoginStep::Wait(_) => false,
                }
            },
            !is_request_event(*v) && reply_id(*v) is Some && old(self).final_req != reply_id(*v)
                ==> match r {
                LoginStep::Wait(cmds) => (final(self)@, cmds@) == reply_step(
                    old(self)@,
                    *v,
                    reply_id(*v)->0,
                    now,
                    coords,
                ),
                _ => false,
            },
    {
        let is_event = match v.str_at("method") {
            Some(m) => str_eq(m, "Network.requestWillBeSent"),
            None => false,
        };
        if is_event {
            self.read_request_event(v);
            return LoginStep::Wait(Vec::new());
        }
        let id = match v.get("id") {
            Some(x) => x.as_u64(),
            None => None,
        };
        let id = match id {
            Some(i) => i,
            None => {
                return LoginStep::Wait(Vec::new());
            },
        };
        let last = match self.final_req {
            Some(f) => f == id,
            None => false,
        };
        if last {
            let c = build_cookie(v);
            if !c.as_str().is_empty() {
                self.cookie = c;
            }
            if !cookie_is_complete(self.cookie.as_str()) {
                return LoginStep::Failed(
                    copy_str("控制台会话没有建立完整（Cookie 缺 ownerUin），本次不覆盖已有会话，请重新登录"),
                );
            }
            return LoginStep::Done(self.result());
        }
        self.read_snapshot(v, id, now);
        let mut cmds: Vec<LoginCommand> = Vec::new();
        self.read_probe(v, id, now, coords, &mut cmds);
        LoginStep::Wait(cmds)
    }
}


// ---------------------------------------------------------------------------
// Laws of the login watch
// ---------------------------------------------------------------------------

/// The message id of a command.
pub open spec fn command_id(c: LoginCommand) -> u64 {
    match c {
        LoginCommand::NetworkEnable(i) => i,
        LoginCommand::GetAllCookies(i) => i,
        LoginCommand::ProbeQuickLogin(i) => i,
        LoginCommand::ClickQuickLogin(i) => i,
        LoginCommand::MousePressed(i, _, _) => i,
        LoginCommand::MouseReleased(i, _, _) => i,
    }
}

/// The commands carry the ids `start`, `start + 1`, ... in order.
pub open spec fn ids_from(cmds: Seq<LoginCommand>, start: int) -> bool {
    forall|i: int| 0 <= i < cmds.len() ==> command_id(#[trigger] cmds[i]) == start + i
}

proof fn lemma_ids_concat(a: Seq<LoginCommand>, b: Seq<LoginCommand>, start: int)
    requires
        ids_from(a, start),
        ids_from(b, start + a.len()),
    ensures
        ids_from(a + b, start),
{
    assert forall|i: int| 0 <= i < (a + b).len() implies command_id(#[trigger] (a + b)[i]) == start + i by {
        if i < a.len() {
            assert((a + b)[i] == a[i]);
        } else {
            assert((a + b)[i] == b[i - a.len()]);
        }
    }
}

/// Each turn hands out fresh ids: the commands carry the ids that follow the
/// last one handed out, in order, and the next id moves past them.
pub proof fn law_tick_ids_fresh(s: LoginWatchView, now: u64)
    requires
        s.next_id <= u64::MAX - 8,
    ensures
        tick_step(s, now).0.next_id == s.next_id + tick_step(s, now).1.len(),
        ids_from(tick_step(s, now).1, s.next_id as int),
{
    let (a, ca) = poll_step(s, now);
    let (b, cb) = settle_step(a, now);
    let (c, cc) = probe_step(b, now);
    let (d, cd) = mouse_step(c, now);
    assert(a.next_id == s.next_id + ca.len() && ids_from(ca, s.next_id as int));
    assert(b.next_id == a.next_id + cb.len() && ids_from(cb, a.next_id as int));
    assert(c.next_id == b.next_id + cc.len() && ids_from(cc, b.next_id as int));
    assert(d.next_id == c.next_id + cd.len() && ids_from(cd, c.next_id as int));
    lemma_ids_concat(ca, cb, s.next_id as int);
    lemma_ids_concat(ca + cb, cc, s.next_id as int);
    lemma_ids_concat(ca + cb + cc, cd, s.next_id as int);
}

/// The last snapshot is asked only once a csrf code is known and the cookie
/// holds a complete session.
pub proof fn law_final_snapshot_needs_complete_cookie(s: LoginWatchView, now: u64)
    requires
        s.final_req is None,
        tick_step(s, now).0.final_req is Some,
    ensures
        s.csrf_code.len() > 0,
        cookie_complete(s.cookie),
{
}

/// The mouse is used at most once: once it was, no turn clicks again.
pub proof fn law_mouse_click_at_most_once(s: LoginWatchView, now: u64)
    requires
        s.quick_mouse_done,
    ensures
        tick_step(s, now).0.quick_mouse_done,
        forall|i: int|
            0 <= i < tick_step(s, now).1.len() ==> !(#[trigger] tick_step(s, now).1[i] is MousePressed),
{
    let (a, ca) = poll_step(s, now);
    let (b, cb) = settle_step(a, now);
    let (c, cc) = probe_step(b, now);
    let (d, cd) = mouse_step(c, now);
    let all = ca + cb + cc + cd;
    assert forall|i: int| 0 <= i < all.len() implies !(#[trigger] all[i] is MousePressed) by {
        assert(cd.len() == 0);
        if i < ca.len() {
            assert(all[i] == ca[i]);
        } else if i < ca.len() + cb.len() {
            assert(all[i] == cb[i - ca.len()]);
        } else {
            assert(all[i] == cc[i - ca.len() - cb.len()]);
        }
    }
}

/// What holds of every state of a login watch: with the quick login off, the
/// button is never probed nor clicked; the last snapshot is only ever asked
/// with a csrf code in hand.
pub open spec fn watch_inv(s: LoginWatchView) -> bool {
    &&& !s.auto_quick_login ==> s.quick_probe_id is None && !s.quick_native_done && !s.quick_mouse_done
    &&& s.final_req is Some ==> s.csrf_code.len() > 0
}

/// A console API request (`/_api/` or `/cgi/capi`) that carries a csrf code:
/// the only kind of URL the watch takes its csrf code from.
pub open spec fn csrf_source(url: Seq<char>) -> bool {
    &&& has_sub(url, "console.cloud.tencent.com"@)
    &&& has_sub(url, "csrfCode="@)
    &&& (has_sub(url, "/_api/"@) || has_sub(url, "/cgi/capi"@))
}

/// A new watch satisfies the invariant.
pub proof fn law_watch_starts_valid(s: LoginWatchView)
    requires
        s.quick_probe_id is None,
        !s.quick_native_done,
        !s.quick_mouse_done,
        s.final_req is None,
    ensures
        watch_inv(s),
{
}

/// Every turn of the loop keeps the invariant, and never changes the csrf
/// code.
pub proof fn law_tick_keeps_watch_inv(s: LoginWatchView, now: u64)
    requires
        watch_inv(s),
    ensures
        watch_inv(tick_step(s, now).0),
        tick_step(s, now).0.csrf_code == s.csrf_code,
        tick_step(s, now).0.auto_quick_login == s.auto_quick_login,
{
    let (a, ca) = poll_step(s, now);
    let (b, cb) = settle_step(a, now);
    let (c, cc) = probe_step(b, now);
    let (d, cd) = mouse_step(c, now);
    assert(watch_inv(a) && a.csrf_code == s.csrf_code);
    assert(watch_inv(b) && b.csrf_code == s.csrf_code);
    assert(watch_inv(c) && c.csrf_code == s.csrf_code);
    assert(watch_inv(d) && d.csrf_code == s.csrf_code);
}

/// A request event keeps the invariant. The csrf code, once known, never
/// changes; it is only ever set from a console API request that carries one,
/// to the code that request's URL holds.
pub proof fn law_event_keeps_watch_inv(s: LoginWatchView, v: Json)
    requires
        watch_inv(s),
    ensures
        watch_inv(event_step(s, v)),
        s.csrf_code.len() > 0 ==> event_step(s, v).csrf_code == s.csrf_code,
        event_step(s, v).csrf_code != s.csrf_code ==> (event_url(v) matches Some(url) && csrf_source(url)
            && extract_of(url, "csrfCode="@) == Some(event_step(s, v).csrf_code)),
{
    if event_step(s, v).csrf_code != s.csrf_code {
        let url = event_url(v)->0;
        assert(event_url(v) is Some);
        assert(has_sub(url, "console.cloud.tencent.com"@));
        assert(s.csrf_code.len() == 0);
        assert(s.csrf_code =~= Seq::<char>::empty());
        assert(extract_of(url, "csrfCode="@) is Some);
        assert(csrf_source(url));
    }
}

/// An answer keeps the invariant and never changes the csrf code.
pub proof fn law_reply_keeps_watch_inv(
    s: LoginWatchView,
    v: Json,
    id: u64,
    now: u64,
    coords: Option<(i64, i64)>,
)
    requires
        watch_inv(s),
    ensures
        watch_inv(reply_step(s, v, id, now, coords).0),
        reply_step(s, v, id, now, coords).0.csrf_code == s.csrf_code,
{
}

/// When the last snapshot comes back in a state that satisfies the
/// invariant, the login it ends in has a csrf code, and with the quick
/// login off it was never clicked (`on_message` hands out exactly these
/// values in its `Done` result).
pub proof fn law_login_done_is_sound(s: LoginWatchView)
    requires
        watch_inv(s),
        s.final_req is Some,
    ensures
        s.csrf_code.len() > 0,
        !s.auto_quick_login ==> !(s.quick_native_done || s.quick_mouse_done),
{
}

/// One input of the login watch's loop: a turn at a time, or a message of
/// the debugging channel with the time it came and the button's place read
/// from it.
pub enum WatchInput {
    Tick(u64),
    Message(Json, u64, Option<(i64, i64)>),
}

/// The state after one input, as `tick` and `on_message` leave it. A turn
/// past the deadline and the answer to the last snapshot end the run and
/// leave the state as it was.
pub open spec fn watch_after(s: LoginWatchView, i: WatchInput) -> LoginWatchView {
    match i {
        WatchInput::Tick(now) => if now > s.deadline {
            s
        } else {
            tick_step(s, now).0
        },
        WatchInput::Message(v, now, coords) => if is_request_event(v) {
            event_step(s, v)
        } else {
            match reply_id(v) {
                None => s,
                Some(id) => if s.final_req == Some(id) {
                    s
                } else {
                    reply_step(s, v, id, now, coords).0
                },
            }
        },
    }
}

/// The state after a run of inputs.
pub open spec fn watch_run(s: LoginWatchView, ins: Seq<WatchInput>) -> LoginWatchView
    decreases ins.len(),
{
    if ins.len() == 0 {
        s
    } else {
        watch_after(watch_run(s, ins.drop_last()), ins.last())
    }
}

/// The csrf code after a request whose URL is read while the code is `c`:
/// set from the first console API URL that carries one, then kept.
pub open spec fn csrf_after(c: Seq<char>, v: Json) -> Seq<char> {
    if c.len() == 0 && is_request_event(v) && event_url(v) is Some && csrf_source(event_url(v)->0) {
        match extract_of(event_url(v)->0, "csrfCode="@) {
            Some(t) => t,
            None => Seq::<char>::empty(),
        }
    } else {
        c
    }
}

/// The csrf code after a run: only the request URLs count, in order.
pub open spec fn run_csrf(c: Seq<char>, ins: Seq<WatchInput>) -> Seq<char>
    decreases ins.len(),
{
    if ins.len() == 0 {
        c
    } else {
        let c0 = run_csrf(c, ins.drop_last());
        match ins.last() {
            WatchInput::Message(v, _, _) => csrf_after(c0, v),
            WatchInput::Tick(_) => c0,
        }
    }
}

/// A whole run of the login watch keeps its invariant and its quick-login
/// setting, and its csrf code is the one the request URLs give in order: the
/// first console `/_api/` or `/cgi/capi` URL with a code sets it, and nothing
/// changes it afterwards. With `law_login_done_is_sound`, a login that ends a
/// run from a valid start has a csrf code and, with the quick login off, was
/// never clicked.
pub proof fn law_watch_run(s: LoginWatchView, ins: Seq<WatchInput>)
    requires
        watch_inv(s),
    ensures
        watch_inv(watch_run(s, ins)),
        watch_run(s, ins).auto_quick_login == s.auto_quick_login,
        watch_run(s, ins).csrf_code == run_csrf(s.csrf_code, ins),
    decreases ins.len(),
{
    if ins.len() > 0 {
        let pre = ins.drop_last();
        law_watch_run(s, pre);
        let w = watch_run(s, pre);
        match ins.last() {
            WatchInput::Tick(now) => {
                if now <= w.deadline {
                    law_tick_keeps_watch_inv(w, now);
                }
            },
            WatchInput::Message(v, now, coords) => {
                if is_request_event(v) {
                    law_event_keeps_watch_inv(w, v);
                    if w.csrf_code.len() == 0 {
                        assert(w.csrf_code =~= Seq::<char>::empty());
                    }
                } else {
                    match reply_id(v) {
                        None => {},
                        Some(id) => {
                            if w.final_req != Some(id) {
                                law_reply_keeps_watch_inv(w, v, id, now, coords);
                            }
                        },
                    }
                }
            },
        }
    }
}

/// A login that ends a run from a valid start (the answer to the last
/// snapshot comes in the state the run reached) hands out a csrf code that is
/// not empty and is the one the run's first console API URL gave, and with
/// the quick login off the button was never clicked.
pub proof fn law_login_run_result(s: LoginWatchView, ins: Seq<WatchInput>)
    requires
        watch_inv(s),
        watch_run(s, ins).final_req is Some,
    ensures
        watch_run(s, ins).csrf_code.len() > 0,
        watch_run(s, ins).csrf_code == run_csrf(s.csrf_code, ins),
        !s.auto_quick_login ==> !(watch_run(s, ins).quick_native_done || watch_run(s, ins).quick_mouse_done),
{
    law_watch_run(s, ins);
    law_login_done_is_sound(watch_run(s, ins));
}

// ---------------------------------------------------------------------------
// Reading the old gateway's token from the hidden page
// ---------------------------------------------------------------------------

/// What the fallback needs from a request of the page itself: its csrf
/// code, its `x-lid`, and the epoch that `x-life` is counted from (0 when
/// not seen).
pub struct CapiToken {
    pub csrf: String,
    pub x_lid: String,
    pub life_epoch_ms: i64,
}

/// The reading of the page's own old-gateway requests.
pub struct TokenScan {
    pub csrf: String,
    pub x_lid: String,
    pub life_epoch_ms: i64,
    /// How many times the page's address was asked.
    pub probes: u32,
    /// The id of the next command (`Network.enable` went out with id 1).
    pub next_id: u64,
}

/// A request of the page to the old gateway, with its csrf code in the URL.
pub open spec fn is_capi_request(v: Json) -> bool {
    &&& is_request_event(v)
    &&& event_url(v) matches Some(url) && has_sub(url, "/cgi/capi"@) && has_sub(url, "csrfCode="@)
}

/// The values still missing are taken from the request.
pub open spec fn token_step(s: (Seq<char>, Seq<char>, i64), v: Json) -> (Seq<char>, Seq<char>, i64) {
    let url = event_url(v)->0;
    let csrf = if s.0.len() == 0 {
        match extract_of(url, "csrfCode="@) {
            Some(t) => t,
            None => s.0,
        }
    } else {
        s.0
    };
    let meta = crate::login::capi_meta_of(v);
    if s.1.len() == 0 || s.2 == 0 {
        (csrf, if s.1.len() == 0 {
            meta.0
        } else {
            s.1
        }, if s.2 == 0 {
            meta.1
        } else {
            s.2
        })
    } else {
        (csrf, s.1, s.2)
    }
}

/// The message when the page sent no old-gateway request.
pub open spec fn no_token_text() -> Seq<char> {
    "没能从控制台页面取到旧网关令牌（页面没有发出 dashboard 请求：可能是工作负载页打不开，也可能登录窗口里没有登录态 —— 展开「设置」点一次「扫码登录」即可）"@
}

impl TokenScan {
    /// The scan right after `Network.enable` (id 1).
    pub fn new() -> (t: TokenScan)
        ensures
            t.csrf@.len() == 0,
            t.x_lid@.len() == 0,
            t.life_epoch_ms == 0,
            t.probes == 0,
            t.next_id == 2,
    {
        TokenScan { csrf: String::new(), x_lid: String::new(), life_epoch_ms: 0, probes: 0, next_id: 2 }
    }

    /// No message came for a while: the first five times, the page's
    /// address is to be asked with the returned id.
    pub fn on_idle(&mut self) -> (r: Option<u64>)
        requires
            old(self).next_id < u64::MAX,
        ensures
            old(self).probes < 5 ==> r == Some(old(self).next_id) && final(self).probes == old(
                self,
            ).probes + 1 && final(self).next_id == old(self).next_id + 1,
            old(self).probes >= 5 ==> r is None && final(self).probes == old(self).probes
                && final(self).next_id == old(self).next_id,
            final(self).csrf == old(self).csrf,
            final(self).x_lid == old(self).x_lid,
            final(self).life_epoch_ms == old(self).life_epoch_ms,
    {
        if self.probes < 5 {
            self.probes = self.probes + 1;
            let id = self.next_id;
            self.next_id = id + 1;
            Some(id)
        } else {
            None
        }
    }

    /// Reads one message; the result says whether the csrf code, `x-lid`
    /// and a positive epoch are all known, which ends the scan.
    pub fn on_message(&mut self, v: &Json) -> (done: bool)
        ensures
            !is_capi_request(*v) ==> !done && final(self).csrf@ == old(self).csrf@
                && final(self).x_lid@ == old(self).x_lid@ && final(self).life_epoch_ms == old(
                self,
            ).life_epoch_ms,
            is_capi_request(*v) ==> (final(self).csrf@, final(self).x_lid@, final(self).life_epoch_ms)
                == token_step((old(self).csrf@, old(self).x_lid@, old(self).life_epoch_ms), *v)
                && done == (final(self).csrf@.len() > 0 && final(self).x_lid@.len() > 0
                && final(self).life_epoch_ms > 0),
            final(self).probes == old(self).probes,
            final(self).next_id == old(self).next_id,
    {
        let is_event = match v.str_at("method") {
            Some(m) => str_eq(m, "Network.requestWillBeSent"),
            None => false,
        };
        if !is_event {
            return false;
        }
        let url: &str = match v.at("params") {
            Some(p) => match p.at("request") {
                Some(q) => match q.str_at("url") {
                    Some(u) => u,
                    None => {
                        return false;
                    },
                },
                None => {
                    return false;
                },
            },
            None => {
                return false;
            },
        };
        if !(contains(url, "/cgi/capi") && contains(url, "csrfCode=")) {
            return false;
        }
        if self.csrf.as_str().is_empty() {
            match extract(url, "csrfCode=") {
                Some(t) => {
                    self.csrf = t;
                },
                None => {},
            }
        }
        if self.x_lid.as_str().is_empty() || self.life_epoch_ms == 0 {
            let (lid, epoch) = crate::login::capi_request_meta(v);
            if self.x_lid.as_str().is_empty() {
                self.x_lid = lid;
            }
            if self.life_epoch_ms == 0 {
                self.life_epoch_ms = epoch;
            }
        }
        !self.csrf.as_str().is_empty() && !self.x_lid.as_str().is_empty() && self.life_epoch_ms > 0
    }

    /// The token once the scan is over; refused when no csrf code was seen.
    pub fn finish(self) -> (r: Result<CapiToken, String>)
        ensures
            self.csrf@.len() == 0 ==> match r {
                Err(e) => e@ == no_token_text(),
                Ok(_) => false,
            },
            self.csrf@.len() > 0 ==> match r {
                Ok(t) => t.csrf@ == self.csrf@ && t.x_lid@ == self.x_lid@ && t.life_epoch_ms
                    == self.life_epoch_ms,
                Err(_) => false,
            },
    {
        if self.csrf.as_str().is_empty() {
            return Err(
                copy_str(
                    "没能从控制台页面取到旧网关令牌（页面没有发出 dashboard 请求：可能是工作负载页打不开，也可能登录窗口里没有登录态 —— 展开「设置」点一次「扫码登录」即可）",
                ),
            );
        }
        Ok(CapiToken { csrf: self.csrf, x_lid: self.x_lid, life_epoch_ms: self.life_epoch_ms })
    }
}

/// The message when the page was sent to a login page.
pub open spec fn sent_to_login_text(href: Seq<char>) -> Seq<char> {
    crate::cred::mark() + "登录窗口里没有登录态（控制台页面被送到了 "@ + href.take(
        if href.len() < 60 {
            href.len() as int
        } else {
            60
        },
    ) + "）：请在「设置」里点「扫码登录」完成扫码"@
}

/// The page's address, once asked: a login page ends the scan with an error
/// marked as a credential problem, so that the login window is brought up.
pub fn check_page_address(href: &str) -> (r: Result<(), String>)
    ensures
        crate::login::login_url_text(href@) ==> match r {
            Err(e) => e@ == sent_to_login_text(href@),
            Ok(_) => false,
        },
        !crate::login::login_url_text(href@) ==> r is Ok,
{
    if crate::login::is_login_url(href) {
        let mut m = copy_str("登录窗口里没有登录态（控制台页面被送到了 ");
        let head = crate::text::take_chars(href, 60);
        crate::text::push_str(&mut m, head.as_str());
        crate::text::push_str(&mut m, "）：请在「设置」里点「扫码登录」完成扫码");
        let e = crate::cred::cred(m.as_str());
        return Err(e);
    }
    Ok(())
}

/// The token scan keeps the first csrf code it read: once one is known, no
/// request changes it, and it is only ever set to the code the request URL
/// holds. The epoch it reads is never negative.
pub proof fn law_token_csrf_kept(s: (Seq<char>, Seq<char>, i64), v: Json)
    ensures
        s.2 >= 0 ==> token_step(s, v).2 >= 0,
        s.0.len() > 0 ==> token_step(s, v).0 == s.0,
        token_step(s, v).0 != s.0 ==> extract_of(event_url(v)->0, "csrfCode="@) == Some(
            token_step(s, v).0,
        ),
{
}

/// The scan's values after the messages `evs`, as `on_message` leaves them:
/// only the page's own old-gateway requests count.
pub open spec fn token_run(s: (Seq<char>, Seq<char>, i64), evs: Seq<Json>) -> (Seq<char>, Seq<char>, i64)
    decreases evs.len(),
{
    if evs.len() == 0 {
        s
    } else {
        let s0 = token_run(s, evs.drop_last());
        if is_capi_request(evs.last()) {
            token_step(s0, evs.last())
        } else {
            s0
        }
    }
}

/// The csrf code after a request read while the code is `c`: the first
/// old-gateway request with a code sets it, then it is kept.
pub open spec fn token_csrf_after(c: Seq<char>, v: Json) -> Seq<char> {
    if c.len() == 0 && is_capi_request(v) {
        match extract_of(event_url(v)->0, "csrfCode="@) {
            Some(t) => t,
            None => c,
        }
    } else {
        c
    }
}

/// The csrf code after a run of messages.
pub open spec fn token_run_csrf(c: Seq<char>, evs: Seq<Json>) -> Seq<char>
    decreases evs.len(),
{
    if evs.len() == 0 {
        c
    } else {
        token_csrf_after(token_run_csrf(c, evs.drop_last()), evs.last())
    }
}

/// Over a whole scan, the csrf code is the one the page's old-gateway
/// requests give in order (the first that carries one, then kept), and the
/// epoch never goes negative. `finish` then hands out exactly these values,
/// or refuses an empty code with `no_token_text()`.
pub proof fn law_token_run(s: (Seq<char>, Seq<char>, i64), evs: Seq<Json>)
    requires
        s.2 >= 0,
    ensures
        token_run(s, evs).0 == token_run_csrf(s.0, evs),
        token_run(s, evs).2 >= 0,
    decreases evs.len(),
{
    if evs.len() > 0 {
        let pre = evs.drop_last();
        law_token_run(s, pre);
        law_token_csrf_kept(token_run(s, pre), evs.last());
    }
}

/// Being sent to a login page is marked as a credential problem, so that the
/// login window comes up.
pub proof fn law_sent_to_login_is_marked(href: Seq<char>)
    ensures
        has_sub(sent_to_login_text(href), crate::cred::mark()),
{
    let t = sent_to_login_text(href);
    assert(t.subrange(0, crate::cred::mark().len() as int) =~= crate::cred::mark());
    assert(crate::text::occurs_at(t, crate::cred::mark(), 0));
}

/// The answer to the command `id`: the string value it gave back, if any;
/// nothing when the message answers another command.
pub fn string_reply(v: &Json, id: u64) -> (r: Option<Option<String>>)
    ensures
        reply_id(*v) != Some(id) ==> r is None,
        reply_id(*v) == Some(id) ==> match r {
            Some(Some(s)) => eval_value(*v) == Some(s@),
            Some(None) => eval_value(*v) is None,
            None => false,
        },
{
    let mine = match v.get("id") {
        Some(x) => match x.as_u64() {
            Some(n) => n == id,
            None => false,
        },
        None => false,
    };
    if !mine {
        return None;
    }
    let value: Option<&str> = match v.at("result") {
        Some(r) => match r.at("result") {
            Some(rr) => rr.str_at("value"),
            None => None,
        },
        None => None,
    };
    match value {
        Some(s) => Some(Some(copy_str(s))),
        None => Some(None),
    }
}

/// The message for an error of the debugging channel.
pub fn channel_error(e: &str) -> (r: String)
    ensures
        r@ == "调试通道错误: "@ + e@,
{
    let mut r = copy_str("调试通道错误: ");
    crate::text::push_str(&mut r, e);
    r
}

/// A failed token read is tried once more when the debugging channel broke.
pub fn retry_token_read(err: &str) -> (b: bool)
    ensures
        b == starts_with(err@, "调试通道错误"@),
{
    has_prefix(&chars_of(err), &chars_of("调试通道错误"))
}

// ---------------------------------------------------------------------------
// Debugging targets
// ---------------------------------------------------------------------------

/// A target is a console page with a debugging socket.
pub open spec fn is_console_target(t: Json) -> bool {
    &&& crate::json::str_or_empty(at(t, "type"@)) == "page"@
    &&& has_sub(crate::json::str_or_empty(at(t, "url"@)), "tencent.com"@)
    &&& str_of(at(t, "webSocketDebuggerUrl"@)) is Some
}

/// The socket of the first console page among the targets.
pub fn pick_target(list: &Vec<Json>) -> (r: Option<String>)
    ensures
        match r {
            Some(ws) => exists|i: int|
                0 <= i < list@.len() && is_console_target(#[trigger] list@[i]) && str_of(
                    at(list@[i], "webSocketDebuggerUrl"@),
                ) == Some(ws@) && forall|j: int| 0 <= j < i ==> !is_console_target(#[trigger] list@[j]),
            None => forall|i: int| 0 <= i < list@.len() ==> !is_console_target(#[trigger] list@[i]),
        },
{
    let mut i: usize = 0;
    while i < list.len()
        invariant
            i <= list@.len(),
            forall|j: int| 0 <= j < i ==> !is_console_target(#[trigger] list@[j]),
        decreases list.len() - i,
    {
        let t = &list[i];
        let ty: &str = match t.str_at("type") {
            Some(x) => x,
            None => "",
        };
        let url: &str = match t.str_at("url") {
            Some(x) => x,
            None => "",
        };
        proof {
            reveal_strlit("");
        }
        assert(ty@ == crate::json::str_or_empty(at(*t, "type"@)));
        assert(url@ == crate::json::str_or_empty(at(*t, "url"@)));
        if str_eq(ty, "page") && contains(url, "tencent.com") {
            match t.str_at("webSocketDebuggerUrl") {
                Some(ws) => {
                    assert(is_console_target(list@[i as int]));
                    return Some(copy_str(ws));
                },
                None => {
                    assert(!is_console_target(list@[i as int]));
                },
            }
        } else {
            assert(!is_console_target(list@[i as int]));
        }
        i = i + 1;
    }
    None
}

/// The message when no console page showed up.
pub fn no_target_error() -> (r: String)
    ensures
        r@ == "连接不上调试端口 127.0.0.1:9223（请确认 tauri.conf.json 主窗口的 additionalBrowserArgs 带 --remote-debugging-port=9223）"@,
{
    copy_str(
        "连接不上调试端口 127.0.0.1:9223（请确认 tauri.conf.json 主窗口的 additionalBrowserArgs 带 --remote-debugging-port=9223）",
    )
}

/// Whether `s` is one of `v`.
pub fn has_string(v: &Vec<String>, s: &str) -> (b: bool)
    ensures
        b == crate::text::views(v@).contains(s@),
{
    let mut i: usize = 0;
    while i < v.len()
        invariant
            i <= v@.len(),
            forall|j: int| 0 <= j < i ==> v@[j]@ != s@,
        decreases v.len() - i,
    {
        if str_eq(v[i].as_str(), s) {
            assert(crate::text::views(v@)[i as int] == s@);
            return true;
        }
        i = i + 1;
    }
    proof {
        if crate::text::views(v@).contains(s@) {
            let k = choose|k: int| 0 <= k < crate::text::views(v@).len() && crate::text::views(v@)[k] == s@;
            assert(v@[k]@ == s@);
        }
    }
    false
}

/// The socket of a WeChat login frame (`open.weixin.qq.com`), or empty.
pub open spec fn weixin_socket(t: Json) -> Seq<char> {
    if has_sub(crate::json::str_or_empty(at(t, "url"@)), "open.weixin.qq.com"@) {
        crate::json::str_or_empty(at(t, "webSocketDebuggerUrl"@))
    } else {
        Seq::<char>::empty()
    }
}

/// The WeChat frames to bridge: each new socket once, in order.
pub open spec fn bridge_picks(items: Seq<Json>, known: Seq<Seq<char>>) -> Seq<Seq<char>>
    decreases items.len(),
{
    if items.len() == 0 {
        Seq::<Seq<char>>::empty()
    } else {
        let ws = weixin_socket(items[0]);
        if ws.len() > 0 && !known.contains(ws) {
            seq![ws] + bridge_picks(items.drop_first(), known.push(ws))
        } else {
            bridge_picks(items.drop_first(), known)
        }
    }
}

/// The WeChat login frames among the targets that no bridge serves yet.
pub fn bridge_targets(list: &Vec<Json>, live: &Vec<String>) -> (r: Vec<String>)
    ensures
        crate::text::views(r@) == bridge_picks(list@, crate::text::views(live@)),
{
    let mut known: Vec<String> = Vec::new();
    let mut k: usize = 0;
    while k < live.len()
        invariant
            k <= live@.len(),
            crate::text::views(known@) == crate::text::views(live@).take(k as int),
        decreases live.len() - k,
    {
        known.push(copy_str(live[k].as_str()));
        assert(crate::text::views(live@).take(k + 1) == crate::text::views(live@).take(k as int).push(
            live@[k as int]@,
        ));
        k = k + 1;
    }
    assert(crate::text::views(live@).take(live@.len() as int) == crate::text::views(live@));
    let mut out: Vec<String> = Vec::new();
    let mut i: usize = 0;
    assert(list@.skip(0) == list@);
    while i < list.len()
        invariant
            i <= list@.len(),
            crate::text::views(out@) + bridge_picks(list@.skip(i as int), crate::text::views(known@))
                == bridge_picks(list@, crate::text::views(live@)),
        decreases list.len() - i,
    {
        assert(list@.skip(i as int).drop_first() == list@.skip(i + 1));
        assert(list@.skip(i as int)[0] == list@[i as int]);
        let t = &list[i];
        let url: &str = match t.str_at("url") {
            Some(x) => x,
            None => "",
        };
        let ws: &str = match t.str_at("webSocketDebuggerUrl") {
            Some(x) => x,
            None => "",
        };
        proof {
            reveal_strlit("");
        }
        assert(url@ == crate::json::str_or_empty(at(*t, "url"@)));
        assert(ws@ == crate::json::str_or_empty(at(*t, "webSocketDebuggerUrl"@)));
        let ghost wsock = weixin_socket(list@[i as int]);
        let ghost kn = crate::text::views(known@);
        let ghost o = crate::text::views(out@);
        assert(bridge_picks(list@.skip(i as int), kn) == if wsock.len() > 0 && !kn.contains(wsock) {
            seq![wsock] + bridge_picks(list@.skip(i + 1), kn.push(wsock))
        } else {
            bridge_picks(list@.skip(i + 1), kn)
        });
        if contains(url, "open.weixin.qq.com") && !ws.is_empty() && !has_string(&known, ws) {
            let ghost before_out = crate::text::views(out@);
            let ghost before_known = crate::text::views(known@);
            out.push(copy_str(ws));
            known.push(copy_str(ws));
            assert(crate::text::views(out@) == before_out.push(ws@));
            assert(crate::text::views(known@) == before_known.push(ws@));
            assert(before_out.push(ws@) + bridge_picks(list@.skip(i + 1), before_known.push(ws@))
                == before_out + (seq![ws@] + bridge_picks(list@.skip(i + 1), before_known.push(ws@))));
        }
        i = i + 1;
    }
    assert(crate::text::views(out@) + Seq::<Seq<char>>::empty() == crate::text::views(out@));
    out
}


// ---------------------------------------------------------------------------
// Commands of the login watch
// ---------------------------------------------------------------------------

/// The script that looks for the WeChat quick login button on a login page
/// and gives back `{"status":"found","x":..,"y":..,"text":..}` with the
/// button's centre, or `not-login` / `not-found` / `hidden`.
pub open spec fn quick_login_probe_text() -> Seq<char> {
    "(function(){\n  if (!/login|auth|sso/i.test(location.href) || location.href.includes('/tke2/')) return 'not-login';\n  const kw = /快捷登录|一键登录|免扫码登录/;\n  let best = null, bestLen = 1e9;\n  for (const el of document.querySelectorAll('button, a, [role=\"button\"], div, span, em, i, li, p')) {\n    const t = (el.innerText || '').replace(/\\s+/g, '');\n    if (!t || !kw.test(t)) continue;\n    if (t.length < bestLen) { bestLen = t.length; best = el; }\n  }\n  if (!best) return 'not-found';\n  let target = best;\n  while (target && target !== document.body) {\n    if (target.tagName === 'BUTTON' || target.tagName === 'A' || target.onclick\n        || getComputedStyle(target).cursor === 'pointer') break;\n    target = target.parentElement;\n  }\n  if (!target || target === document.body) target = best;\n  const r = target.getBoundingClientRect();\n  if (r.width <= 0 || r.height <= 0) return 'hidden';\n  return JSON.stringify({ status: 'found', x: r.x + r.width / 2, y: r.y + r.height / 2,\n                          text: (target.innerText || '').replace(/\\s+/g, '').slice(0, 24) });\n})()"@
}

/// The script that clicks the quick login button; it gives back `clicked`,
/// `hidden` or `gone`.
pub open spec fn quick_login_click_text() -> Seq<char> {
    "(function(){\n  const kw = /快捷登录|一键登录|免扫码登录/;\n  let best = null, bestLen = 1e9;\n  for (const el of document.querySelectorAll('button, a, [role=\"button\"], div, span, em, i, li, p')) {\n    const t = (el.innerText || '').replace(/\\s+/g, '');\n    if (!t || !kw.test(t)) continue;\n    if (t.length < bestLen) { bestLen = t.length; best = el; }\n  }\n  if (!best) return 'gone';\n  let target = best;\n  while (target && target !== document.body) {\n    if (target.tagName === 'BUTTON' || target.tagName === 'A' || target.onclick\n        || getComputedStyle(target).cursor === 'pointer') break;\n    target = target.parentElement;\n  }\n  if (!target || target === document.body) target = best;\n  const r = target.getBoundingClientRect();\n  if (r.width <= 0 || r.height <= 0) return 'hidden';\n  target.click();\n  return 'clicked';\n})()"@
}

/// The probe script.
pub fn quick_login_probe() -> (r: String)
    ensures
        r@ == quick_login_probe_text(),
{
    copy_str("(function(){\n  if (!/login|auth|sso/i.test(location.href) || location.href.includes('/tke2/')) return 'not-login';\n  const kw = /快捷登录|一键登录|免扫码登录/;\n  let best = null, bestLen = 1e9;\n  for (const el of document.querySelectorAll('button, a, [role=\"button\"], div, span, em, i, li, p')) {\n    const t = (el.innerText || '').replace(/\\s+/g, '');\n    if (!t || !kw.test(t)) continue;\n    if (t.length < bestLen) { bestLen = t.length; best = el; }\n  }\n  if (!best) return 'not-found';\n  let target = best;\n  while (target && target !== document.body) {\n    if (target.tagName === 'BUTTON' || target.tagName === 'A' || target.onclick\n        || getComputedStyle(target).cursor === 'pointer') break;\n    target = target.parentElement;\n  }\n  if (!target || target === document.body) target = best;\n  const r = target.getBoundingClientRect();\n  if (r.width <= 0 || r.height <= 0) return 'hidden';\n  return JSON.stringify({ status: 'found', x: r.x + r.width / 2, y: r.y + r.height / 2,\n                          text: (target.innerText || '').replace(/\\s+/g, '').slice(0, 24) });\n})()")
}

/// The click script.
pub fn quick_login_click() -> (r: String)
    ensures
        r@ == quick_login_click_text(),
{
    copy_str("(function(){\n  const kw = /快捷登录|一键登录|免扫码登录/;\n  let best = null, bestLen = 1e9;\n  for (const el of document.querySelectorAll('button, a, [role=\"button\"], div, span, em, i, li, p')) {\n    const t = (el.innerText || '').replace(/\\s+/g, '');\n    if (!t || !kw.test(t)) continue;\n    if (t.length < bestLen) { bestLen = t.length; best = el; }\n  }\n  if (!best) return 'gone';\n  let target = best;\n  while (target && target !== document.body) {\n    if (target.tagName === 'BUTTON' || target.tagName === 'A' || target.onclick\n        || getComputedStyle(target).cursor === 'pointer') break;\n    target = target.parentElement;\n  }\n  if (!target || target === document.body) target = best;\n  const r = target.getBoundingClientRect();\n  if (r.width <= 0 || r.height <= 0) return 'hidden';\n  target.click();\n  return 'clicked';\n})()")
}

/// The parameters of `Runtime.evaluate` for a script whose value is wanted.
pub fn evaluate_params(expr: &str, await_promise: bool) -> (p: Json)
    ensures
        str_of(at(p, "expression"@)) == Some(expr@),
        at(p, "returnByValue"@) == Json::Bool(true),
        await_promise ==> at(p, "awaitPromise"@) == Json::Bool(true),
        !await_promise ==> field(p, "awaitPromise"@) is None,
{
    let mut m: Vec<(String, Json)> = Vec::new();
    crate::json::push_member(&mut m, "expression", crate::json::json_str(expr));
    if await_promise {
        crate::json::push_member(&mut m, "awaitPromise", Json::Bool(true));
    }
    crate::json::push_member(&mut m, "returnByValue", Json::Bool(true));
    proof {
        reveal_strlit("expression");
        reveal_strlit("awaitPromise");
        reveal_strlit("returnByValue");
        assert("expression"@.len() == 10);
        assert("awaitPromise"@.len() == 12);
        assert("returnByValue"@.len() == 13);
    }
    Json::Object(m)
}

/// The parameters of one mouse event at `(x, y)`.
pub open spec fn is_mouse_params(p: Json, kind: Seq<char>, x: i64, y: i64) -> bool {
    &&& str_of(at(p, "type"@)) == Some(kind)
    &&& crate::json::int_of(at(p, "x"@)) == Some(x)
    &&& crate::json::int_of(at(p, "y"@)) == Some(y)
    &&& str_of(at(p, "button"@)) == Some("left"@)
    &&& crate::json::int_of(at(p, "clickCount"@)) == Some(1i64)
}

fn mouse_params(kind: &str, x: i64, y: i64) -> (p: Json)
    ensures
        is_mouse_params(p, kind@, x, y),
{
    let mut m: Vec<(String, Json)> = Vec::new();
    crate::json::push_member(&mut m, "type", crate::json::json_str(kind));
    crate::json::push_member(&mut m, "x", crate::json::json_int(x));
    crate::json::push_member(&mut m, "y", crate::json::json_int(y));
    crate::json::push_member(&mut m, "button", crate::json::json_str("left"));
    crate::json::push_member(&mut m, "clickCount", crate::json::json_int(1));
    proof {
        reveal_strlit("type");
        reveal_strlit("x");
        reveal_strlit("y");
        reveal_strlit("button");
        reveal_strlit("clickCount");
        assert("type"@.len() == 4);
        assert("x"@.len() == 1);
        assert("y"@.len() == 1);
        assert("button"@.len() == 6);
        assert("clickCount"@.len() == 10);
        assert("x"@[0] == 'x');
        assert("y"@[0] == 'y');
    }
    Json::Object(m)
}

/// The id, method and parameters of a command of the login watch.
pub fn login_command_parts(c: &LoginCommand) -> (r: (u64, String, Json))
    ensures
        match *c {
            LoginCommand::NetworkEnable(id) => r.0 == id && r.1@ == "Network.enable"@
                && crate::json::members_of(r.2) == Some(Seq::<(String, Json)>::empty()),
            LoginCommand::GetAllCookies(id) => r.0 == id && r.1@ == "Network.getAllCookies"@
                && crate::json::members_of(r.2) == Some(Seq::<(String, Json)>::empty()),
            LoginCommand::ProbeQuickLogin(id) => r.0 == id && r.1@ == "Runtime.evaluate"@
                && str_of(at(r.2, "expression"@)) == Some(quick_login_probe_text())
                && at(r.2, "returnByValue"@) == Json::Bool(true),
            LoginCommand::ClickQuickLogin(id) => r.0 == id && r.1@ == "Runtime.evaluate"@
                && str_of(at(r.2, "expression"@)) == Some(quick_login_click_text())
                && at(r.2, "returnByValue"@) == Json::Bool(true),
            LoginCommand::MousePressed(id, x, y) => r.0 == id && r.1@ == "Input.dispatchMouseEvent"@
                && is_mouse_params(r.2, "mousePressed"@, x, y),
            LoginCommand::MouseReleased(id, x, y) => r.0 == id && r.1@
                == "Input.dispatchMouseEvent"@ && is_mouse_params(r.2, "mouseReleased"@, x, y),
        },
{
    match c {
        LoginCommand::NetworkEnable(id) => (*id, copy_str("Network.enable"), Json::Object(Vec::new())),
        LoginCommand::GetAllCookies(id) => (
            *id,
            copy_str("Network.getAllCookies"),
            Json::Object(Vec::new()),
        ),
        LoginCommand::ProbeQuickLogin(id) => {
            let js = quick_login_probe();
            (*id, copy_str("Runtime.evaluate"), evaluate_params(js.as_str(), false))
        },
        LoginCommand::ClickQuickLogin(id) => {
            let js = quick_login_click();
            (*id, copy_str("Runtime.evaluate"), evaluate_params(js.as_str(), false))
        },
        LoginCommand::MousePressed(id, x, y) => (
            *id,
            copy_str("Input.dispatchMouseEvent"),
            mouse_params("mousePressed", *x, *y),
        ),
        LoginCommand::MouseReleased(id, x, y) => (
            *id,
            copy_str("Input.dispatchMouseEvent"),
            mouse_params("mouseReleased", *x, *y),
        ),
    }
}


// ---------------------------------------------------------------------------
// The WeChat bridge
// ---------------------------------------------------------------------------

/// The parameters of `Fetch.enable` that pause the frame's requests to the
/// local WeChat service.
pub fn bridge_enable_params() -> (p: Json)
    ensures
        crate::json::items_of(at(p, "patterns"@)) matches Some(items) && items.len() == 1
            && str_of(at(items[0], "urlPattern"@)) == Some("*localhost.weixin.qq.com*"@) && str_of(
            at(items[0], "requestStage"@),
        ) == Some("Request"@),
{
    let mut pat: Vec<(String, Json)> = Vec::new();
    crate::json::push_member(&mut pat, "urlPattern", crate::json::json_str("*localhost.weixin.qq.com*"));
    crate::json::push_member(&mut pat, "requestStage", crate::json::json_str("Request"));
    proof {
        reveal_strlit("urlPattern");
        reveal_strlit("requestStage");
        assert("urlPattern"@.len() == 10);
        assert("requestStage"@.len() == 12);
    }
    let mut items: Vec<Json> = Vec::new();
    items.push(Json::Object(pat));
    let mut m: Vec<(String, Json)> = Vec::new();
    crate::json::push_member(&mut m, "patterns", Json::Array(items));
    Json::Object(m)
}

/// What the bridge does with a paused request.
pub enum BridgeRequest {
    /// Not a paused request, or one without an id.
    Ignore,
    /// A CORS preflight: answered at once with 200 and no body.
    Preflight(String),
    /// An API call of the local service, to be made over TLS 1.2.
    Exchange { request_id: String, method: String, url: String, post: String },
    /// Anything else goes on unchanged.
    Pass(String),
}

/// A string member of the paused request, or `default`.
pub open spec fn paused_text(v: Json, key: Seq<char>, default: Seq<char>) -> Seq<char> {
    match str_of(at(at(at(v, "params"@), "request"@), key)) {
        Some(t) => t,
        None => default,
    }
}

/// The id of the paused request, empty when absent.
pub open spec fn paused_id(v: Json) -> Seq<char> {
    crate::json::str_or_empty(at(at(v, "params"@), "requestId"@))
}

fn paused_str(v: &Json, key: &str, default: &str) -> (r: String)
    ensures
        r@ == paused_text(*v, key@, default@),
{
    let t: Option<&str> = match v.at("params") {
        Some(p) => match p.at("request") {
            Some(q) => q.str_at(key),
            None => None,
        },
        None => None,
    };
    match t {
        Some(x) => copy_str(x),
        None => copy_str(default),
    }
}

/// What to do with one message of the WeChat frame.
pub fn bridge_request(v: &Json) -> (r: BridgeRequest)
    ensures
        str_of(at(*v, "method"@)) != Some("Fetch.requestPaused"@) || paused_id(*v).len() == 0
            ==> r is Ignore,
        str_of(at(*v, "method"@)) == Some("Fetch.requestPaused"@) && paused_id(*v).len() > 0 ==> {
            let method = paused_text(*v, "method"@, "GET"@);
            let url = paused_text(*v, "url"@, Seq::<char>::empty());
            if crate::text::eq_ignore_case(method, "OPTIONS"@) {
                r matches BridgeRequest::Preflight(id) && id@ == paused_id(*v)
            } else if has_sub(url, "/api/"@) {
                r matches BridgeRequest::Exchange { request_id, method: m, url: u, post } && request_id@
                    == paused_id(*v) && m@ == method && u@ == url && post@ == paused_text(
                    *v,
                    "postData"@,
                    Seq::<char>::empty(),
                )
            } else {
                r matches BridgeRequest::Pass(id) && id@ == paused_id(*v)
            }
        },
{
    let paused = match v.str_at("method") {
        Some(m) => str_eq(m, "Fetch.requestPaused"),
        None => false,
    };
    if !paused {
        return BridgeRequest::Ignore;
    }
    let rid = match v.at("params") {
        Some(p) => match p.str_at("requestId") {
            Some(x) => copy_str(x),
            None => String::new(),
        },
        None => String::new(),
    };
    if rid.as_str().is_empty() {
        return BridgeRequest::Ignore;
    }
    proof {
        reveal_strlit("");
        assert(""@ =~= Seq::<char>::empty());
    }
    assert(rid@ == paused_id(*v));
    let url = paused_str(v, "url", "");
    let method = paused_str(v, "method", "GET");
    let post = paused_str(v, "postData", "");
    if crate::text::eq_ignore_ascii_case(method.as_str(), "OPTIONS") {
        BridgeRequest::Preflight(rid)
    } else if contains(url.as_str(), "/api/") {
        BridgeRequest::Exchange { request_id: rid, method, url, post }
    } else {
        BridgeRequest::Pass(rid)
    }
}

/// The headers that the bridge's answers carry.
pub open spec fn bridge_headers() -> Seq<(Seq<char>, Seq<char>)> {
    seq![
        ("Access-Control-Allow-Origin"@, "https://open.weixin.qq.com"@),
        ("Access-Control-Allow-Methods"@, "POST, GET, OPTIONS"@),
        ("Access-Control-Allow-Headers"@, "Content-Type"@),
        ("Access-Control-Allow-Private-Network"@, "true"@),
        ("Content-Type"@, "application/json"@),
    ]
}

/// A header as `{"name", "value"}`.
pub open spec fn is_header_object(h: Json, name: Seq<char>, value: Seq<char>) -> bool {
    str_of(at(h, "name"@)) == Some(name) && str_of(at(h, "value"@)) == Some(value)
}

fn header_object(name: &str, value: &str) -> (h: Json)
    ensures
        is_header_object(h, name@, value@),
{
    let mut m: Vec<(String, Json)> = Vec::new();
    crate::json::push_member(&mut m, "name", crate::json::json_str(name));
    crate::json::push_member(&mut m, "value", crate::json::json_str(value));
    proof {
        reveal_strlit("name");
        reveal_strlit("value");
        assert("name"@.len() == 4);
        assert("value"@.len() == 5);
    }
    Json::Object(m)
}

/// The parameters of `Fetch.fulfillRequest`: the answer `code` with `body`
/// (base64), and the CORS headers that let the login page read it.
pub fn fulfill_params(request_id: &str, code: u16, body: &[u8]) -> (p: Json)
    ensures
        str_of(at(p, "requestId"@)) == Some(request_id@),
        crate::json::int_of(at(p, "responseCode"@)) == Some(code as i64),
        crate::json::items_of(at(p, "responseHeaders"@)) matches Some(hs) && hs.len() == 5 && (
        forall|i: int|
            0 <= i < 5 ==> is_header_object(#[trigger] hs[i], bridge_headers()[i].0, bridge_headers()[i].1)),
        str_of(at(p, "body"@)) == Some(crate::login::b64_of(body@)),
{
    let mut hs: Vec<Json> = Vec::new();
    hs.push(header_object("Access-Control-Allow-Origin", "https://open.weixin.qq.com"));
    hs.push(header_object("Access-Control-Allow-Methods", "POST, GET, OPTIONS"));
    hs.push(header_object("Access-Control-Allow-Headers", "Content-Type"));
    hs.push(header_object("Access-Control-Allow-Private-Network", "true"));
    hs.push(header_object("Content-Type", "application/json"));
    let ghost hv = hs@;
    let encoded = crate::login::b64(body);
    let mut m: Vec<(String, Json)> = Vec::new();
    crate::json::push_member(&mut m, "requestId", crate::json::json_str(request_id));
    crate::json::push_member(&mut m, "responseCode", crate::json::json_int(code as i64));
    crate::json::push_member(&mut m, "responseHeaders", Json::Array(hs));
    crate::json::push_member(&mut m, "body", Json::Str(encoded));
    proof {
        reveal_strlit("requestId");
        reveal_strlit("responseCode");
        reveal_strlit("responseHeaders");
        reveal_strlit("body");
        assert("requestId"@.len() == 9);
        assert("responseCode"@.len() == 12);
        assert("responseHeaders"@.len() == 15);
        assert("body"@.len() == 4);
        assert("responseCode"@[8] == 'C');
        assert("responseHeaders"@[8] == 'H');
        assert forall|i: int| 0 <= i < 5 implies is_header_object(
            #[trigger] hv[i],
            bridge_headers()[i].0,
            bridge_headers()[i].1,
        ) by {}
    }
    Json::Object(m)
}

/// The parameters of `Fetch.continueRequest`.
pub fn continue_params(request_id: &str) -> (p: Json)
    ensures
        str_of(at(p, "requestId"@)) == Some(request_id@),
        crate::json::members_of(p) matches Some(m) && m.len() == 1,
{
    let mut m: Vec<(String, Json)> = Vec::new();
    crate::json::push_member(&mut m, "requestId", crate::json::json_str(request_id));
    Json::Object(m)
}

/// The arguments of `curl` that makes the call over TLS 1.2, sends the
/// body from its standard input and prints the status on a last line.
pub fn curl_args(method: &str, url: &str) -> (r: Vec<String>)
    ensures
        crate::text::views(r@) == seq![
            "-sk"@,
            "--tlsv1.2"@,
            "--tls-max"@,
            "1.2"@,
            "-m"@,
            "8"@,
            "-X"@,
            method@,
            url@,
            "-H"@,
            "Content-Type: application/json"@,
            "-H"@,
            "Origin: https://open.weixin.qq.com"@,
            "-w"@,
            "\n%{http_code}"@,
            "--data-binary"@,
            "@-"@,
        ],
{
    let mut r: Vec<String> = Vec::new();
    r.push(copy_str("-sk"));
    r.push(copy_str("--tlsv1.2"));
    r.push(copy_str("--tls-max"));
    r.push(copy_str("1.2"));
    r.push(copy_str("-m"));
    r.push(copy_str("8"));
    r.push(copy_str("-X"));
    r.push(copy_str(method));
    r.push(copy_str(url));
    r.push(copy_str("-H"));
    r.push(copy_str("Content-Type: application/json"));
    r.push(copy_str("-H"));
    r.push(copy_str("Origin: https://open.weixin.qq.com"));
    r.push(copy_str("-w"));
    r.push(copy_str("\n%{http_code}"));
    r.push(copy_str("--data-binary"));
    r.push(copy_str("@-"));
    assert(crate::text::views(r@) =~= seq![
        "-sk"@,
        "--tlsv1.2"@,
        "--tls-max"@,
        "1.2"@,
        "-m"@,
        "8"@,
        "-X"@,
        method@,
        url@,
        "-H"@,
        "Content-Type: application/json"@,
        "-H"@,
        "Origin: https://open.weixin.qq.com"@,
        "-w"@,
        "\n%{http_code}"@,
        "--data-binary"@,
        "@-"@,
    ]);
    r
}

/// The index of the last `c` in `s`.
pub open spec fn last_pos(s: Seq<char>, c: char) -> Option<int>
    decreases s.len(),
{
    if s.len() == 0 {
        None
    } else if s.last() == c {
        Some(s.len() - 1)
    } else {
        last_pos(s.drop_last(), c)
    }
}

/// What `curl` printed: the body, and the status of the last line (200
/// when it does not read as one).
pub open spec fn curl_reply(text: Seq<char>) -> (u16, Seq<char>) {
    match last_pos(text, '\n') {
        Some(i) => (
            match crate::text::parse_u16(trim(text.skip(i + 1))) {
                Some(c) => c,
                None => 200,
            },
            text.take(i),
        ),
        None => (200, text),
    }
}

proof fn lemma_last_pos(s: Seq<char>, c: char, k: int)
    requires
        -1 <= k < s.len(),
        forall|i: int| k < i < s.len() ==> #[trigger] s[i] != c,
        k >= 0 ==> s[k] == c,
    ensures
        last_pos(s, c) == if k < 0 {
            None::<int>
        } else {
            Some(k)
        },
    decreases s.len(),
{
    if s.len() > 0 && k < s.len() - 1 {
        assert(s.last() != c);
        let t = s.drop_last();
        assert forall|i: int| k < i < t.len() implies #[trigger] t[i] != c by {
            assert(t[i] == s[i]);
        }
        lemma_last_pos(t, c, k);
    }
}

/// Reads what `curl` printed.
pub fn curl_output(text: &str) -> (r: (u16, String))
    ensures
        (r.0, r.1@) == curl_reply(text@),
{
    let v = chars_of(text);
    let n = v.len();
    let mut k: usize = n;
    while k > 0 && v[k - 1] != '\n'
        invariant
            n == v@.len(),
            k <= n,
            forall|i: int| k <= i < n ==> #[trigger] v@[i] != '\n',
        decreases k,
    {
        k = k - 1;
    }
    if k == 0 {
        proof {
            lemma_last_pos(v@, '\n', -1);
        }
        return (200, copy_str(text));
    }
    let i = k - 1;
    proof {
        lemma_last_pos(v@, '\n', i as int);
    }
    let last_line = vec_range(&v, i + 1, n);
    assert(last_line@ == v@.skip(i + 1));
    let tail = trim_chars(&last_line);
    let code = match crate::text::parse_u16_chars(&tail) {
        Some(c) => c,
        None => 200,
    };
    let body = string_of_range(&v, 0, i);
    assert(body@ == v@.take(i as int));
    (code, body)
}

// ---------------------------------------------------------------------------
// Evaluating a script in the console page
// ---------------------------------------------------------------------------

/// What an answer to `Runtime.evaluate` means.
pub enum PageEval {
    /// The message answers another command.
    Other,
    /// The script threw: the exception's details.
    Exception(Json),
    /// The script's value (`null` when none).
    Value(Json),
}

/// Reads a message while waiting for the answer to the evaluation `id`.
pub fn page_eval_reply(v: Json, id: u64) -> (r: PageEval)
    ensures
        reply_id(v) != Some(id) ==> r is Other,
        reply_id(v) == Some(id) ==> match field(at(v, "result"@), "exceptionDetails"@) {
            Some(ex) => r == PageEval::Exception(ex),
            None => r == PageEval::Value(at(at(at(v, "result"@), "result"@), "value"@)),
        },
{
    let mine = match v.get("id") {
        Some(x) => match x.as_u64() {
            Some(n) => n == id,
            None => false,
        },
        None => false,
    };
    if !mine {
        return PageEval::Other;
    }
    let result = crate::apm::take_at(v, "result");
    if result.get("exceptionDetails").is_some() {
        match result.take("exceptionDetails") {
            Some(ex) => PageEval::Exception(ex),
            None => PageEval::Other,
        }
    } else {
        let inner = crate::apm::take_at(result, "result");
        PageEval::Value(crate::apm::take_at(inner, "value"))
    }
}

/// The message for a script that threw, given the JSON text of the details.
pub fn page_exception_message(details: &str) -> (r: String)
    ensures
        r@ == "页面里执行 JS 抛异常: "@ + details@.take(
            if details@.len() < 300 {
                details@.len() as int
            } else {
                300
            },
        ),
{
    let mut r = copy_str("页面里执行 JS 抛异常: ");
    let head = crate::text::take_chars(details, 300);
    crate::text::push_str(&mut r, head.as_str());
    r
}

} // verus!
