//! Login helpers: the console's csrf hash, cookie inspection and the
//! decisions taken while a login window or a hidden console page is watched.
use crate::json::{at, items_of, members_of, str_eq, str_or_empty, Json};
use crate::text::{
    blank, chars_of, contains, copy_str, decimal, ends_with, has_suffix, parse_i64, parse_i64_chars, eq_ignore_case, eq_ignore_case_at, find, first_occurrence, has_sub,
    is_blank, lower_all, lowercase, occurs_at, push_str, split_on, split_str, string_of_range,
    trim, trim_bounds, find_char, u64_text,
};
use vstd::prelude::*;

verus! {

/// The debugging port of the browser windows; it must match the main
/// window's `additionalBrowserArgs`.
pub const CDP_PORT: u16 = 9223;

/// The browser arguments every window must share (one data directory takes
/// only one set of arguments).
pub const BROWSER_ARGS: &'static str = "--disable-features=msWebOOUI,msPdfOOUI,msSmartScreenProtection,LocalNetworkAccessChecks,PrivateNetworkAccessSendPreflights,PrivateNetworkAccessRespectPreflightResults,BlockInsecurePrivateNetworkRequests --remote-debugging-port=9223";

/// The console page the login window opens.
pub const LOGIN_URL: &'static str = "https://console.cloud.tencent.com/monitor/apm/system/list";


// ---------------------------------------------------------------------------
// Reading a parameter out of a URL
// ---------------------------------------------------------------------------

/// A character that may appear in a token value: ASCII letters and digits, `_`, `-`.
pub open spec fn is_token_char(c: char) -> bool {
    ||| '0' <= c <= '9'
    ||| 'a' <= c <= 'z'
    ||| 'A' <= c <= 'Z'
    ||| c == '_'
    ||| c == '-'
}

/// Length of the run of token characters at the start of `s`.
pub open spec fn token_len(s: Seq<char>) -> nat
    decreases s.len(),
{
    if s.len() > 0 && is_token_char(s[0]) {
        1 + token_len(s.drop_first())
    } else {
        0
    }
}

/// The index of the first occurrence of `p` in `s`.
pub open spec fn sub_pos(s: Seq<char>, p: Seq<char>) -> Option<int> {
    if has_sub(s, p) {
        Some(choose|i: int| first_occurrence(s, p, i))
    } else {
        None
    }
}

/// The run of token characters right after the first `key` in `url`,
/// possibly empty; nothing when `key` is absent.
pub open spec fn token_after(url: Seq<char>, key: Seq<char>) -> Option<Seq<char>> {
    match sub_pos(url, key) {
        None => None,
        Some(i) => {
            let rest = url.skip(i + key.len());
            Some(rest.take(token_len(rest) as int))
        },
    }
}

/// `extract(url, key)`: the token right after the first `key` in `url`;
/// nothing when `key` is absent or no token character follows it.
pub open spec fn extract_of(url: Seq<char>, key: Seq<char>) -> Option<Seq<char>> {
    match token_after(url, key) {
        Some(t) => if t.len() == 0 {
            None
        } else {
            Some(t)
        },
        None => None,
    }
}

/// A first occurrence is unique, so `sub_pos` names the one `find` returns.
pub proof fn lemma_sub_pos(s: Seq<char>, p: Seq<char>, i: int)
    requires
        first_occurrence(s, p, i),
    ensures
        sub_pos(s, p) == Some(i),
{
    assert(occurs_at(s, p, i));
    let k = choose|k: int| first_occurrence(s, p, k);
    assert(first_occurrence(s, p, k));
    if k < i {
        assert(!occurs_at(s, p, k));
    }
    if i < k {
        assert(!occurs_at(s, p, i));
    }
}

proof fn lemma_token_len(s: Seq<char>, k: nat)
    requires
        k <= s.len(),
        forall|i: int| 0 <= i < k ==> is_token_char(#[trigger] s[i]),
        k < s.len() ==> !is_token_char(s[k as int]),
    ensures
        token_len(s) == k,
    decreases s.len(),
{
    if s.len() > 0 && is_token_char(s[0]) {
        assert(k > 0);
        let t = s.drop_first();
        assert forall|i: int| 0 <= i < k - 1 implies is_token_char(#[trigger] t[i]) by {
            assert(t[i] == s[i + 1]);
        }
        if k - 1 < t.len() {
            assert(t[k - 1] == s[k as int]);
        }
        lemma_token_len(t, (k - 1) as nat);
    } else {
        if k > 0 {
            assert(is_token_char(s[0]));
        }
    }
}

fn token_char(c: char) -> (b: bool)
    ensures
        b == is_token_char(c),
{
    ('0' <= c && c <= '9') || ('a' <= c && c <= 'z') || ('A' <= c && c <= 'Z') || c == '_' || c
        == '-'
}

/// The bounds in `url` of the run of token characters after the first `key`.
pub fn token_bounds(url: &[char], key: &[char]) -> (r: Option<(usize, usize)>)
    ensures
        match r {
            Some((a, b)) => a <= b <= url@.len() && token_after(url@, key@) == Some(
                url@.subrange(a as int, b as int),
            ),
            None => token_after(url@, key@) is None,
        },
{
    let ulen = url.len();
    match find(url, key) {
        None => None,
        Some(idx) => {
            assert(idx + key@.len() <= ulen);
            proof {
                lemma_sub_pos(url@, key@, idx as int);
            }
            let start = idx + key.len();
            let mut end = start;
            while end < url.len() && token_char(url[end])
                invariant
                    start <= end <= url@.len(),
                    forall|i: int| start <= i < end ==> is_token_char(#[trigger] url@[i]),
                decreases url.len() - end,
            {
                end = end + 1;
            }
            proof {
                let rest = url@.skip(start as int);
                assert forall|i: int| 0 <= i < end - start implies is_token_char(#[trigger] rest[i]) by {
                    assert(rest[i] == url@[start + i]);
                }
                if end < url@.len() {
                    assert(rest[end - start] == url@[end as int]);
                }
                lemma_token_len(rest, (end - start) as nat);
                assert(rest.take(end - start) == url@.subrange(start as int, end as int));
            }
            Some((start, end))
        },
    }
}

/// The token right after the first `key` in `url`.
pub fn extract(url: &str, key: &str) -> (r: Option<String>)
    ensures
        match r {
            Some(v) => extract_of(url@, key@) == Some(v@),
            None => extract_of(url@, key@) is None,
        },
{
    let u = chars_of(url);
    let k = chars_of(key);
    match token_bounds(&u, &k) {
        Some((a, b)) => if a == b {
            None
        } else {
            Some(string_of_range(&u, a, b))
        },
        None => None,
    }
}

/// `extract`, with the placeholder value `0` read as "not given".
pub open spec fn extract_id_of(url: Seq<char>, key: Seq<char>) -> Seq<char> {
    match extract_of(url, key) {
        Some(v) => if v == seq!['0'] {
            Seq::<char>::empty()
        } else {
            v
        },
        None => Seq::<char>::empty(),
    }
}

/// The id after `key` in a console URL; empty when absent or `0`.
pub fn extract_id(url: &str, key: &str) -> (r: String)
    ensures
        r@ == extract_id_of(url@, key@),
{
    match extract(url, key) {
        Some(v) => {
            let vc = chars_of(v.as_str());
            if vc.len() == 1 && vc[0] == '0' {
                assert(vc@ == seq!['0']);
                String::new()
            } else {
                v
            }
        },
        None => String::new(),
    }
}

/// Whether the page was sent to a login page: a login / sso / auth fragment in
/// the URL, and not the target console page (`/tke2/`).
pub open spec fn login_url_text(href: Seq<char>) -> bool {
    let h = lower_all(href);
    !has_sub(h, "/tke2/"@) && (has_sub(h, "/login"@) || has_sub(h, "login."@) || has_sub(
        h,
        "/sso"@,
    ) || has_sub(h, "auth."@))
}

/// Whether `href` is a login page.
pub fn is_login_url(href: &str) -> (b: bool)
    ensures
        b == login_url_text(href@),
{
    let h = lowercase(href);
    if find(&h, &chars_of("/tke2/")).is_some() {
        return false;
    }
    find(&h, &chars_of("/login")).is_some() || find(&h, &chars_of("login.")).is_some() || find(
        &h,
        &chars_of("/sso"),
    ).is_some() || find(&h, &chars_of("auth.")).is_some()
}

// ---------------------------------------------------------------------------
// Cookie inspection
// ---------------------------------------------------------------------------

/// One cookie piece (trimmed) is `key=value` with the key matched without
/// regard to ASCII case and a value that is not blank.
pub open spec fn piece_has(piece: Seq<char>, key: Seq<char>) -> bool {
    let p = trim(piece);
    let k = key.len();
    &&& p.len() > k + 1
    &&& eq_ignore_case(p.take(k as int), key)
    &&& p[k as int] == '='
    &&& !is_blank(p.skip(k as int + 1))
}

/// The cookie has a non-blank value for `key` (so `uin` never matches `ownerUin`).
pub open spec fn cookie_has_key(c: Seq<char>, key: Seq<char>) -> bool {
    exists|i: int| 0 <= i < split_on(c, ';').len() && piece_has(#[trigger] split_on(c, ';')[i], key)
}

/// Whether one piece has a value for `key`.
fn piece_has_key(piece: &[char], key: &[char]) -> (b: bool)
    ensures
        b == piece_has(piece@, key@),
{
    let (a, z) = trim_bounds(piece);
    let ghost p = trim(piece@);
    assert(p == piece@.subrange(a as int, z as int));
    let k = key.len();
    let n = z - a;
    if !(n > k && n - k > 1) {
        return false;
    }
    if !eq_ignore_case_at(piece, a, key) {
        assert(piece@.subrange(a as int, a + k) == p.take(k as int));
        return false;
    }
    assert(piece@.subrange(a as int, a + k) == p.take(k as int));
    if piece[a + k] != '=' {
        assert(p[k as int] == piece@[a + k]);
        return false;
    }
    assert(p[k as int] == piece@[a + k]);
    let rest = string_of_range(piece, a + k + 1, z);
    assert(rest@ == p.skip(k + 1));
    !blank(rest.as_str())
}

/// Whether the cookie has a non-blank value for `key`, the key matched
/// without regard to ASCII case. Read by characters: where the key's match
/// and the `=` after it stand, characters and bytes line up, so this is the
/// byte-wise reading of the key too.
pub fn cookie_has(c: &str, key: &str) -> (b: bool)
    ensures
        b == cookie_has_key(c@, key@),
{
    let pieces = split_str(c, ';');
    let kv = chars_of(key);
    let mut i: usize = 0;
    while i < pieces.len()
        invariant
            i <= pieces@.len(),
            kv@ == key@,
            pieces@.len() == split_on(c@, ';').len(),
            forall|j: int| 0 <= j < pieces@.len() ==> (#[trigger] pieces@[j])@ == split_on(c@, ';')[j],
            forall|j: int| 0 <= j < i ==> !piece_has(#[trigger] split_on(c@, ';')[j], key@),
        decreases pieces.len() - i,
    {
        if piece_has_key(&pieces[i], &kv) {
            assert(piece_has(split_on(c@, ';')[i as int], key@));
            return true;
        }
        i = i + 1;
    }
    false
}

/// A console session cookie always has `uin`.
pub fn cookie_has_uin(c: &str) -> (b: bool)
    ensures
        b == cookie_has_key(c@, "uin"@),
{
    proof {
        reveal_strlit("uin");
    }
    cookie_has(c, "uin")
}

/// The console session is complete: `uin`, plus `ownerUin` or `refreshSession`.
pub open spec fn cookie_complete(c: Seq<char>) -> bool {
    cookie_has_key(c, "uin"@) && (cookie_has_key(c, "owneruin"@) || cookie_has_key(
        c,
        "refreshsession"@,
    ))
}

/// Whether the session cookie is complete (not a half-written one).
pub fn cookie_is_complete(c: &str) -> (b: bool)
    ensures
        b == cookie_complete(c@),
{
    proof {
        reveal_strlit("uin");
        reveal_strlit("owneruin");
        reveal_strlit("refreshsession");
    }
    cookie_has(c, "uin") && (cookie_has(c, "owneruin") || cookie_has(c, "refreshsession"))
}

/// Number of pieces that hold a `=`.
pub open spec fn count_pairs(pieces: Seq<Seq<char>>) -> nat
    decreases pieces.len(),
{
    if pieces.len() == 0 {
        0
    } else {
        count_pairs(pieces.drop_last()) + if pieces.last().contains('=') {
            1nat
        } else {
            0nat
        }
    }
}

/// "有" when present, "无" when not.
pub open spec fn presence(b: bool) -> Seq<char> {
    if b {
        "有"@
    } else {
        "无"@
    }
}

/// The diagnostic line for a cookie: the number of pairs and, for four keys,
/// whether they are present. No value of the cookie appears in it.
pub open spec fn cookie_description(c: Seq<char>) -> Seq<char> {
    "段数 "@ + decimal(count_pairs(split_on(c, ';')) as int) + "，uin="@ + presence(
        cookie_has_key(c, "uin"@),
    ) + "，ownerUin="@ + presence(cookie_has_key(c, "owneruin"@)) + "，refreshSession="@
        + presence(cookie_has_key(c, "refreshsession"@)) + "，saas_synced_session="@ + presence(
        cookie_has_key(c, "saas_synced_session"@),
    )
}

fn presence_text(b: bool) -> (s: &'static str)
    ensures
        s@ == presence(b),
{
    if b {
        "有"
    } else {
        "无"
    }
}

/// Describes how complete a cookie is, printing presence only, never a value.
pub fn describe_cookie(c: &str) -> (s: String)
    ensures
        s@ == cookie_description(c@),
{
    let pieces = split_str(c, ';');
    let mut count: u64 = 0;
    let mut i: usize = 0;
    while i < pieces.len()
        invariant
            i <= pieces@.len(),
            pieces@.len() == split_on(c@, ';').len(),
            forall|j: int| 0 <= j < pieces@.len() ==> (#[trigger] pieces@[j])@ == split_on(c@, ';')[j],
            count == count_pairs(split_on(c@, ';').take(i as int)),
            count <= i,
        decreases pieces.len() - i,
    {
        let ghost all = split_on(c@, ';');
        assert(all.take(i + 1).drop_last() == all.take(i as int));
        assert(all.take(i + 1).last() == pieces@[i as int]@);
        if find_char(&pieces[i], '=', 0).is_some() {
            count = count + 1;
        } else {
            assert(!pieces@[i as int]@.contains('='));
        }
        i = i + 1;
    }
    assert(split_on(c@, ';').take(pieces@.len() as int) == split_on(c@, ';'));
    proof {
        reveal_strlit("uin");
        reveal_strlit("owneruin");
        reveal_strlit("refreshsession");
        reveal_strlit("saas_synced_session");
    }
    let mut s = String::new();
    push_str(&mut s, "段数 ");
    let n = u64_text(count);
    push_str(&mut s, n.as_str());
    push_str(&mut s, "，uin=");
    push_str(&mut s, presence_text(cookie_has(c, "uin")));
    push_str(&mut s, "，ownerUin=");
    push_str(&mut s, presence_text(cookie_has(c, "owneruin")));
    push_str(&mut s, "，refreshSession=");
    push_str(&mut s, presence_text(cookie_has(c, "refreshsession")));
    push_str(&mut s, "，saas_synced_session=");
    push_str(&mut s, presence_text(cookie_has(c, "saas_synced_session")));
    assert(s@ =~= cookie_description(c@));
    s
}

/// Two cookies with the same number of pairs and the same four keys present
/// are described by the same line: the description never carries a value.
pub proof fn law_description_hides_values(a: Seq<char>, b: Seq<char>)
    requires
        count_pairs(split_on(a, ';')) == count_pairs(split_on(b, ';')),
        cookie_has_key(a, "uin"@) == cookie_has_key(b, "uin"@),
        cookie_has_key(a, "owneruin"@) == cookie_has_key(b, "owneruin"@),
        cookie_has_key(a, "refreshsession"@) == cookie_has_key(b, "refreshsession"@),
        cookie_has_key(a, "saas_synced_session"@) == cookie_has_key(b, "saas_synced_session"@),
    ensures
        cookie_description(a) == cookie_description(b),
{
}

// ---------------------------------------------------------------------------
// Base64
// ---------------------------------------------------------------------------

/// The base64 alphabet: `A-Z`, `a-z`, `0-9`, `+`, `/`.
pub open spec fn b64_char(n: int) -> char {
    if n < 26 {
        (('A' as u32) + n) as char
    } else if n < 52 {
        (('a' as u32) + n - 26) as char
    } else if n < 62 {
        (('0' as u32) + n - 52) as char
    } else if n == 62 {
        '+'
    } else {
        '/'
    }
}

/// The four characters for one group of up to three bytes (`len` of them
/// real, the rest zero), with `=` for the missing ones.
pub open spec fn b64_group(b0: u8, b1: u8, b2: u8, len: int) -> Seq<char> {
    let n = b0 as int * 65536 + b1 as int * 256 + b2 as int;
    seq![
        b64_char(n / 262144),
        b64_char((n / 4096) % 64),
        if len >= 2 { b64_char((n / 64) % 64) } else { '=' },
        if len >= 3 { b64_char(n % 64) } else { '=' },
    ]
}

/// Standard base64 with `=` padding.
pub open spec fn b64_of(d: Seq<u8>) -> Seq<char>
    decreases d.len(),
{
    if d.len() >= 3 {
        b64_group(d[0], d[1], d[2], 3) + b64_of(d.skip(3))
    } else if d.len() == 2 {
        b64_group(d[0], d[1], 0, 2)
    } else if d.len() == 1 {
        b64_group(d[0], 0, 0, 1)
    } else {
        Seq::<char>::empty()
    }
}

/// Appends one base64 group.
fn push_group(out: &mut String, b0: u8, b1: u8, b2: u8, len: u8)
    requires
        1 <= len <= 3,
    ensures
        final(out)@ == old(out)@ + b64_group(b0, b1, b2, len as int),
{
    let n: u32 = (b0 as u32) * 65536 + (b1 as u32) * 256 + b2 as u32;
    assert(n < 16777216);
    push_b64(out, n / 262144);
    push_b64(out, (n / 4096) % 64);
    if len >= 2 {
        push_b64(out, (n / 64) % 64);
    } else {
        push_char_text(out, '=');
    }
    if len >= 3 {
        push_b64(out, n % 64);
    } else {
        push_char_text(out, '=');
    }
    assert(final(out)@ =~= old(out)@ + b64_group(b0, b1, b2, len as int));
}

fn b64_digit(n: u32) -> (c: char)
    requires
        n < 64,
    ensures
        c == b64_char(n as int),
{
    if n < 26 {
        char_of_code(65 + n)
    } else if n < 52 {
        char_of_code(97 + n - 26)
    } else if n < 62 {
        char_of_code(48 + n - 52)
    } else if n == 62 {
        '+'
    } else {
        '/'
    }
}

fn char_of_code(u: u32) -> (c: char)
    requires
        u < 128,
    ensures
        c as u32 == u,
{
    (u as u8) as char
}

/// Base64 of `data`, as the body of a fulfilled CDP request.
pub fn b64(data: &[u8]) -> (s: String)
    ensures
        s@ == b64_of(data@),
        s@.len() == 4 * ((data@.len() + 2) / 3),
{
    let mut out = String::new();
    let len = data.len();
    let mut i: usize = 0;
    assert(data@.skip(0) == data@);
    while i < len && len - i >= 3
        invariant
            len == data@.len(),
            i <= len,
            out@ + b64_of(data@.skip(i as int)) == b64_of(data@),
            out@.len() == 4 * (i / 3),
            i % 3 == 0,
        decreases len - i,
    {
        let ghost rest = data@.skip(i as int);
        assert(rest[0] == data@[i as int] && rest[1] == data@[i + 1] && rest[2] == data@[i + 2]);
        assert(rest.skip(3) == data@.skip(i + 3));
        let ghost before = out@;
        push_group(&mut out, data[i], data[i + 1], data[i + 2], 3);
        assert(before + b64_of(rest) == out@ + b64_of(rest.skip(3)));
        i = i + 3;
    }
    let ghost rest = data@.skip(i as int);
    let ghost before = out@;
    if i < len {
        assert(rest[0] == data@[i as int]);
        if len - i == 2 {
            assert(rest[1] == data@[i + 1]);
            push_group(&mut out, data[i], data[i + 1], 0, 2);
        } else {
            push_group(&mut out, data[i], 0, 0, 1);
        }
    }
    assert(out@ == before + b64_of(rest));
    proof {
        s_len_lemma(data@.len());
    }
    out
}

proof fn s_len_lemma(n: nat)
    ensures
        4 * ((n + 2) / 3) == 4 * (n / 3) + if n % 3 == 0 {
            0int
        } else {
            4int
        },
{
}

fn push_b64(out: &mut String, n: u32)
    requires
        n < 64,
    ensures
        final(out)@ == old(out)@.push(b64_char(n as int)),
{
    push_char_text(out, b64_digit(n));
}

fn push_char_text(out: &mut String, c: char)
    ensures
        final(out)@ == old(out)@.push(c),
{
    let v: Vec<char> = vec![c];
    let s = crate::text::string_of(&v);
    assert(s@ == seq![c]);
    push_str(out, s.as_str());
    assert(old(out)@ + seq![c] == old(out)@.push(c));
}

/// The 32-bit running hash behind `bkn`: `h = 33 * h + ch`, starting at 5381,
/// wrapping around at 2^32.
pub open spec fn bkn_hash(s: Seq<char>) -> u32
    decreases s.len(),
{
    if s.len() == 0 {
        5381
    } else {
        bkn_hash(s.drop_last()).wrapping_mul(33).wrapping_add(s.last() as u32)
    }
}

/// The same hash over unbounded integers: `H("") = 5381`,
/// `H(s + c) = 33 * H(s) + c`.
pub open spec fn bkn_poly(s: Seq<char>) -> int
    decreases s.len(),
{
    if s.len() == 0 {
        5381
    } else {
        33 * bkn_poly(s.drop_last()) + (s.last() as u32) as int
    }
}

/// The wrapping hash is the unbounded one taken modulo 2^32.
pub proof fn lemma_bkn_hash_is_poly(s: Seq<char>)
    ensures
        bkn_hash(s) as int == bkn_poly(s) % 0x1_0000_0000,
    decreases s.len(),
{
    if s.len() > 0 {
        let t = s.drop_last();
        lemma_bkn_hash_is_poly(t);
        let m: int = 0x1_0000_0000;
        let p = bkn_poly(t);
        let c = (s.last() as u32) as int;
        let x = (bkn_hash(t) as int * 33) % m;
        vstd::arithmetic::div_mod::lemma_mul_mod_noop_left(p, 33, m);
        assert(x == (p * 33) % m);
        vstd::arithmetic::div_mod::lemma_add_mod_noop(p * 33, c, m);
        vstd::arithmetic::div_mod::lemma_small_mod(c as nat, m as nat);
        vstd::arithmetic::div_mod::lemma_mod_twice(p * 33, m);
        assert(bkn_hash(s) as int == (x + c) % m) by {
            vstd::arithmetic::div_mod::lemma_mod_bound(p * 33, m);
            if x + c >= m {
                vstd::arithmetic::div_mod::lemma_mod_self_0(m);
                vstd::arithmetic::div_mod::lemma_mod_sub_multiples_vanish(x + c, m);
                vstd::arithmetic::div_mod::lemma_small_mod((x + c - m) as nat, m as nat);
            } else {
                vstd::arithmetic::div_mod::lemma_small_mod((x + c) as nat, m as nat);
            }
        }
        assert(33 * p == p * 33) by (nonlinear_arith);
    }
}

/// `bkn` is the unbounded hash `H` taken modulo 2^31: over integers,
/// `H("") = 5381` and `H(s + c) = 33 * H(s) + c`.
pub proof fn law_bkn_is_hash_mod_2_31(s: Seq<char>)
    ensures
        bkn_value(s) == bkn_poly(s) % 0x8000_0000,
        0 <= bkn_value(s) < 0x8000_0000,
{
    lemma_bkn_hash_is_poly(s);
    vstd::arithmetic::div_mod::lemma_mod_mod(bkn_poly(s), 0x8000_0000, 2);
    assert(0x8000_0000int * 2 == 0x1_0000_0000int);
}

/// The console's csrf code for a session key: the low 31 bits of `bkn_hash`.
pub open spec fn bkn_value(s: Seq<char>) -> int {
    (bkn_hash(s) % 0x8000_0000) as int
}

/// `bkn(skey)`: the csrf code the console derives from the `skey` cookie.
pub fn bkn(skey: &str) -> (r: i64)
    ensures
        r == bkn_value(skey@),
        0 <= r < 0x8000_0000,
{
    let v = chars_of(skey);
    let mut hash: u32 = 5381;
    let mut i: usize = 0;
    while i < v.len()
        invariant
            i <= v@.len(),
            v@ == skey@,
            hash == bkn_hash(v@.take(i as int)),
        decreases v.len() - i,
    {
        assert(v@.take(i + 1).drop_last() == v@.take(i as int));
        hash = hash.wrapping_mul(33).wrapping_add(v[i] as u32);
        i = i + 1;
    }
    assert(v@.take(v@.len() as int) == v@);
    let low = hash & 0x7fff_ffffu32;
    assert(low == hash % 0x8000_0000) by (bit_vector)
        requires
            low == hash & 0x7fff_ffffu32,
    ;
    low as i64
}

} // verus!

verus! {

// ---------------------------------------------------------------------------
// Flattening the browser's cookies into one Cookie header
// ---------------------------------------------------------------------------

/// One cookie kept for the header: name, domain score, value.
pub type CookieEntry = (Seq<char>, int, Seq<char>);

/// The position of `name` among the kept entries.
pub open spec fn entry_pos(st: Seq<CookieEntry>, name: Seq<char>) -> Option<int>
    decreases st.len(),
{
    if st.len() == 0 {
        None
    } else if st[0].0 == name {
        Some(0)
    } else {
        match entry_pos(st.drop_first(), name) {
            Some(k) => Some(k + 1),
            None => None,
        }
    }
}

/// Reads one cookie of `Network.getAllCookies`: only `tencent.com` domains,
/// no empty name or value; among cookies of the same name the console domain
/// (`cloud.tencent.com`, score 2) beats the others (score 1), and on a tie the
/// first one stays. A name keeps the place where it was first kept.
pub open spec fn cookie_step(st: Seq<CookieEntry>, c: Json) -> Seq<CookieEntry> {
    let domain = str_or_empty(at(c, "domain"@));
    let name = str_or_empty(at(c, "name"@));
    let value = str_or_empty(at(c, "value"@));
    if !ends_with(domain, "tencent.com"@) || name.len() == 0 || value.len() == 0 {
        st
    } else {
        let score: int = if has_sub(domain, "cloud.tencent.com"@) {
            2
        } else {
            1
        };
        match entry_pos(st, name) {
            Some(j) => if st[j].1 >= score {
                st
            } else {
                st.update(j, (name, score, value))
            },
            None => st.push((name, score, value)),
        }
    }
}

/// The entries kept after reading `cs` in order.
pub open spec fn cookie_entries(cs: Seq<Json>) -> Seq<CookieEntry>
    decreases cs.len(),
{
    if cs.len() == 0 {
        Seq::<CookieEntry>::empty()
    } else {
        cookie_step(cookie_entries(cs.drop_last()), cs.last())
    }
}

/// `name=value` pairs joined with `; `.
pub open spec fn cookie_line(st: Seq<CookieEntry>) -> Seq<char>
    decreases st.len(),
{
    if st.len() == 0 {
        Seq::<char>::empty()
    } else if st.len() == 1 {
        st[0].0 + "="@ + st[0].2
    } else {
        cookie_line(st.drop_last()) + "; "@ + st.last().0 + "="@ + st.last().2
    }
}

/// The cookies array of a `Network.getAllCookies` answer (empty when absent).
pub open spec fn cookies_of(v: Json) -> Seq<Json> {
    match items_of(at(at(v, "result"@), "cookies"@)) {
        Some(a) => a,
        None => Seq::<Json>::empty(),
    }
}

/// The Cookie header built from a `Network.getAllCookies` answer.
pub open spec fn cookie_header(v: Json) -> Seq<char> {
    cookie_line(cookie_entries(cookies_of(v)))
}

/// The kept entries as plain values.
pub open spec fn entries_view(st: Seq<(String, u8, String)>) -> Seq<CookieEntry> {
    st.map_values(|e: (String, u8, String)| (e.0@, e.1 as int, e.2@))
}

fn find_entry(st: &Vec<(String, u8, String)>, name: &str) -> (r: Option<usize>)
    ensures
        match r {
            Some(j) => j < st@.len() && entry_pos(entries_view(st@), name@) == Some(j as int),
            None => entry_pos(entries_view(st@), name@) is None,
        },
{
    let mut i: usize = 0;
    assert(entries_view(st@).skip(0) == entries_view(st@));
    while i < st.len()
        invariant
            i <= st@.len(),
            forall|k: int| 0 <= k < i ==> entries_view(st@)[k].0 != name@,
        decreases st.len() - i,
    {
        if str_eq(st[i].0.as_str(), name) {
            proof {
                lemma_entry_pos_at(entries_view(st@), name@, i as int);
            }
            return Some(i);
        }
        i = i + 1;
    }
    proof {
        lemma_entry_pos_none(entries_view(st@), name@);
    }
    None
}

proof fn lemma_entry_pos_at(st: Seq<CookieEntry>, name: Seq<char>, i: int)
    requires
        0 <= i < st.len(),
        st[i].0 == name,
        forall|k: int| 0 <= k < i ==> st[k].0 != name,
    ensures
        entry_pos(st, name) == Some(i),
    decreases i,
{
    if i > 0 {
        let t = st.drop_first();
        assert forall|k: int| 0 <= k < i - 1 implies t[k].0 != name by {
            assert(t[k] == st[k + 1]);
        }
        lemma_entry_pos_at(t, name, i - 1);
    }
}

proof fn lemma_entry_pos_none(st: Seq<CookieEntry>, name: Seq<char>)
    requires
        forall|k: int| 0 <= k < st.len() ==> st[k].0 != name,
    ensures
        entry_pos(st, name) is None,
    decreases st.len(),
{
    if st.len() > 0 {
        let t = st.drop_first();
        assert forall|k: int| 0 <= k < t.len() implies t[k].0 != name by {
            assert(t[k] == st[k + 1]);
        }
        lemma_entry_pos_none(t, name);
    }
}

proof fn lemma_entry_pos_found(st: Seq<CookieEntry>, name: Seq<char>)
    ensures
        match entry_pos(st, name) {
            Some(j) => 0 <= j < st.len() && st[j].0 == name,
            None => forall|k: int| 0 <= k < st.len() ==> st[k].0 != name,
        },
    decreases st.len(),
{
    if st.len() > 0 && st[0].0 != name {
        let t = st.drop_first();
        lemma_entry_pos_found(t, name);
        assert forall|k: int| 0 <= k < t.len() implies t[k] == st[k + 1] by {}
        match entry_pos(t, name) {
            Some(j) => {},
            None => {
                assert forall|k: int| 0 <= k < st.len() implies st[k].0 != name by {
                    if k > 0 {
                        assert(st[k] == t[k - 1]);
                    }
                }
            },
        }
    }
}

/// The text of member `key` of a cookie (empty when missing).
pub open spec fn cookie_text(c: Json, key: Seq<char>) -> Seq<char> {
    match at(c, key) {
        Json::Str(s) => s@,
        _ => Seq::<char>::empty(),
    }
}

/// A cookie that can go into the header: a `tencent.com` domain, a name and
/// a value.
pub open spec fn usable_cookie(c: Json) -> bool {
    &&& ends_with(cookie_text(c, "domain"@), "tencent.com"@)
    &&& cookie_text(c, "name"@).len() > 0
    &&& cookie_text(c, "value"@).len() > 0
}

/// A usable cookie of the console's own domain.
pub open spec fn console_cookie(c: Json) -> bool {
    usable_cookie(c) && has_sub(cookie_text(c, "domain"@), "cloud.tencent.com"@)
}

/// Entry `e` comes from cookie `c`: a usable cookie with that name and
/// value, scored 2 exactly when it is of the console's domain.
pub open spec fn entry_from(e: CookieEntry, c: Json) -> bool {
    &&& usable_cookie(c)
    &&& cookie_text(c, "name"@) == e.0
    &&& cookie_text(c, "value"@) == e.2
    &&& (e.1 == 2 <==> console_cookie(c))
    &&& (e.1 == 1 || e.1 == 2)
}

/// Every kept entry comes from one of the cookies: entry `k` from cookie
/// `src[k]`.
pub open spec fn entries_sourced(st: Seq<CookieEntry>, cs: Seq<Json>, src: Seq<int>) -> bool {
    &&& src.len() == st.len()
    &&& forall|k: int|
        0 <= k < st.len() ==> 0 <= #[trigger] src[k] < cs.len() && entry_from(st[k], cs[src[k]])
}

/// An entry scored 1 has no console-domain cookie of its name.
pub open spec fn weak_entries_unchallenged(st: Seq<CookieEntry>, cs: Seq<Json>) -> bool {
    forall|k: int, i: int|
        0 <= k < st.len() && 0 <= i < cs.len() && st[k].1 == 1 && #[trigger] console_cookie(cs[i]) ==> cookie_text(
            cs[i],
            "name"@,
        ) != #[trigger] st[k].0
}

/// Every usable cookie's name has an entry.
pub open spec fn names_covered(st: Seq<CookieEntry>, cs: Seq<Json>) -> bool {
    forall|i: int|
        0 <= i < cs.len() && #[trigger] usable_cookie(cs[i]) ==> (entry_pos(st, cookie_text(cs[i], "name"@)) is Some)
}

/// No name is kept twice.
pub open spec fn names_unique(st: Seq<CookieEntry>) -> bool {
    forall|k1: int, k2: int| 0 <= k1 < k2 < st.len() ==> (#[trigger] st[k1]).0 != (#[trigger] st[k2]).0
}

/// What holds of the kept entries after reading the cookies `cs`.
pub open spec fn entries_faithful(st: Seq<CookieEntry>, cs: Seq<Json>, src: Seq<int>) -> bool {
    &&& entries_sourced(st, cs, src)
    &&& weak_entries_unchallenged(st, cs)
    &&& names_covered(st, cs)
    &&& names_unique(st)
}

proof fn lemma_entry_pos_of(st: Seq<CookieEntry>, k: int)
    requires
        names_unique(st),
        0 <= k < st.len(),
    ensures
        entry_pos(st, st[k].0) == Some(k),
{
    lemma_entry_pos_at(st, st[k].0, k);
}

proof fn lemma_step_unchanged(st: Seq<CookieEntry>, pre: Seq<Json>, c: Json, src: Seq<int>)
    requires
        entries_faithful(st, pre, src),
        !usable_cookie(c) || (entry_pos(st, cookie_text(c, "name"@)) matches Some(j) && (st[j].1 == 2
            || !console_cookie(c))),
    ensures
        entries_faithful(st, pre.push(c), src),
{
    let cs = pre.push(c);
    assert forall|k: int| 0 <= k < st.len() implies 0 <= #[trigger] src[k] < cs.len() && entry_from(st[k], cs[src[k]]) by {
        assert(cs[src[k]] == pre[src[k]]);
    }
    lemma_entry_pos_found(st, cookie_text(c, "name"@));
    assert forall|k: int, i: int|
        0 <= k < st.len() && 0 <= i < cs.len() && st[k].1 == 1 && #[trigger] console_cookie(cs[i]) implies cookie_text(
        cs[i],
        "name"@,
    ) != #[trigger] st[k].0 by {
        if i < pre.len() {
            assert(cs[i] == pre[i]);
        } else {
            assert(cs[i] == c);
            let j = entry_pos(st, cookie_text(c, "name"@))->0;
            if cookie_text(c, "name"@) == st[k].0 {
                lemma_entry_pos_of(st, k);
            }
        }
    }
    assert forall|i: int| 0 <= i < cs.len() && #[trigger] usable_cookie(cs[i]) implies (entry_pos(
        st,
        cookie_text(cs[i], "name"@),
    ) is Some) by {
        if i < pre.len() {
            assert(cs[i] == pre[i]);
        } else {
            assert(cs[i] == c);
        }
    }
}

proof fn lemma_step_push(st: Seq<CookieEntry>, pre: Seq<Json>, c: Json, e: CookieEntry, src: Seq<int>)
    requires
        entries_faithful(st, pre, src),
        usable_cookie(c),
        entry_pos(st, cookie_text(c, "name"@)) is None,
        entry_from(e, c),
    ensures
        entries_faithful(st.push(e), pre.push(c), src.push(pre.len() as int)),
{
    let cs = pre.push(c);
    let st2 = st.push(e);
    let n = pre.len() as int;
    lemma_entry_pos_found(st, cookie_text(c, "name"@));
    let src2 = src.push(n);
    assert forall|k: int| 0 <= k < st2.len() implies 0 <= #[trigger] src2[k] < cs.len() && entry_from(st2[k], cs[src2[k]]) by {
        if k < st.len() {
            assert(st2[k] == st[k]);
            assert(src2[k] == src[k]);
            assert(cs[src[k]] == pre[src[k]]);
        } else {
            assert(st2[k] == e);
            assert(src2[k] == n);
            assert(cs[n] == c);
        }
    }
    assert forall|k: int, i: int|
        0 <= k < st2.len() && 0 <= i < cs.len() && st2[k].1 == 1 && #[trigger] console_cookie(cs[i]) implies cookie_text(
        cs[i],
        "name"@,
    ) != #[trigger] st2[k].0 by {
        if k < st.len() {
            assert(st2[k] == st[k]);
            if i < pre.len() {
                assert(cs[i] == pre[i]);
            } else {
                assert(cs[i] == c);
            }
        } else {
            assert(st2[k] == e);
            if i < pre.len() {
                assert(cs[i] == pre[i]);
                assert(usable_cookie(pre[i]));
                assert(entry_pos(st, cookie_text(pre[i], "name"@)) is Some);
            } else {
                assert(cs[i] == c);
            }
        }
    }
    assert forall|i: int| 0 <= i < cs.len() && #[trigger] usable_cookie(cs[i]) implies (entry_pos(
        st2,
        cookie_text(cs[i], "name"@),
    ) is Some) by {
        let nm = cookie_text(cs[i], "name"@);
        if i < pre.len() {
            assert(cs[i] == pre[i]);
            lemma_entry_pos_found(st, nm);
            let j = entry_pos(st, nm)->0;
            assert(st2[j] == st[j]);
            assert(forall|k: int| 0 <= k < j ==> st2[k] == st[k]);
            lemma_entry_pos_found(st2, nm);
            if entry_pos(st2, nm) is None {
                assert(st2[j].0 != nm);
            }
        } else {
            assert(cs[i] == c);
            lemma_entry_pos_found(st2, nm);
            if entry_pos(st2, nm) is None {
                assert(st2[st.len() as int].0 != nm);
            }
        }
    }
    assert forall|k1: int, k2: int| 0 <= k1 < k2 < st2.len() implies (#[trigger] st2[k1]).0 != (#[trigger] st2[k2]).0 by {
        assert(st2[k1] == st[k1]);
        if k2 < st.len() {
            assert(st2[k2] == st[k2]);
        }
    }
}

proof fn lemma_step_replace(st: Seq<CookieEntry>, pre: Seq<Json>, c: Json, j: int, e: CookieEntry, src: Seq<int>)
    requires
        entries_faithful(st, pre, src),
        console_cookie(c),
        entry_pos(st, cookie_text(c, "name"@)) == Some(j),
        st[j].1 == 1,
        entry_from(e, c),
    ensures
        entries_faithful(st.update(j, e), pre.push(c), src.update(j, pre.len() as int)),
{
    let cs = pre.push(c);
    let st2 = st.update(j, e);
    let n = pre.len() as int;
    lemma_entry_pos_found(st, cookie_text(c, "name"@));
    let src2 = src.update(j, n);
    assert forall|k: int| 0 <= k < st2.len() implies 0 <= #[trigger] src2[k] < cs.len() && entry_from(st2[k], cs[src2[k]]) by {
        if k != j {
            assert(st2[k] == st[k]);
            assert(src2[k] == src[k]);
            assert(cs[src[k]] == pre[src[k]]);
        } else {
            assert(st2[k] == e);
            assert(src2[k] == n);
            assert(cs[n] == c);
        }
    }
    assert forall|k: int, i: int|
        0 <= k < st2.len() && 0 <= i < cs.len() && st2[k].1 == 1 && #[trigger] console_cookie(cs[i]) implies cookie_text(
        cs[i],
        "name"@,
    ) != #[trigger] st2[k].0 by {
        if k != j {
            assert(st2[k] == st[k]);
            assert(st[k].0 != st[j].0);
            if i < pre.len() {
                assert(cs[i] == pre[i]);
            } else {
                assert(cs[i] == c);
            }
        }
    }
    assert forall|i: int| 0 <= i < cs.len() && #[trigger] usable_cookie(cs[i]) implies (entry_pos(
        st2,
        cookie_text(cs[i], "name"@),
    ) is Some) by {
        let nm = cookie_text(cs[i], "name"@);
        if i < pre.len() {
            assert(cs[i] == pre[i]);
        } else {
            assert(cs[i] == c);
        }
        lemma_entry_pos_found(st, nm);
        let p = entry_pos(st, nm)->0;
        assert(st2[p].0 == st[p].0);
        lemma_entry_pos_found(st2, nm);
        if entry_pos(st2, nm) is None {
            assert(st2[p].0 != nm);
        }
    }
    assert forall|k1: int, k2: int| 0 <= k1 < k2 < st2.len() implies (#[trigger] st2[k1]).0 != (#[trigger] st2[k2]).0 by {
        assert(st2[k1].0 == st[k1].0);
        assert(st2[k2].0 == st[k2].0);
    }
}

proof fn lemma_cookie_entries_faithful(cs: Seq<Json>) -> (src: Seq<int>)
    ensures
        entries_faithful(cookie_entries(cs), cs, src),
    decreases cs.len(),
{
    if cs.len() == 0 {
        Seq::<int>::empty()
    } else {
        let pre = cs.drop_last();
        let src0 = lemma_cookie_entries_faithful(pre);
        let st = cookie_entries(pre);
        let c = cs.last();
        assert(cs == pre.push(c));
        assert(cookie_entries(cs) == cookie_step(st, c));
        let domain = str_or_empty(at(c, "domain"@));
        let name = str_or_empty(at(c, "name"@));
        let value = str_or_empty(at(c, "value"@));
        assert(domain == cookie_text(c, "domain"@));
        assert(name == cookie_text(c, "name"@));
        assert(value == cookie_text(c, "value"@));
        lemma_entry_pos_found(st, name);
        if !usable_cookie(c) {
            lemma_step_unchanged(st, pre, c, src0);
            src0
        } else {
            let score: int = if console_cookie(c) {
                2
            } else {
                1
            };
            let e = (name, score, value);
            match entry_pos(st, name) {
                None => {
                    lemma_step_push(st, pre, c, e, src0);
                    src0.push(pre.len() as int)
                },
                Some(j) => {
                    assert(entry_from(st[j], pre[src0[j]]));
                    if st[j].1 >= score {
                        lemma_step_unchanged(st, pre, c, src0);
                        src0
                    } else {
                        lemma_step_replace(st, pre, c, j, e, src0);
                        src0.update(j, pre.len() as int)
                    }
                },
            }
        }
    }
}

/// For a name that has a usable cookie on the console's domain
/// (`cloud.tencent.com`), the header keeps that name with the value of such
/// a console-domain cookie, whatever the order the cookies came in; every
/// value it keeps is the value of a usable cookie of that name.
pub proof fn law_console_cookie_wins(cs: Seq<Json>, nm: Seq<char>)
    ensures
        (exists|i: int| 0 <= i < cs.len() && console_cookie(cs[i]) && #[trigger] cookie_text(cs[i], "name"@) == nm)
            ==> exists|k: int, i: int|
            0 <= k < cookie_entries(cs).len() && 0 <= i < cs.len() && (#[trigger] cookie_entries(cs)[k]).0 == nm
                && console_cookie(#[trigger] cs[i]) && cookie_text(cs[i], "name"@) == nm && cookie_text(cs[i], "value"@)
                == cookie_entries(cs)[k].2,
        forall|k: int|
            0 <= k < cookie_entries(cs).len() ==> exists|i: int|
                0 <= i < cs.len() && usable_cookie(cs[i]) && cookie_text(cs[i], "name"@) == (
                #[trigger] cookie_entries(cs)[k]).0 && cookie_text(cs[i], "value"@) == cookie_entries(cs)[k].2,
{
    let src = lemma_cookie_entries_faithful(cs);
    let st = cookie_entries(cs);
    assert forall|k: int| 0 <= k < st.len() implies exists|i: int|
        0 <= i < cs.len() && usable_cookie(cs[i]) && cookie_text(cs[i], "name"@) == (#[trigger] st[k]).0
            && cookie_text(cs[i], "value"@) == st[k].2 by {
        assert(entry_from(st[k], cs[src[k]]));
    }
    if exists|i: int| 0 <= i < cs.len() && console_cookie(cs[i]) && #[trigger] cookie_text(cs[i], "name"@) == nm {
        let i0 = choose|i: int| 0 <= i < cs.len() && console_cookie(cs[i]) && #[trigger] cookie_text(cs[i], "name"@) == nm;
        assert(usable_cookie(cs[i0]));
        lemma_entry_pos_found(st, nm);
        let k = entry_pos(st, nm)->0;
        assert(st[k].1 != 1);
        let i = src[k];
        assert(entry_from(st[k], cs[i]));
        assert(console_cookie(cs[i]));
    }
}

/// `c.get(key).and_then(as_str).unwrap_or("")`.
pub fn str_field(c: &Json, key: &str) -> (s: String)
    ensures
        s@ == str_or_empty(at(*c, key@)),
{
    match c.get(key) {
        Some(x) => match x.as_str() {
            Some(t) => copy_str(t),
            None => String::new(),
        },
        None => String::new(),
    }
}

/// Flattens the browser's cookies into one Cookie header: empty values are
/// skipped and the console domain wins over the others for the same name.
pub fn build_cookie(v: &Json) -> (s: String)
    ensures
        s@ == cookie_header(*v),
{
    let empty: Vec<Json> = Vec::new();
    let cookies: &Vec<Json> = match v.get("result") {
        Some(r) => match r.get("cookies") {
            Some(c) => match c.as_array() {
                Some(a) => a,
                None => &empty,
            },
            None => &empty,
        },
        None => &empty,
    };
    assert(cookies@ == cookies_of(*v));
    let mut st: Vec<(String, u8, String)> = Vec::new();
    let mut i: usize = 0;
    while i < cookies.len()
        invariant
            i <= cookies@.len(),
            cookies@ == cookies_of(*v),
            entries_view(st@) == cookie_entries(cookies@.take(i as int)),
            forall|k: int| 0 <= k < st@.len() ==> 1 <= (#[trigger] st@[k]).1 <= 2,
        decreases cookies.len() - i,
    {
        let c = &cookies[i];
        assert(cookies@.take(i + 1).drop_last() == cookies@.take(i as int));
        assert(cookies@.take(i + 1).last() == *c);
        let domain = str_field(c, "domain");
        let name = str_field(c, "name");
        let value = str_field(c, "value");
        let dv = chars_of(domain.as_str());
        let ok_domain = has_suffix(&dv, &chars_of("tencent.com"));
        if ok_domain && !name.as_str().is_empty() && !value.as_str().is_empty() {
            let score: u8 = if contains(domain.as_str(), "cloud.tencent.com") {
                2
            } else {
                1
            };
            match find_entry(&st, name.as_str()) {
                Some(j) => {
                    if st[j].1 < score {
                        let ghost before = st@;
                        st.set(j, (name, score, value));
                        assert(entries_view(st@) =~= entries_view(before).update(
                            j as int,
                            (name@, score as int, value@),
                        ));
                    }
                },
                None => {
                    let ghost before = st@;
                    st.push((name, score, value));
                    assert(entries_view(st@) =~= entries_view(before).push(
                        (name@, score as int, value@),
                    ));
                },
            }
        }
        i = i + 1;
    }
    assert(cookies@.take(cookies@.len() as int) == cookies@);
    let mut out = String::new();
    let mut k: usize = 0;
    while k < st.len()
        invariant
            k <= st@.len(),
            out@ == cookie_line(entries_view(st@).take(k as int)),
        decreases st.len() - k,
    {
        let ghost pre = entries_view(st@).take(k as int);
        assert(entries_view(st@).take(k + 1).drop_last() == pre);
        assert(entries_view(st@).take(k + 1).last() == entries_view(st@)[k as int]);
        if k > 0 {
            push_str(&mut out, "; ");
        }
        push_str(&mut out, st[k].0.as_str());
        push_str(&mut out, "=");
        push_str(&mut out, st[k].2.as_str());
        proof {
            if k == 0 {
                assert(out@ =~= cookie_line(entries_view(st@).take(k + 1)));
            } else {
                assert(out@ =~= cookie_line(entries_view(st@).take(k + 1)));
            }
        }
        k = k + 1;
    }
    assert(entries_view(st@).take(st@.len() as int) == entries_view(st@));
    out
}

// ---------------------------------------------------------------------------
// The old gateway's request headers
// ---------------------------------------------------------------------------

/// The value of the first header whose name equals `key` without regard to
/// ASCII case; empty when there is none or it is not a string.
pub open spec fn header_of(headers: Seq<(String, Json)>, key: Seq<char>) -> Seq<char>
    decreases headers.len(),
{
    if headers.len() == 0 {
        Seq::<char>::empty()
    } else if eq_ignore_case(headers[0].0@, key) {
        str_or_empty(headers[0].1)
    } else {
        header_of(headers.drop_first(), key)
    }
}

/// The request of a `Network.requestWillBeSent` event.
pub open spec fn request_of(v: Json) -> Json {
    at(at(v, "params"@), "request"@)
}

/// The headers of that request (empty when absent).
pub open spec fn headers_of(v: Json) -> Seq<(String, Json)> {
    match members_of(at(request_of(v), "headers"@)) {
        Some(m) => m,
        None => Seq::<(String, Json)>::empty(),
    }
}

/// The `t=` millisecond timestamp of the request URL, 0 when absent.
pub open spec fn request_time(url: Seq<char>) -> i64 {
    match extract_of(url, "t="@) {
        Some(s) => match parse_i64(s) {
            Some(n) => n,
            None => 0,
        },
        None => 0,
    }
}

/// `(x_lid, life_epoch_ms)` of an old-gateway request: `x-lid` as sent, and
/// `t - x-life` when both are known and the difference is positive; 0 otherwise.
pub open spec fn capi_meta_of(v: Json) -> (Seq<char>, i64) {
    let url = str_or_empty(at(request_of(v), "url"@));
    let headers = headers_of(v);
    let t = request_time(url) as int;
    let epoch: i64 = match parse_i64(header_of(headers, "x-life"@)) {
        Some(life) => if t > 0 && t - life > 0 && t - life <= i64::MAX {
            (t - life) as i64
        } else {
            0
        },
        None => 0,
    };
    (header_of(headers, "x-lid"@), epoch)
}

fn header_value(headers: &Vec<(String, Json)>, key: &str) -> (s: String)
    ensures
        s@ == header_of(headers@, key@),
{
    let kv = chars_of(key);
    let mut i: usize = 0;
    assert(headers@.skip(0) == headers@);
    while i < headers.len()
        invariant
            i <= headers@.len(),
            kv@ == key@,
            header_of(headers@, key@) == header_of(headers@.skip(i as int), key@),
        decreases headers.len() - i,
    {
        assert(headers@.skip(i as int).drop_first() == headers@.skip(i + 1));
        assert(headers@.skip(i as int)[0] == headers@[i as int]);
        let name = chars_of(headers[i].0.as_str());
        if name.len() == kv.len() && eq_ignore_case_at(&name, 0, &kv) {
            assert(name@.subrange(0, kv@.len() as int) == name@);
            return match headers[i].1.as_str() {
                Some(t) => copy_str(t),
                None => String::new(),
            };
        }
        proof {
            if name@.len() == kv@.len() {
                assert(name@.subrange(0, kv@.len() as int) == name@);
            }
        }
        i = i + 1;
    }
    String::new()
}

/// Reads `(x_lid, life_epoch_ms)` from a `Network.requestWillBeSent` event.
/// Header names are matched without regard to case; a missing value is empty / 0.
/// Where `t - x-life` does not fit an `i64` the epoch is 0.
pub fn capi_request_meta(v: &Json) -> (r: (String, i64))
    ensures
        (r.0@, r.1) == capi_meta_of(*v),
{
    let no_headers: Vec<(String, Json)> = Vec::new();
    let (url, headers): (String, &Vec<(String, Json)>) = match v.get("params") {
        Some(p) => match p.get("request") {
            Some(req) => {
                let url = str_field(req, "url");
                let h: &Vec<(String, Json)> = match req.get("headers") {
                    Some(hv) => match hv.as_object() {
                        Some(m) => m,
                        None => &no_headers,
                    },
                    None => &no_headers,
                };
                (url, h)
            },
            None => (String::new(), &no_headers),
        },
        None => (String::new(), &no_headers),
    };
    assert(url@ == str_or_empty(at(request_of(*v), "url"@)));
    assert(headers@ == headers_of(*v));
    let x_lid = header_value(headers, "x-lid");
    let t: i64 = match extract(url.as_str(), "t=") {
        Some(s) => match parse_i64_chars(&chars_of(s.as_str())) {
            Some(n) => n,
            None => 0,
        },
        None => 0,
    };
    let life_text = header_value(headers, "x-life");
    let epoch: i64 = match parse_i64_chars(&chars_of(life_text.as_str())) {
        Some(life) => {
            if t > 0 && (life >= 0 || t <= i64::MAX + life) {
                let d = t - life;
                if d > 0 {
                    d
                } else {
                    0
                }
            } else {
                0
            }
        },
        None => 0,
    };
    (x_lid, epoch)
}

} // verus!
