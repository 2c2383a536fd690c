//! Requests to the cloud's public API, signed with TC3-HMAC-SHA256.
//!
//! The library prepares everything that is sent: the payload without the
//! console-only members, the canonical request, the string to sign, the
//! derived signing key and the `Authorization` header. The hash functions
//! come from `sha2` and `hmac`, the clock from `chrono`; sending the request
//! is left to the application.
use crate::json::{at, field, json_text, json_text_of, lookup, members_of, members_text, str_eq, str_of, Json};
use crate::text::{copy_str, decimal, i64_text, push_str};
use vstd::prelude::*;
use vstd::string::StringSliceAdditionalSpecFns;
use vstd::utf8::{decode_utf8, encode_utf8, is_char_boundary};

verus! {

// ---------------------------------------------------------------------------
// Hashing
// ---------------------------------------------------------------------------

/// The SHA-256 digest of `data`, as `sha2` computes it.
pub uninterp spec fn sha256_digest(data: Seq<u8>) -> Seq<u8>;

/// The HMAC-SHA256 tag of `data` under `key`, as `hmac` computes it.
pub uninterp spec fn hmac_sha256_tag(key: Seq<u8>, data: Seq<u8>) -> Seq<u8>;

/// The Unicode lowercase form of a string, as `str::to_lowercase` gives it.
pub uninterp spec fn unicode_lowercase(s: Seq<char>) -> Seq<char>;

/// `<sha2::Sha256 as Digest>::digest`: the contract claims that the result
/// is the SHA-256 digest of `data` (named `sha256_digest`) and that it has
/// the 32 bytes of SHA-256's output.
#[verifier::external_body]
fn sha256(data: &[u8]) -> (r: Vec<u8>)
    ensures
        r@ == sha256_digest(data@),
        r@.len() == 32,
{
    <sha2::Sha256 as sha2::Digest>::digest(data).to_vec()
}

/// `Hmac::<Sha256>::new_from_slice`, `update` and `finalize`: the contract
/// claims that the result is the HMAC-SHA256 tag of `data` under `key`
/// (named `hmac_sha256_tag`), 32 bytes long, and that no key is refused
/// (`new_from_slice` of HMAC accepts a key of any length and never fails).
#[verifier::external_body]
fn hmac_sha256(key: &[u8], data: &[u8]) -> (r: Vec<u8>)
    ensures
        r@ == hmac_sha256_tag(key@, data@),
        r@.len() == 32,
{
    let mut mac = <hmac::Hmac<sha2::Sha256> as hmac::Mac>::new_from_slice(key).expect("hmac key");
    hmac::Mac::update(&mut mac, data);
    hmac::Mac::finalize(mac).into_bytes().to_vec()
}

/// A digit of lowercase hexadecimal, `0..=15`.
pub open spec fn hex_digit(n: int) -> char {
    if n < 10 {
        (48 + n) as char
    } else {
        (87 + n) as char
    }
}

/// The lowercase hexadecimal text of `bytes`: two digits per byte, the high
/// half first.
pub open spec fn hex_lower(bytes: Seq<u8>) -> Seq<char>
    decreases bytes.len(),
{
    if bytes.len() == 0 {
        Seq::<char>::empty()
    } else {
        hex_lower(bytes.drop_last()) + seq![
            hex_digit(bytes.last() as int / 16),
            hex_digit(bytes.last() as int % 16),
        ]
    }
}

/// `hex::encode`: the contract claims that the result is the lowercase
/// hexadecimal text of `data`, two digits per byte, high half first (the
/// crate reads each byte through the table `0123456789abcdef`).
#[verifier::external_body]
fn hex_encode(data: &[u8]) -> (r: String)
    ensures
        r@ == hex_lower(data@),
{
    hex::encode(data)
}

/// `str::to_lowercase`: the contract claims that the result is the Unicode
/// lowercase form of `s` (named `unicode_lowercase`).
#[verifier::external_body]
fn to_lowercase(s: &str) -> (r: String)
    ensures
        r@ == unicode_lowercase(s@),
{
    s.to_lowercase()
}

/// The proleptic Gregorian date `(year, month, day)` of the day `days`
/// after 1970-01-01 (negative before it): the civil calendar counted in
/// 400-year eras of 146097 days, with years starting on 1 March.
pub open spec fn civil_from_days(days: int) -> (int, int, int) {
    let z = days + 719468;
    let era = z / 146097;
    let doe = z - era * 146097;
    let yoe = (doe - doe / 1460 + doe / 36524 - doe / 146096) / 365;
    let doy = doe - (365 * yoe + yoe / 4 - yoe / 100);
    let mp = (5 * doy + 2) / 153;
    let d = doy - (153 * mp + 2) / 5 + 1;
    let m = if mp < 10 {
        mp + 3
    } else {
        mp - 9
    };
    let y = yoe + era * 400;
    (if m <= 2 {
        y + 1
    } else {
        y
    }, m, d)
}

/// `n` (0..=99) in two digits.
pub open spec fn two_digits(n: int) -> Seq<char> {
    if n < 10 {
        "0"@ + decimal(n)
    } else {
        decimal(n)
    }
}

/// A year as chrono's `%Y` writes it: four digits for 0..=9999, otherwise
/// a sign and at least four digits.
pub open spec fn year_text(y: int) -> Seq<char> {
    let a = if y < 0 {
        -y
    } else {
        y
    };
    let digits4 = if a < 10 {
        "000"@ + decimal(a)
    } else if a < 100 {
        "00"@ + decimal(a)
    } else if a < 1000 {
        "0"@ + decimal(a)
    } else {
        decimal(a)
    };
    if y < 0 {
        "-"@ + digits4
    } else if y > 9999 {
        "+"@ + digits4
    } else {
        digits4
    }
}

/// The UTC date `YYYY-MM-DD` of the Unix time `ts` (seconds).
pub open spec fn utc_date_text(ts: int) -> Seq<char> {
    let (y, m, d) = civil_from_days(ts / 86400);
    year_text(y) + "-"@ + two_digits(m) + "-"@ + two_digits(d)
}

/// `chrono::Utc::now()`, read as whole seconds since the epoch
/// (`timestamp`) and as the UTC date `%Y-%m-%d` of the same instant. The
/// contract claims that the date is the civil date of those seconds (both
/// come from one `DateTime<Utc>`, whose calendar is the proleptic Gregorian
/// one); nothing is claimed of the clock itself.
#[verifier::external_body]
fn utc_now() -> (r: (i64, String))
    ensures
        r.1@ == utc_date_text(r.0 as int),
{
    let now = chrono::Utc::now();
    (now.timestamp(), now.format("%Y-%m-%d").to_string())
}

/// The lowercase hexadecimal SHA-256 digest of `data`.
pub fn sha256_hex(data: &[u8]) -> (r: String)
    ensures
        r@ == hex_lower(sha256_digest(data@)),
{
    let d = sha256(data);
    hex_encode(d.as_slice())
}

/// The lowercase hexadecimal HMAC-SHA256 tag of `data` under `key`.
pub fn hmac_sha256_hex(key: &[u8], data: &[u8]) -> (r: String)
    ensures
        r@ == hex_lower(hmac_sha256_tag(key@, data@)),
{
    let t = hmac_sha256(key, data);
    hex_encode(t.as_slice())
}

// ---------------------------------------------------------------------------
// The signature
// ---------------------------------------------------------------------------

/// The pair of keys that signs requests.
pub struct Tc3Credential {
    pub secret_id: String,
    pub secret_key: String,
}

/// The host that serves `service`.
pub open spec fn tc3_host(service: Seq<char>) -> Seq<char> {
    service + ".tencentcloudapi.com"@
}

/// The canonical request of a JSON `POST` to `/`, with the three signed
/// headers and the hash of the body.
pub open spec fn canonical_request(service: Seq<char>, action: Seq<char>, body: Seq<char>) -> Seq<char> {
    "POST\n/\n\ncontent-type:application/json; charset=utf-8\nhost:"@ + tc3_host(service)
        + "\nx-tc-action:"@ + unicode_lowercase(action) + "\n\ncontent-type;host;x-tc-action\n"@
        + hex_lower(sha256_digest(encode_utf8(body)))
}

/// `date/service/tc3_request`.
pub open spec fn credential_scope(date: Seq<char>, service: Seq<char>) -> Seq<char> {
    date + "/"@ + service + "/tc3_request"@
}

/// The string that is signed.
pub open spec fn string_to_sign(
    service: Seq<char>,
    action: Seq<char>,
    body: Seq<char>,
    ts: i64,
    date: Seq<char>,
) -> Seq<char> {
    "TC3-HMAC-SHA256\n"@ + decimal(ts as int) + "\n"@ + credential_scope(date, service) + "\n"@
        + hex_lower(sha256_digest(encode_utf8(canonical_request(service, action, body))))
}

/// The key derived from the secret key for one date and one service.
pub open spec fn signing_key(secret_key: Seq<char>, date: Seq<char>, service: Seq<char>) -> Seq<u8> {
    let k_date = hmac_sha256_tag(encode_utf8("TC3"@ + secret_key), encode_utf8(date));
    let k_service = hmac_sha256_tag(k_date, encode_utf8(service));
    hmac_sha256_tag(k_service, encode_utf8("tc3_request"@))
}

/// The value of the `Authorization` header.
pub open spec fn tc3_authorization(
    secret_id: Seq<char>,
    secret_key: Seq<char>,
    service: Seq<char>,
    action: Seq<char>,
    body: Seq<char>,
    ts: i64,
    date: Seq<char>,
) -> Seq<char> {
    let signature = hex_lower(
        hmac_sha256_tag(
            signing_key(secret_key, date, service),
            encode_utf8(string_to_sign(service, action, body, ts, date)),
        ),
    );
    "TC3-HMAC-SHA256 Credential="@ + secret_id + "/"@ + credential_scope(date, service)
        + ", SignedHeaders=content-type;host;x-tc-action, Signature="@ + signature
}

/// A request ready to be sent: its address, its headers in order and its body.
pub struct Tc3Request {
    pub url: String,
    pub headers: Vec<(String, String)>,
    pub body: String,
}

/// The headers as pairs of character sequences.
pub open spec fn headers_view(h: Seq<(String, String)>) -> Seq<(Seq<char>, Seq<char>)> {
    h.map_values(|p: (String, String)| (p.0@, p.1@))
}

/// What a signed request holds, for one timestamp and one date.
pub open spec fn is_tc3_request(
    r: Tc3Request,
    region: Seq<char>,
    service: Seq<char>,
    version: Seq<char>,
    action: Seq<char>,
    body: Seq<char>,
    secret_id: Seq<char>,
    secret_key: Seq<char>,
    ts: i64,
    date: Seq<char>,
) -> bool {
    &&& r.url@ == "https://"@ + tc3_host(service)
    &&& r.body@ == body
    &&& headers_view(r.headers@) == seq![
        ("X-TC-Action"@, action),
        ("X-TC-Version"@, version),
        ("X-TC-Region"@, region),
        ("X-TC-Timestamp"@, decimal(ts as int)),
        ("Authorization"@, tc3_authorization(secret_id, secret_key, service, action, body, ts, date)),
        ("Content-Type"@, "application/json; charset=utf-8"@),
    ]
}

/// The UTF-8 bytes of a string.
fn bytes_of(s: &String) -> (b: &[u8])
    ensures
        b@ == encode_utf8(s@),
{
    s.as_str().as_bytes()
}

/// `"TC3" + secret_key`, then the date, the service and `tc3_request`, each
/// hashed with the key before.
fn derive_signing_key(secret_key: &str, date: &str, service: &str) -> (k: Vec<u8>)
    ensures
        k@ == signing_key(secret_key@, date@, service@),
{
    let mut first = copy_str("TC3");
    push_str(&mut first, secret_key);
    let k_date = hmac_sha256(bytes_of(&first), date.as_bytes());
    let k_service = hmac_sha256(k_date.as_slice(), service.as_bytes());
    hmac_sha256(k_service.as_slice(), "tc3_request".as_bytes())
}

/// A header built from its name and its value.
fn header(name: &str, value: String) -> (h: (String, String))
    ensures
        h.0@ == name@,
        h.1@ == value@,
{
    (copy_str(name), value)
}

/// The request that calls `action` of `service` with the JSON text `body`,
/// signed for the time `ts` (seconds since the epoch) and its UTC date
/// `date`.
pub fn tc3_request(
    region: &str,
    service: &str,
    version: &str,
    action: &str,
    body: &str,
    cred: &Tc3Credential,
    ts: i64,
    date: &str,
) -> (r: Tc3Request)
    ensures
        is_tc3_request(
            r,
            region@,
            service@,
            version@,
            action@,
            body@,
            cred.secret_id@,
            cred.secret_key@,
            ts,
            date@,
        ),
{
    let mut host = copy_str(service);
    push_str(&mut host, ".tencentcloudapi.com");

    let body_hash = sha256_hex(body.as_bytes());
    let action_lower = to_lowercase(action);
    let mut canonical = copy_str("POST\n/\n\ncontent-type:application/json; charset=utf-8\nhost:");
    push_str(&mut canonical, host.as_str());
    push_str(&mut canonical, "\nx-tc-action:");
    push_str(&mut canonical, action_lower.as_str());
    push_str(&mut canonical, "\n\ncontent-type;host;x-tc-action\n");
    push_str(&mut canonical, body_hash.as_str());
    assert(canonical@ == canonical_request(service@, action@, body@));

    let ts_text = i64_text(ts);
    let mut scope = copy_str(date);
    push_str(&mut scope, "/");
    push_str(&mut scope, service);
    push_str(&mut scope, "/tc3_request");
    assert(scope@ == credential_scope(date@, service@));

    let canonical_hash = sha256_hex(bytes_of(&canonical));
    let mut to_sign = copy_str("TC3-HMAC-SHA256\n");
    push_str(&mut to_sign, ts_text.as_str());
    push_str(&mut to_sign, "\n");
    push_str(&mut to_sign, scope.as_str());
    push_str(&mut to_sign, "\n");
    push_str(&mut to_sign, canonical_hash.as_str());
    assert(to_sign@ == string_to_sign(service@, action@, body@, ts, date@));

    let key = derive_signing_key(cred.secret_key.as_str(), date, service);
    let signature = hmac_sha256_hex(key.as_slice(), bytes_of(&to_sign));
    let mut authorization = copy_str("TC3-HMAC-SHA256 Credential=");
    push_str(&mut authorization, cred.secret_id.as_str());
    push_str(&mut authorization, "/");
    push_str(&mut authorization, scope.as_str());
    push_str(&mut authorization, ", SignedHeaders=content-type;host;x-tc-action, Signature=");
    push_str(&mut authorization, signature.as_str());
    assert(authorization@ == tc3_authorization(
        cred.secret_id@,
        cred.secret_key@,
        service@,
        action@,
        body@,
        ts,
        date@,
    ));

    let mut url = copy_str("https://");
    push_str(&mut url, host.as_str());

    let mut headers: Vec<(String, String)> = Vec::new();
    headers.push(header("X-TC-Action", copy_str(action)));
    headers.push(header("X-TC-Version", copy_str(version)));
    headers.push(header("X-TC-Region", copy_str(region)));
    headers.push(header("X-TC-Timestamp", ts_text));
    headers.push(header("Authorization", authorization));
    headers.push(header("Content-Type", copy_str("application/json; charset=utf-8")));
    let r = Tc3Request { url, headers, body: copy_str(body) };
    assert(headers_view(r.headers@) =~= seq![
        ("X-TC-Action"@, action@),
        ("X-TC-Version"@, version@),
        ("X-TC-Region"@, region@),
        ("X-TC-Timestamp"@, decimal(ts as int)),
        ("Authorization"@, tc3_authorization(
            cred.secret_id@,
            cred.secret_key@,
            service@,
            action@,
            body@,
            ts,
            date@,
        )),
        ("Content-Type"@, "application/json; charset=utf-8"@),
    ]);
    r
}

/// The request that calls `action` of `service` with the JSON text `body`,
/// signed for the current time read from the clock.
pub fn prepare_tc3_call(
    region: &str,
    service: &str,
    version: &str,
    action: &str,
    body: &str,
    cred: &Tc3Credential,
) -> (r: Tc3Request)
    ensures
        exists|ts: i64|
            #[trigger] is_tc3_request(
                r,
                region@,
                service@,
                version@,
                action@,
                body@,
                cred.secret_id@,
                cred.secret_key@,
                ts,
                utc_date_text(ts as int),
            ),
{
    let (ts, date) = utc_now();
    tc3_request(region, service, version, action, body, cred, ts, date.as_str())
}


// ---------------------------------------------------------------------------
// Payload and answer
// ---------------------------------------------------------------------------

/// The members that only the console understands: the public API takes the
/// version from a header, and the others are no business parameters.
pub open spec fn is_console_only_key(k: Seq<char>) -> bool {
    ||| k == "Version"@
    ||| k == "Language"@
    ||| k == "Region"@
    ||| k == "regionId"@
    ||| k == "SpaceUUID"@
    ||| k == "Module"@
}

/// The members that remain once the console-only ones are gone.
pub open spec fn without_console_keys(m: Seq<(String, Json)>) -> Seq<(String, Json)>
    decreases m.len(),
{
    if m.len() == 0 {
        m
    } else if is_console_only_key(m[0].0@) {
        without_console_keys(m.drop_first())
    } else {
        seq![m[0]] + without_console_keys(m.drop_first())
    }
}

/// Whether `k` is one of the console-only member names.
pub fn console_only_key(k: &str) -> (b: bool)
    ensures
        b == is_console_only_key(k@),
{
    str_eq(k, "Version") || str_eq(k, "Language") || str_eq(k, "Region") || str_eq(k, "regionId")
        || str_eq(k, "SpaceUUID") || str_eq(k, "Module")
}

/// The payload that the public API gets: an object loses its console-only
/// members, any other value is sent as it is.
pub fn tc3_payload(payload: Json) -> (r: Json)
    ensures
        match payload {
            Json::Object(m) => members_of(r) == Some(without_console_keys(m@)),
            _ => r == payload,
        },
{
    match payload {
        Json::Object(m) => {
            let ghost orig = m@;
            let mut rest = m;
            let mut out: Vec<(String, Json)> = Vec::new();
            while rest.len() > 0
                invariant
                    out@ + without_console_keys(rest@) == without_console_keys(orig),
                decreases rest.len(),
            {
                let ghost before = rest@;
                let item = rest.remove(0);
                assert(before.drop_first() == rest@);
                if !console_only_key(item.0.as_str()) {
                    let ghost o = out@;
                    out.push(item);
                    assert(out@ + without_console_keys(rest@) == o + (seq![item] + without_console_keys(rest@)));
                }
            }
            assert(out@ + without_console_keys(rest@) == out@);
            Json::Object(out)
        },
        other => other,
    }
}

/// The message of an error that the API reports in `Response.Error`.
pub open spec fn api_error_text(err: Json) -> Seq<char> {
    let code = match str_of(at(err, "Code"@)) {
        Some(c) => c,
        None => "Unknown"@,
    };
    let msg = match str_of(at(err, "Message"@)) {
        Some(m) => m,
        None => Seq::<char>::empty(),
    };
    "腾讯云 API 错误 "@ + code + ": "@ + msg
}

/// What the API answered: the error it reports in `Response.Error` when
/// that is an object, else the `Response` node (`null` when there is none).
pub fn tc3_response(v: Json) -> (r: Result<Json, String>)
    ensures
        match members_of(at(at(v, "Response"@), "Error"@)) {
            Some(_) => match r {
                Err(e) => e@ == api_error_text(at(at(v, "Response"@), "Error"@)),
                Ok(_) => false,
            },
            None => r == Ok::<Json, String>(at(v, "Response"@)),
        },
{
    let ghost whole = v;
    let resp = match v.take("Response") {
        Some(x) => x,
        None => Json::Null,
    };
    assert(resp == at(whole, "Response"@));
    let err = match resp.at("Error") {
        Some(e) => match e.as_object() {
            Some(_) => Some(e),
            None => None,
        },
        None => None,
    };
    match err {
        Some(e) => {
            let mut text = copy_str("腾讯云 API 错误 ");
            match e.str_at("Code") {
                Some(c) => push_str(&mut text, c),
                None => push_str(&mut text, "Unknown"),
            }
            push_str(&mut text, ": ");
            match e.str_at("Message") {
                Some(m) => push_str(&mut text, m),
                None => {
                    let ghost t = text@;
                    assert(t + Seq::<char>::empty() == t);
                },
            }
            Err(text)
        },
        None => Ok(resp),
    }
}

/// The first `n` bytes of `s` followed by `...` when `s` is longer than
/// that, else `s` itself. Cutting inside a character is not allowed.
pub fn truncate(s: &str, n: usize) -> (r: String)
    requires
        encode_utf8(s@).len() > n ==> is_char_boundary(encode_utf8(s@), n as int),
    ensures
        encode_utf8(s@).len() <= n ==> r@ == s@,
        encode_utf8(s@).len() > n ==> r@ == decode_utf8(encode_utf8(s@).subrange(0, n as int)) + "..."@,
{
    let bytes = s.as_bytes();
    if bytes.len() <= n {
        copy_str(s)
    } else {
        let (head, _) = s.split_at(n);
        proof {
            assert(head.spec_bytes() == encode_utf8(head@));
            assert(encode_utf8(head@) =~= encode_utf8(s@).subrange(0, n as int));
            vstd::utf8::encode_utf8_decode_utf8(head@);
        }
        let mut r = copy_str(head);
        push_str(&mut r, "...");
        r
    }
}

/// What `truncate` keeps of a longer text is a prefix of it, of exactly `n`
/// bytes.
pub proof fn law_truncate_keeps_a_prefix(s: Seq<char>, n: int)
    requires
        0 <= n < encode_utf8(s).len(),
        is_char_boundary(encode_utf8(s), n),
    ensures
        s.take(decode_utf8(encode_utf8(s).subrange(0, n)).len() as int) == decode_utf8(
            encode_utf8(s).subrange(0, n),
        ),
        encode_utf8(decode_utf8(encode_utf8(s).subrange(0, n))).len() == n,
{
    let b = encode_utf8(s);
    let h = decode_utf8(b.subrange(0, n));
    vstd::utf8::encode_utf8_valid_utf8(s);
    vstd::utf8::decode_utf8_split(b, n);
    vstd::utf8::encode_utf8_decode_utf8(s);
    vstd::utf8::valid_utf8_split(b, n);
    vstd::utf8::decode_utf8_encode_utf8(b.subrange(0, n));
    let rest = decode_utf8(b.subrange(n, b.len() as int));
    assert(s == h + rest);
    assert(s.take(h.len() as int) =~= h);
}

/// The body the public API gets for `payload`: its JSON text without the
/// console-only members.
pub open spec fn api_body(payload: Json) -> Seq<char> {
    match payload {
        Json::Object(m) => "{"@ + members_text(without_console_keys(m@)) + "}"@,
        _ => json_text_of(payload),
    }
}

/// A signed public API call for `payload`: the console-only members are
/// dropped, the rest is printed as JSON, and that text is both signed and
/// sent. The signing time is read from the clock.
pub fn prepare_api_call(
    region: &str,
    service: &str,
    version: &str,
    action: &str,
    payload: Json,
    cred: &Tc3Credential,
) -> (r: Tc3Request)
    ensures
        exists|ts: i64|
            #[trigger] is_tc3_request(
                r,
                region@,
                service@,
                version@,
                action@,
                api_body(payload),
                cred.secret_id@,
                cred.secret_key@,
                ts,
                utc_date_text(ts as int),
            ),
{
    let ghost p = payload;
    let clean = tc3_payload(payload);
    let body = json_text(&clean);
    proof {
        match p {
            Json::Object(m) => {
                assert(body@ == api_body(p));
            },
            _ => {},
        }
    }
    let r = prepare_tc3_call(region, service, version, action, body.as_str(), cred);
    proof {
        let ts = choose|ts: i64|
            #[trigger] is_tc3_request(
                r,
                region@,
                service@,
                version@,
                action@,
                body@,
                cred.secret_id@,
                cred.secret_key@,
                ts,
                utc_date_text(ts as int),
            );
        assert(is_tc3_request(
            r,
            region@,
            service@,
            version@,
            action@,
            api_body(p),
            cred.secret_id@,
            cred.secret_key@,
            ts,
            utc_date_text(ts as int),
        ));
    }
    r
}

/// The error for an answer that is not JSON: the status line and the start
/// of the text.
pub fn non_json_error(status: &str, text: &str) -> (r: String)
    requires
        encode_utf8(text@).len() > 300 ==> is_char_boundary(encode_utf8(text@), 300),
    ensures
        encode_utf8(text@).len() <= 300 ==> r@ == "响应非 JSON (HTTP "@ + status@ + "): "@ + text@,
        encode_utf8(text@).len() > 300 ==> r@ == "响应非 JSON (HTTP "@ + status@ + "): "@
            + decode_utf8(encode_utf8(text@).subrange(0, 300)) + "..."@,
{
    let mut r = copy_str("响应非 JSON (HTTP ");
    push_str(&mut r, status);
    push_str(&mut r, "): ");
    let t = truncate(text, 300);
    push_str(&mut r, t.as_str());
    r
}

/// The public API never sees a console-only member, and gets every other
/// member of the payload as it was.
pub proof fn law_payload_drops_console_keys(m: Seq<(String, Json)>, k: Seq<char>)
    ensures
        lookup(without_console_keys(m), k) == if is_console_only_key(k) {
            None::<Json>
        } else {
            lookup(m, k)
        },
    decreases m.len(),
{
    if m.len() > 0 {
        law_payload_drops_console_keys(m.drop_first(), k);
        if !is_console_only_key(m[0].0@) {
            let w = seq![m[0]] + without_console_keys(m.drop_first());
            assert(w[0] == m[0]);
            assert(w.drop_first() == without_console_keys(m.drop_first()));
        }
    }
}

} // verus!
