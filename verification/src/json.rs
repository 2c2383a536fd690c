//! A JSON value the library can read and print: the console's answers, CDP
//! messages and the payloads the library builds. Text is parsed at the edge
//! (the application); the library walks the tree and prints request bodies,
//! quoting strings through `serde_json`.
use crate::tc3::hex_digit;
use crate::text::{chars_of, copy_str, push_str, same_chars};
use vstd::prelude::*;

verus! {

/// How `serde_json` writes one character inside a string literal: `"` and
/// `\` behind a backslash, the five short escapes `\b \t \n \f \r`, every
/// other character below U+0020 as `\u00` and two lowercase hex digits, and
/// everything else as it is.
pub open spec fn json_escape_char(c: char) -> Seq<char> {
    if c == '"' {
        seq!['\\', '"']
    } else if c == '\\' {
        seq!['\\', '\\']
    } else if c == '\u{8}' {
        seq!['\\', 'b']
    } else if c == '\t' {
        seq!['\\', 't']
    } else if c == '\n' {
        seq!['\\', 'n']
    } else if c == '\u{c}' {
        seq!['\\', 'f']
    } else if c == '\r' {
        seq!['\\', 'r']
    } else if (c as u32) < 0x20 {
        seq!['\\', 'u', '0', '0', hex_digit((c as u32) as int / 16), hex_digit((c as u32) as int % 16)]
    } else {
        seq![c]
    }
}

/// The characters of `s`, each escaped as in a JSON string literal.
pub open spec fn json_escape(s: Seq<char>) -> Seq<char>
    decreases s.len(),
{
    if s.len() == 0 {
        Seq::<char>::empty()
    } else {
        json_escape(s.drop_last()) + json_escape_char(s.last())
    }
}

/// The JSON text of a string literal, as `serde_json::to_string` writes it:
/// the escaped characters between double quotes.
pub open spec fn json_string_literal(s: Seq<char>) -> Seq<char> {
    seq!['"'] + json_escape(s) + seq!['"']
}

/// `serde_json::to_string(s)` for a string: the contract claims that the
/// result is the JSON literal of `s` as `json_string_literal` spells it out
/// (the escape table and `\u00XX` form of `serde_json`'s serializer).
/// Serialising a string never fails in `serde_json`.
#[verifier::external_body]
pub(crate) fn json_quote(s: &str) -> (r: String)
    ensures
        r@ == json_string_literal(s@),
{
    match serde_json::to_string(s) {
        Ok(t) => t,
        Err(_) => String::new(),
    }
}


/// A JSON number as it was read: its value when it is an integer that fits
/// `i64` / `u64`, and its text.
pub struct JsonNumber {
    pub int: Option<i64>,
    pub uint: Option<u64>,
    pub text: String,
}

/// A JSON value. Object members keep their order; a key is looked up at its
/// first occurrence.
pub enum Json {
    Null,
    Bool(bool),
    Number(JsonNumber),
    Str(String),
    Array(Vec<Json>),
    Object(Vec<(String, Json)>),
}

/// The value of the first member named `key`.
pub open spec fn lookup(members: Seq<(String, Json)>, key: Seq<char>) -> Option<Json>
    decreases members.len(),
{
    if members.len() == 0 {
        None
    } else if members[0].0@ == key {
        Some(members[0].1)
    } else {
        lookup(members.drop_first(), key)
    }
}

/// `v.get(key)`: the member `key` of an object; nothing for other values.
pub open spec fn field(v: Json, key: Seq<char>) -> Option<Json> {
    match v {
        Json::Object(m) => lookup(m@, key),
        _ => None,
    }
}

/// `v[key]`: the member `key`, or `null` when there is none.
pub open spec fn at(v: Json, key: Seq<char>) -> Json {
    match field(v, key) {
        Some(x) => x,
        None => Json::Null,
    }
}

/// `v.as_str()`.
pub open spec fn str_of(v: Json) -> Option<Seq<char>> {
    match v {
        Json::Str(s) => Some(s@),
        _ => None,
    }
}

/// `v.as_str().unwrap_or("")`.
pub open spec fn str_or_empty(v: Json) -> Seq<char> {
    match v {
        Json::Str(s) => s@,
        _ => Seq::<char>::empty(),
    }
}

/// `v.as_i64()`.
pub open spec fn int_of(v: Json) -> Option<i64> {
    match v {
        Json::Number(n) => n.int,
        _ => None,
    }
}

/// `v.as_u64()`.
pub open spec fn uint_of(v: Json) -> Option<u64> {
    match v {
        Json::Number(n) => n.uint,
        _ => None,
    }
}

/// `v.as_array()`, as the sequence of its items.
pub open spec fn items_of(v: Json) -> Option<Seq<Json>> {
    match v {
        Json::Array(a) => Some(a@),
        _ => None,
    }
}

/// `v.as_object()`, as the sequence of its members.
pub open spec fn members_of(v: Json) -> Option<Seq<(String, Json)>> {
    match v {
        Json::Object(m) => Some(m@),
        _ => None,
    }
}

/// Whether two strings hold the same characters.
pub fn str_eq(a: &str, b: &str) -> (r: bool)
    ensures
        r == (a@ == b@),
{
    let av = chars_of(a);
    let bv = chars_of(b);
    same_chars(&av, &bv)
}

impl Json {
    /// `self.get(key)` taken out of the value: the value is consumed.
    pub fn take(self, key: &str) -> (r: Option<Json>)
        ensures
            r == field(self, key@),
    {
        let ghost whole = self;
        match self {
            Json::Object(mut m) => {
                let ghost orig = m@;
                assert(field(whole, key@) == lookup(orig, key@));
                let mut i: usize = 0;
                assert(m@.skip(0) == m@);
                while i < m.len()
                    invariant
                        i <= m@.len(),
                        m@ == orig,
                        whole == self,
                        field(whole, key@) == lookup(orig, key@),
                        lookup(orig, key@) == lookup(m@.skip(i as int), key@),
                    decreases m.len() - i,
                {
                    assert(m@.skip(i as int).drop_first() == m@.skip(i + 1));
                    assert(m@.skip(i as int)[0] == m@[i as int]);
                    if str_eq(m[i].0.as_str(), key) {
                        let pair = m.remove(i);
                        return Some(pair.1);
                    }
                    i = i + 1;
                }
                None
            },
            _ => None,
        }
    }

    /// `self.get(key)`.
    pub fn get(&self, key: &str) -> (r: Option<&Json>)
        ensures
            match r {
                Some(x) => field(*self, key@) == Some(*x),
                None => field(*self, key@) is None,
            },
    {
        match self {
            Json::Object(m) => {
                let mut i: usize = 0;
                assert(m@.skip(0) == m@);
                while i < m.len()
                    invariant
                        i <= m@.len(),
                        field(*self, key@) == lookup(m@, key@),
                        lookup(m@, key@) == lookup(m@.skip(i as int), key@),
                    decreases m.len() - i,
                {
                    assert(m@.skip(i as int).drop_first() == m@.skip(i + 1));
                    assert(m@.skip(i as int)[0] == m@[i as int]);
                    if str_eq(m[i].0.as_str(), key) {
                        return Some(&m[i].1);
                    }
                    i = i + 1;
                }
                None
            },
            _ => None,
        }
    }

    /// `self.as_str()`.
    pub fn as_str(&self) -> (r: Option<&str>)
        ensures
            match r {
                Some(s) => str_of(*self) == Some(s@),
                None => str_of(*self) is None,
            },
    {
        match self {
            Json::Str(s) => Some(s.as_str()),
            _ => None,
        }
    }

    /// `self.as_i64()`.
    pub fn as_i64(&self) -> (r: Option<i64>)
        ensures
            r == int_of(*self),
    {
        match self {
            Json::Number(n) => n.int,
            _ => None,
        }
    }

    /// `self.as_u64()`.
    pub fn as_u64(&self) -> (r: Option<u64>)
        ensures
            r == uint_of(*self),
    {
        match self {
            Json::Number(n) => n.uint,
            _ => None,
        }
    }

    /// `self.as_array()`.
    pub fn as_array(&self) -> (r: Option<&Vec<Json>>)
        ensures
            match r {
                Some(a) => items_of(*self) == Some(a@),
                None => items_of(*self) is None,
            },
    {
        match self {
            Json::Array(a) => Some(a),
            _ => None,
        }
    }

    /// `self.as_object()`.
    pub fn as_object(&self) -> (r: Option<&Vec<(String, Json)>>)
        ensures
            match r {
                Some(m) => members_of(*self) == Some(m@),
                None => members_of(*self) is None,
            },
    {
        match self {
            Json::Object(m) => Some(m),
            _ => None,
        }
    }

    /// `self[key].as_str()`.
    pub fn str_at(&self, key: &str) -> (r: Option<&str>)
        ensures
            match r {
                Some(s) => str_of(at(*self, key@)) == Some(s@),
                None => str_of(at(*self, key@)) is None,
            },
    {
        match self.get(key) {
            Some(x) => x.as_str(),
            None => None,
        }
    }

    /// `self[key]`, borrowed when present.
    pub fn at(&self, key: &str) -> (r: Option<&Json>)
        ensures
            match r {
                Some(x) => at(*self, key@) == *x && field(*self, key@) == Some(*x),
                None => at(*self, key@) == Json::Null && field(*self, key@) is None,
            },
    {
        self.get(key)
    }
}

/// A string value.
pub fn json_str(s: &str) -> (v: Json)
    ensures
        str_of(v) == Some(s@),
{
    Json::Str(crate::text::copy_str(s))
}

/// An integer value.
pub open spec fn is_int(v: Json, i: i64) -> bool {
    match v {
        Json::Number(n) => n.int == Some(i) && n.text@ == crate::text::decimal(i as int),
        _ => false,
    }
}

/// An integer value.
pub fn json_int(i: i64) -> (v: Json)
    ensures
        is_int(v, i),
        int_of(v) == Some(i),
{
    Json::Number(
        JsonNumber {
            int: Some(i),
            uint: if i >= 0 {
                Some(i as u64)
            } else {
                None
            },
            text: crate::text::i64_text(i),
        },
    )
}

} // verus!

verus! {

/// Looking a key up after a member was appended at the end.
pub proof fn lemma_lookup_push(m: Seq<(String, Json)>, x: (String, Json), key: Seq<char>)
    ensures
        lookup(m.push(x), key) == match lookup(m, key) {
            Some(v) => Some(v),
            None => if x.0@ == key {
                Some(x.1)
            } else {
                None
            },
        },
    decreases m.len(),
{
    if m.len() == 0 {
        assert(m.push(x).drop_first() == m);
    } else {
        assert(m.push(x).drop_first() == m.drop_first().push(x));
        assert(m.push(x)[0] == m[0]);
        lemma_lookup_push(m.drop_first(), x, key);
    }
}

/// A member named `key` holding `v`.
pub fn member(key: &str, v: Json) -> (r: (String, Json))
    ensures
        r.0@ == key@,
        r.1 == v,
{
    (crate::text::copy_str(key), v)
}

/// Appends `key: v` to the members of an object.
pub fn push_member(m: &mut Vec<(String, Json)>, key: &str, v: Json)
    ensures
        final(m)@.len() == old(m)@.len() + 1,
        forall|k: Seq<char>| #[trigger] lookup(final(m)@, k) == match lookup(old(m)@, k) {
            Some(x) => Some(x),
            None => if k == key@ {
                Some(v)
            } else {
                None
            },
        },
{
    let e = member(key, v);
    let ghost before = m@;
    m.push(e);
    assert forall|k: Seq<char>| #[trigger] lookup(m@, k) == match lookup(before, k) {
        Some(x) => Some(x),
        None => if k == key@ {
            Some(v)
        } else {
            None
        },
    } by {
        lemma_lookup_push(before, e, k);
    }
}


/// The keys of an object, in order (none for other values).
pub open spec fn member_keys(j: Json) -> Seq<Seq<char>> {
    match j {
        Json::Object(m) => m@.map_values(|p: (String, Json)| p.0@),
        _ => Seq::<Seq<char>>::empty(),
    }
}

/// The value of the `i`-th member of an object.
pub open spec fn member_value(j: Json, i: int) -> Json {
    match j {
        Json::Object(m) => m@[i].1,
        _ => Json::Null,
    }
}

/// The items of an array (none for other values).
pub open spec fn items_or_empty(j: Json) -> Seq<Json> {
    match j {
        Json::Array(a) => a@,
        _ => Seq::<Json>::empty(),
    }
}

/// Appends the member `key: v` (a string).
pub fn push_text(m: &mut Vec<(String, Json)>, key: &str, v: &str)
    ensures
        final(m)@ == old(m)@.push(final(m)@.last()),
        final(m)@.last().0@ == key@,
        str_of(final(m)@.last().1) == Some(v@),
{
    m.push((crate::text::copy_str(key), json_str(v)));
}

/// Appends the member `key: v` (an integer).
pub fn push_int(m: &mut Vec<(String, Json)>, key: &str, v: i64)
    ensures
        final(m)@ == old(m)@.push(final(m)@.last()),
        final(m)@.last().0@ == key@,
        int_of(final(m)@.last().1) == Some(v),
{
    m.push((crate::text::copy_str(key), json_int(v)));
}

/// Appends the member `key: v`.
pub fn push_value(m: &mut Vec<(String, Json)>, key: &str, v: Json)
    ensures
        final(m)@ == old(m)@.push(final(m)@.last()),
        final(m)@.last().0@ == key@,
        final(m)@.last().1 == v,
{
    m.push((crate::text::copy_str(key), v));
}

/// An array of strings.
pub fn text_array(items: &[&str]) -> (j: Json)
    ensures
        items_or_empty(j).len() == items@.len(),
        j is Array,
        forall|i: int| 0 <= i < items@.len() ==> str_of(#[trigger] items_or_empty(j)[i]) == Some(items@[i]@),
{
    let mut v: Vec<Json> = Vec::new();
    let mut i: usize = 0;
    while i < items.len()
        invariant
            i <= items@.len(),
            v@.len() == i,
            forall|k: int| 0 <= k < i ==> str_of(#[trigger] v@[k]) == Some(items@[k]@),
        decreases items.len() - i,
    {
        v.push(json_str(items[i]));
        i = i + 1;
    }
    Json::Array(v)
}

/// An array of the strings of `items`.
pub fn string_array(items: &[String]) -> (j: Json)
    ensures
        items_or_empty(j).len() == items@.len(),
        j is Array,
        forall|i: int| 0 <= i < items@.len() ==> str_of(#[trigger] items_or_empty(j)[i]) == Some(items@[i]@),
{
    let mut v: Vec<Json> = Vec::new();
    let mut i: usize = 0;
    while i < items.len()
        invariant
            i <= items@.len(),
            v@.len() == i,
            forall|k: int| 0 <= k < i ==> str_of(#[trigger] v@[k]) == Some(items@[k]@),
        decreases items.len() - i,
    {
        v.push(json_str(items[i].as_str()));
        i = i + 1;
    }
    Json::Array(v)
}

// ---------------------------------------------------------------------------
// Printing a value as JSON text
// ---------------------------------------------------------------------------

/// The JSON text of a value: numbers as they were written, strings as
/// `serde_json` quotes them, arrays and objects in member order with `,` and
/// `:` and no spaces.
pub open spec fn json_text_of(v: Json) -> Seq<char>
    decreases v,
{
    match v {
        Json::Null => "null"@,
        Json::Bool(b) => if b {
            "true"@
        } else {
            "false"@
        },
        Json::Number(n) => n.text@,
        Json::Str(s) => json_string_literal(s@),
        Json::Array(a) => "["@ + items_text(a@) + "]"@,
        Json::Object(m) => "{"@ + members_text(m@) + "}"@,
    }
}

/// The items of an array, separated by `,`.
pub open spec fn items_text(s: Seq<Json>) -> Seq<char>
    decreases s,
{
    if s.len() == 0 {
        Seq::<char>::empty()
    } else if s.len() == 1 {
        json_text_of(s[0])
    } else {
        items_text(s.drop_last()) + ","@ + json_text_of(s.last())
    }
}

/// The members of an object as `"key":value`, separated by `,`.
pub open spec fn members_text(m: Seq<(String, Json)>) -> Seq<char>
    decreases m,
{
    if m.len() == 0 {
        Seq::<char>::empty()
    } else if m.len() == 1 {
        json_string_literal(m[0].0@) + ":"@ + json_text_of(m[0].1)
    } else {
        members_text(m.drop_last()) + ","@ + json_string_literal(m.last().0@) + ":"@ + json_text_of(
            m.last().1,
        )
    }
}

/// The JSON text of `v`.
pub fn json_text(v: &Json) -> (r: String)
    ensures
        r@ == json_text_of(*v),
    decreases v,
{
    match v {
        Json::Null => copy_str("null"),
        Json::Bool(b) => if *b {
            copy_str("true")
        } else {
            copy_str("false")
        },
        Json::Number(n) => copy_str(n.text.as_str()),
        Json::Str(s) => json_quote(s.as_str()),
        Json::Array(a) => {
            let mut r = copy_str("[");
            let mut i: usize = 0;
            while i < a.len()
                invariant
                    i <= a@.len(),
                    *v == Json::Array(*a),
                    r@ == "["@ + items_text(a@.take(i as int)),
                decreases a.len() - i,
            {
                proof {
                    assert(a@.take(i + 1).drop_last() == a@.take(i as int));
                    assert(a@.take(i + 1).last() == a@[i as int]);
                }
                if i > 0 {
                    push_str(&mut r, ",");
                }
                proof {
                    assert(decreases_to!(*v => (*v)->Array_0));
                    assert((*v)->Array_0 == *a);
                    assert(decreases_to!(*a => a@));
                    assert(decreases_to!(a@ => a@[i as int]));
                    assert(decreases_to!(*v => a@[i as int]));
                }
                let t = json_text(&a[i]);
                push_str(&mut r, t.as_str());
                i = i + 1;
            }
            proof {
                assert(a@.take(a@.len() as int) == a@);
            }
            push_str(&mut r, "]");
            r
        },
        Json::Object(m) => {
            let mut r = copy_str("{");
            let mut i: usize = 0;
            while i < m.len()
                invariant
                    i <= m@.len(),
                    *v == Json::Object(*m),
                    r@ == "{"@ + members_text(m@.take(i as int)),
                decreases m.len() - i,
            {
                proof {
                    assert(m@.take(i + 1).drop_last() == m@.take(i as int));
                    assert(m@.take(i + 1).last() == m@[i as int]);
                }
                if i > 0 {
                    push_str(&mut r, ",");
                }
                let k = json_quote(m[i].0.as_str());
                push_str(&mut r, k.as_str());
                push_str(&mut r, ":");
                proof {
                    assert(decreases_to!(*v => (*v)->Object_0));
                    assert((*v)->Object_0 == *m);
                    assert(decreases_to!(*m => m@));
                    assert(decreases_to!(m@ => m@[i as int]));
                    assert(decreases_to!(m@[i as int] => m@[i as int].1));
                    assert(decreases_to!(*v => m@[i as int].1));
                }
                let t = json_text(&m[i].1);
                push_str(&mut r, t.as_str());
                i = i + 1;
            }
            proof {
                assert(m@.take(m@.len() as int) == m@);
            }
            push_str(&mut r, "}");
            r
        },
    }
}

} // verus!
