//! JSON text as the wire protocol uses it: the few calls into serde_json that
//! the codec makes, and lookups in the members of a decoded object.

use vstd::prelude::*;

verus! {

/// The members of `text` read by serde_json as an object, in key order, each
/// with its text where its value is a string and `None` where it is any
/// other value; `None` where `text` is no object.
pub uninterp spec fn json_string_members(text: Seq<char>) -> Option<Seq<(Seq<char>, Option<Seq<char>>)>>;

/// The members of `text` read by serde_json as an object whose values are all
/// integers that fit in an `i64`, in key order; `None` where it is not one.
pub uninterp spec fn json_integer_members(text: Seq<char>) -> Option<Seq<(Seq<char>, i64)>>;

pub open spec fn digit_char(d: nat) -> char {
    if d == 0 { '0' } else if d == 1 { '1' } else if d == 2 { '2' } else if d == 3 { '3' }
    else if d == 4 { '4' } else if d == 5 { '5' } else if d == 6 { '6' } else if d == 7 { '7' }
    else if d == 8 { '8' } else { '9' }
}

pub open spec fn hex_char(d: nat) -> char {
    if d < 10 { digit_char(d) } else if d == 10 { 'a' } else if d == 11 { 'b' } else if d == 12 { 'c' }
    else if d == 13 { 'd' } else if d == 14 { 'e' } else { 'f' }
}

/// One character inside a JSON string literal: quote and backslash are
/// escaped with a backslash, backspace, tab, line feed, form feed and carriage
/// return by their letter, other control characters as `\u00` and two
/// lower-case hex digits; every other character stands for itself.
pub open spec fn escaped_char(c: char) -> Seq<char> {
    if c == '"' {
        seq!['\\', '"']
    } else if c == '\\' {
        seq!['\\', '\\']
    } else if c == '\x08' {
        seq!['\\', 'b']
    } else if c == '\t' {
        seq!['\\', 't']
    } else if c == '\n' {
        seq!['\\', 'n']
    } else if c == '\x0c' {
        seq!['\\', 'f']
    } else if c == '\r' {
        seq!['\\', 'r']
    } else if (c as u32) < 0x20 {
        seq!['\\', 'u', '0', '0', hex_char((c as u32 / 16) as nat), hex_char((c as u32 % 16) as nat)]
    } else {
        seq![c]
    }
}

pub open spec fn escaped(s: Seq<char>) -> Seq<char>
    decreases s.len(),
{
    if s.len() == 0 {
        Seq::empty()
    } else {
        escaped(s.drop_last()) + escaped_char(s.last())
    }
}

/// The text that serde_json writes for a string: its characters, escaped,
/// between double quotes.
pub open spec fn json_quoted(s: Seq<char>) -> Seq<char> {
    seq!['"'] + escaped(s) + seq!['"']
}

/// The decimal digits of `n`, without leading zeros.
pub open spec fn decimal_digits(n: nat) -> Seq<char>
    decreases n,
{
    if n < 10 {
        seq![digit_char(n)]
    } else {
        decimal_digits(n / 10).push(digit_char(n % 10))
    }
}

/// An integer written in decimal, with a leading minus sign when negative.
pub open spec fn decimal_text(n: int) -> Seq<char> {
    if n < 0 {
        seq!['-'] + decimal_digits((-n) as nat)
    } else {
        decimal_digits(n as nat)
    }
}

/// The value of the first member named `key`, if any.
pub open spec fn member<V>(ms: Seq<(Seq<char>, V)>, key: Seq<char>) -> Option<V>
    decreases ms.len(),
{
    if ms.len() == 0 {
        None
    } else if ms[0].0 == key {
        Some(ms[0].1)
    } else {
        member(ms.drop_first(), key)
    }
}

pub open spec fn text_of(o: Option<String>) -> Option<Seq<char>> {
    match o {
        Some(s) => Some(s@),
        None => None,
    }
}

pub open spec fn string_members_view(ms: Seq<(String, Option<String>)>) -> Seq<(Seq<char>, Option<Seq<char>>)> {
    ms.map_values(|p: (String, Option<String>)| (p.0@, text_of(p.1)))
}

/// The text of the first member named `key`, if it is there and a string.
pub open spec fn text_member(ms: Seq<(Seq<char>, Option<Seq<char>>)>, key: Seq<char>) -> Option<Seq<char>> {
    match member(ms, key) {
        Some(Some(t)) => Some(t),
        _ => None,
    }
}

pub open spec fn integer_members_view(ms: Seq<(String, i64)>) -> Seq<(Seq<char>, i64)> {
    ms.map_values(|p: (String, i64)| (p.0@, p.1))
}

/// Relies on serde_json::to_string on a `str`: the string between quotes,
/// escaped as `format_escaped_str` does. Serialising a string into memory
/// has no failure case.
#[verifier::external_body]
pub(crate) fn quote(s: &str) -> (r: String)
    ensures
        r@ == json_quoted(s@),
{
    match serde_json::to_string(s) {
        Ok(t) => t,
        Err(_) => String::new(),
    }
}

/// Relies on serde_json::to_string on an `i64`: the number in decimal, with
/// a minus sign when negative. Serialising an integer has no failure case.
#[verifier::external_body]
pub(crate) fn integer_text(n: i64) -> (r: String)
    ensures
        r@ == decimal_text(n as int),
{
    match serde_json::to_string(&n) {
        Ok(t) => t,
        Err(_) => String::new(),
    }
}

/// Relies on serde_json::from_str into a `BTreeMap<String, Value>`: the
/// members of an object, in key order, or an error; each value is kept
/// where it is a `Value::String`.
#[verifier::external_body]
pub(crate) fn string_members(text: &str) -> (r: Option<Vec<(String, Option<String>)>>)
    ensures
        match r {
            Some(v) => json_string_members(text@) == Some(string_members_view(v@)),
            None => json_string_members(text@) is None,
        },
{
    match serde_json::from_str::<std::collections::BTreeMap<String, serde_json::Value>>(text) {
        Ok(m) => {
            let mut r = Vec::new();
            for (k, v) in m {
                match v {
                    serde_json::Value::String(s) => r.push((k, Some(s))),
                    _ => r.push((k, None)),
                }
            }
            Some(r)
        },
        Err(_) => None,
    }
}

/// Relies on serde_json::from_str into a `BTreeMap<String, i64>`: the members
/// of an object of integers, in key order, or an error.
#[verifier::external_body]
pub(crate) fn integer_members(text: &str) -> (r: Option<Vec<(String, i64)>>)
    ensures
        match r {
            Some(v) => json_integer_members(text@) == Some(integer_members_view(v@)),
            None => json_integer_members(text@) is None,
        },
{
    match serde_json::from_str::<std::collections::BTreeMap<String, i64>>(text) {
        Ok(m) => Some(m.into_iter().collect()),
        Err(_) => None,
    }
}

/// Whether a string holds exactly the text `t`.
pub fn same_text(s: &String, t: &str) -> (r: bool)
    ensures
        r == (s@ == t@),
{
    let owned = t.to_owned();
    *s == owned
}

proof fn lemma_member_skip<V>(ms: Seq<(Seq<char>, V)>, i: int, key: Seq<char>)
    requires
        0 <= i < ms.len(),
        ms[i].0 != key,
    ensures
        member(ms.subrange(i, ms.len() as int), key) == member(ms.subrange(i + 1, ms.len() as int), key),
{
    assert(ms.subrange(i, ms.len() as int).drop_first() =~= ms.subrange(i + 1, ms.len() as int));
}

/// The text of the first member named `key`, where it is a string.
pub fn string_member(ms: &Vec<(String, Option<String>)>, key: &str) -> (r: Option<String>)
    ensures
        match r {
            Some(v) => text_member(string_members_view(ms@), key@) == Some(v@),
            None => text_member(string_members_view(ms@), key@) is None,
        },
{
    let ghost mv = string_members_view(ms@);
    let k = key.to_owned();
    let mut i: usize = 0;
    assert(mv.subrange(0, mv.len() as int) =~= mv);
    while i < ms.len()
        invariant
            0 <= i <= ms.len(),
            mv == string_members_view(ms@),
            k@ == key@,
            member(mv, key@) == member(mv.subrange(i as int, mv.len() as int), key@),
        decreases ms.len() - i,
    {
        if ms[i].0 == k {
            return match &ms[i].1 {
                Some(s) => Some(s.clone()),
                None => None,
            };
        }
        proof {
            lemma_member_skip(mv, i as int, key@);
        }
        i = i + 1;
    }
    None
}

/// The value of the first member named `key` among integer members.
pub fn integer_member(ms: &Vec<(String, i64)>, key: &str) -> (r: Option<i64>)
    ensures
        r == member(integer_members_view(ms@), key@),
{
    let ghost mv = integer_members_view(ms@);
    let k = key.to_owned();
    let mut i: usize = 0;
    assert(mv.subrange(0, mv.len() as int) =~= mv);
    while i < ms.len()
        invariant
            0 <= i <= ms.len(),
            mv == integer_members_view(ms@),
            k@ == key@,
            member(mv, key@) == member(mv.subrange(i as int, mv.len() as int), key@),
        decreases ms.len() - i,
    {
        if ms[i].0 == k {
            return Some(ms[i].1);
        }
        proof {
            lemma_member_skip(mv, i as int, key@);
        }
        i = i + 1;
    }
    None
}

} // verus!
