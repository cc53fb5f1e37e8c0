//! Reading fields out of JSON texts and encoding strings as JSON, through
//! `serde_json`. Each reader parses the whole text and looks one top-level key
//! up; a text that is not a JSON object, a missing key or a value of another
//! JSON type all read as `None`.

use vstd::prelude::*;
use crate::text::{chars_of, owned, push_char};

verus! {

/// What `serde_json` reads for `key` in `text` when that value is a JSON string.
pub uninterp spec fn spec_json_str_field(text: Seq<char>, key: Seq<char>) -> Option<Seq<char>>;

/// What `serde_json` reads for `key` in `text` when that value is an unsigned integer.
pub uninterp spec fn spec_json_u64_field(text: Seq<char>, key: Seq<char>) -> Option<u64>;

/// What `serde_json` reads for `key` in `text` when that value is a signed integer.
pub uninterp spec fn spec_json_i64_field(text: Seq<char>, key: Seq<char>) -> Option<i64>;

/// What `serde_json` reads for `key` in `text` when that value is a boolean.
pub uninterp spec fn spec_json_bool_field(text: Seq<char>, key: Seq<char>) -> Option<bool>;

/// The items of the array `serde_json` reads for `key` in `text`, in order, each
/// `Some` when it is a JSON string; `None` when the value is not an array.
pub uninterp spec fn spec_json_array_strs(text: Seq<char>, key: Seq<char>) -> Option<Seq<Option<Seq<char>>>>;

/// The message of the error `serde_json` reports when `text` is not JSON, or
/// `None` when it parses.
pub uninterp spec fn spec_json_parse_error(text: Seq<char>) -> Option<Seq<char>>;

/// The lowercase hexadecimal digit of `d` (below 16).
pub open spec fn hex_digit(d: u32) -> char {
    if d < 10 { (48 + d) as char } else { (87 + d) as char }
}

/// How a character stands inside a JSON string literal, as `serde_json`
/// writes it: the quote and the backslash behind a backslash, the
/// backspace, tab, line feed, form feed and carriage return as their short
/// escapes, any other control character below U+0020 as `\u00XX` (lowercase
/// hex), and every other character as itself.
pub open spec fn spec_json_escape(c: char) -> Seq<char> {
    if c == '"' {
        seq!['\\', '"']
    } else if c == '\\' {
        seq!['\\', '\\']
    } else if c == '\u{8}' {
        seq!['\\', 'b']
    } else if c == '\t' {
        seq!['\\', 't']
    } else if c == '\n' {
        seq!['\\', 'n']
    } else if c == '\u{c}' {
        seq!['\\', 'f']
    } else if c == '\r' {
        seq!['\\', 'r']
    } else if (c as u32) < 0x20 {
        seq!['\\', 'u', '0', '0', hex_digit((c as u32) / 16), hex_digit((c as u32) % 16)]
    } else {
        seq![c]
    }
}

/// The characters of `s`, each as it stands inside a JSON string literal.
pub open spec fn spec_json_escaped(s: Seq<char>) -> Seq<char>
    decreases s.len(),
{
    if s.len() == 0 {
        Seq::empty()
    } else {
        spec_json_escaped(s.drop_last()) + spec_json_escape(s.last())
    }
}

/// The JSON string literal of `s`: its escaped characters between quotes.
pub open spec fn spec_json_string(s: Seq<char>) -> Seq<char> {
    seq!['"'] + spec_json_escaped(s) + seq!['"']
}

/// `serde_json::from_str::<serde_json::Value>` followed by `Value::get(key)` and
/// `Value::as_str`: the string value of a top-level key. Nothing is claimed of
/// the result beyond that it is this function of the text and the key.
#[verifier::external_body]
pub(crate) fn json_str_field(text: &str, key: &str) -> (r: Option<String>)
    ensures
        r is Some <==> spec_json_str_field(text@, key@) is Some,
        r is Some ==> r->0@ == spec_json_str_field(text@, key@)->0,
{
    let value: serde_json::Value = serde_json::from_str(text).ok()?;
    value.get(key).and_then(|v| v.as_str()).map(str::to_owned)
}

/// `serde_json::from_str::<serde_json::Value>` followed by `Value::get(key)` and
/// `Value::as_u64`: the unsigned-integer value of a top-level key.
#[verifier::external_body]
pub(crate) fn json_u64_field(text: &str, key: &str) -> (r: Option<u64>)
    ensures
        r == spec_json_u64_field(text@, key@),
{
    let value: serde_json::Value = serde_json::from_str(text).ok()?;
    value.get(key).and_then(|v| v.as_u64())
}

/// `serde_json::from_str::<serde_json::Value>` followed by `Value::get(key)` and
/// `Value::as_i64`: the signed-integer value of a top-level key.
#[verifier::external_body]
pub(crate) fn json_i64_field(text: &str, key: &str) -> (r: Option<i64>)
    ensures
        r == spec_json_i64_field(text@, key@),
{
    let value: serde_json::Value = serde_json::from_str(text).ok()?;
    value.get(key).and_then(|v| v.as_i64())
}

/// `serde_json::from_str::<serde_json::Value>` followed by `Value::get(key)` and
/// `Value::as_bool`: the boolean value of a top-level key.
#[verifier::external_body]
pub(crate) fn json_bool_field(text: &str, key: &str) -> (r: Option<bool>)
    ensures
        r == spec_json_bool_field(text@, key@),
{
    let value: serde_json::Value = serde_json::from_str(text).ok()?;
    value.get(key).and_then(|v| v.as_bool())
}

/// `serde_json::from_str::<serde_json::Value>` followed by `Value::get(key)`,
/// `Value::as_array` and `Value::as_str` on each item: one entry per array item,
/// in order, holding the item's text when it is a JSON string.
#[verifier::external_body]
pub(crate) fn json_array_strs(text: &str, key: &str) -> (r: Option<Vec<Option<String>>>)
    ensures
        r is Some <==> spec_json_array_strs(text@, key@) is Some,
        r is Some ==> r->0@.len() == spec_json_array_strs(text@, key@)->0.len(),
        r is Some ==> forall|i: int| 0 <= i < r->0@.len() ==> {
            let expected = #[trigger] spec_json_array_strs(text@, key@)->0[i];
            &&& (r->0@[i] is Some <==> expected is Some)
            &&& (r->0@[i] is Some ==> r->0@[i]->0@ == expected->0)
        },
{
    let value: serde_json::Value = serde_json::from_str(text).ok()?;
    let items = value.get(key)?.as_array()?;
    Some(items.iter().map(|v| v.as_str().map(str::to_owned)).collect())
}

/// `serde_json::from_str::<serde_json::Value>` and, when it fails, the error's
/// `to_string()`: `None` when the text parses as JSON. Nothing is claimed of the
/// message beyond that it is this function of the text.
#[verifier::external_body]
pub(crate) fn json_parse_error(text: &str) -> (r: Option<String>)
    ensures
        r is Some <==> spec_json_parse_error(text@) is Some,
        r is Some ==> r->0@ == spec_json_parse_error(text@)->0,
{
    serde_json::from_str::<serde_json::Value>(text).err().map(|e| e.to_string())
}

/// `serde_json::to_string` on a JSON object of one string entry, `key` to
/// `value`: the compact text `{"key":"value"}`, each string written as its
/// JSON literal; `serde_json` reads `value` back for `key` from that text
/// (writing a map with a string key never fails, so the error arm is
/// unreachable).
#[verifier::external_body]
pub(crate) fn json_text_object(key: &str, value: &str) -> (r: String)
    ensures
        r@ == "{"@ + spec_json_string(key@) + ":"@ + spec_json_string(value@) + "}"@,
        spec_json_str_field(r@, key@) == Some(value@),
{
    let mut map = serde_json::Map::new();
    map.insert(key.to_owned(), serde_json::Value::String(value.to_owned()));
    serde_json::to_string(&serde_json::Value::Object(map)).unwrap_or_default()
}

fn hex_digit_char(d: u32) -> (r: char)
    requires
        d < 16,
    ensures
        r == hex_digit(d),
{
    if d < 10 {
        ((48 + d) as u8) as char
    } else {
        ((87 + d) as u8) as char
    }
}

fn push_escaped(out: &mut String, c: char)
    ensures
        final(out)@ == old(out)@ + spec_json_escape(c),
{
    let ghost start = out@;
    if c == '"' {
        push_char(out, '\\');
        push_char(out, '"');
    } else if c == '\\' {
        push_char(out, '\\');
        push_char(out, '\\');
    } else if c == '\u{8}' {
        push_char(out, '\\');
        push_char(out, 'b');
    } else if c == '\t' {
        push_char(out, '\\');
        push_char(out, 't');
    } else if c == '\n' {
        push_char(out, '\\');
        push_char(out, 'n');
    } else if c == '\u{c}' {
        push_char(out, '\\');
        push_char(out, 'f');
    } else if c == '\r' {
        push_char(out, '\\');
        push_char(out, 'r');
    } else if (c as u32) < 0x20 {
        let n = c as u32;
        push_char(out, '\\');
        push_char(out, 'u');
        push_char(out, '0');
        push_char(out, '0');
        push_char(out, hex_digit_char(n / 16));
        push_char(out, hex_digit_char(n % 16));
    } else {
        push_char(out, c);
    }
    proof {
        assert(out@ =~= start + spec_json_escape(c));
    }
}

/// The JSON string literal of `s` (see [`spec_json_string`]).
pub(crate) fn json_string(s: &str) -> (r: String)
    ensures
        r@ == spec_json_string(s@),
{
    let chars = chars_of(s);
    let mut out = owned("");
    proof {
        reveal_strlit("");
    }
    push_char(&mut out, '"');
    let mut i: usize = 0;
    proof {
        assert(chars@.take(0) =~= Seq::<char>::empty());
        assert(out@ =~= seq!['"'] + spec_json_escaped(chars@.take(0)));
    }
    while i < chars.len()
        invariant
            i <= chars@.len(),
            chars@ == s@,
            out@ == seq!['"'] + spec_json_escaped(chars@.take(i as int)),
        decreases chars.len() - i,
    {
        let ghost before = out@;
        push_escaped(&mut out, chars[i]);
        proof {
            let t = chars@.take(i as int + 1);
            assert(t.drop_last() =~= chars@.take(i as int));
            assert(t.last() == chars@[i as int]);
            assert(out@ =~= seq!['"'] + spec_json_escaped(t));
        }
        i = i + 1;
    }
    push_char(&mut out, '"');
    proof {
        assert(chars@.take(i as int) =~= s@);
    }
    out
}

} // verus!
