//! Rendering of the one JSON shape the dispatcher produces: an object with a
//! single string field, `{"<name>":"<value>"}`, with standard JSON string
//! escaping of the name and the value.

use vstd::prelude::*;

verus! {

/// The lowercase hexadecimal digit for a value in `0..16`.
pub open spec fn spec_hex_digit(n: int) -> char {
    if n == 0 {
        '0'
    } else if n == 1 {
        '1'
    } else if n == 2 {
        '2'
    } else if n == 3 {
        '3'
    } else if n == 4 {
        '4'
    } else if n == 5 {
        '5'
    } else if n == 6 {
        '6'
    } else if n == 7 {
        '7'
    } else if n == 8 {
        '8'
    } else if n == 9 {
        '9'
    } else if n == 10 {
        'a'
    } else if n == 11 {
        'b'
    } else if n == 12 {
        'c'
    } else if n == 13 {
        'd'
    } else if n == 14 {
        'e'
    } else {
        'f'
    }
}

/// How one character appears inside a JSON string literal: quotes and
/// backslashes get a backslash escape, the five named control characters get
/// their short escapes, the remaining control characters get `\u00XY` with
/// lowercase hex digits, and every other character stands for itself.
pub open spec fn spec_json_escape_char(c: char) -> Seq<char> {
    if c == '"' {
        seq!['\\', '"']
    } else if c == '\\' {
        seq!['\\', '\\']
    } else if c == '\u{08}' {
        seq!['\\', 'b']
    } else if c == '\u{09}' {
        seq!['\\', 't']
    } else if c == '\u{0a}' {
        seq!['\\', 'n']
    } else if c == '\u{0c}' {
        seq!['\\', 'f']
    } else if c == '\u{0d}' {
        seq!['\\', 'r']
    } else if (c as int) < 0x20 {
        seq!['\\', 'u', '0', '0', spec_hex_digit((c as int) / 16), spec_hex_digit((c as int) % 16)]
    } else {
        seq![c]
    }
}

/// A whole string's appearance inside a JSON string literal.
pub open spec fn spec_json_escape(s: Seq<char>) -> Seq<char>
    decreases s.len(),
{
    if s.len() == 0 {
        Seq::empty()
    } else {
        spec_json_escape_char(s[0]) + spec_json_escape(s.drop_first())
    }
}

/// The JSON object with the single string field `name` holding `value`:
/// `{"<name>":"<value>"}`, both escaped, with no whitespace.
pub open spec fn spec_json_object(name: Seq<char>, value: Seq<char>) -> Seq<char> {
    seq!['{', '"'] + spec_json_escape(name) + seq!['"', ':', '"'] + spec_json_escape(value) + seq![
        '"',
        '}',
    ]
}

/// Relies on serde_json::to_string over a one-entry map from a string to a
/// string value: it writes the compact object `{"name":"value"}` and escapes
/// both strings as [`spec_json_escape`] says (`\"`, `\\`, `\b`, `\t`, `\n`,
/// `\f`, `\r`, and `\u00XY` with lowercase hex digits for the other control
/// characters). Serializing such a map into a `String` cannot fail, so the
/// fallback arm is never taken.
#[verifier::external_body]
pub(crate) fn json_object(name: &str, value: &str) -> (r: String)
    ensures
        r@ == spec_json_object(name@, value@),
{
    let mut map = serde_json::Map::new();
    map.insert(name.to_string(), serde_json::Value::String(value.to_string()));
    match serde_json::to_string(&map) {
        Ok(s) => s,
        Err(_) => String::new(),
    }
}

} // verus!
