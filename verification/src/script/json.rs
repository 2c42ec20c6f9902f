use vstd::prelude::*;

verus! {

/// The lower-case hexadecimal digit of `d`, for `d < 16`.
pub open spec fn hex_digit(d: int) -> char {
    if d < 10 {
        ('0' as int + d) as char
    } else {
        ('a' as int + (d - 10)) as char
    }
}

/// How JSON writes `c` inside a string literal.
pub open spec fn json_escape(c: char) -> Seq<char> {
    if c == '"' {
        seq!['\\', '"']
    } else if c == '\\' {
        seq!['\\', '\\']
    } else if c == '\u{8}' {
        seq!['\\', 'b']
    } else if c == '\t' {
        seq!['\\', 't']
    } else if c == '\n' {
        seq!['\\', 'n']
    } else if c == '\u{c}' {
        seq!['\\', 'f']
    } else if c == '\r' {
        seq!['\\', 'r']
    } else if (c as int) < 0x20 {
        seq!['\\', 'u', '0', '0', hex_digit(c as int / 16), hex_digit(c as int % 16)]
    } else {
        seq![c]
    }
}

/// The escaped characters of `s`, in order.
pub open spec fn json_escaped(s: Seq<char>) -> Seq<char>
    decreases s.len(),
{
    if s.len() == 0 {
        seq![]
    } else {
        json_escape(s[0]) + json_escaped(s.drop_first())
    }
}

/// The JSON string literal of `s`.
pub open spec fn json_string(s: Seq<char>) -> Seq<char> {
    seq!['"'] + json_escaped(s) + seq!['"']
}

/// The decimal digits of `n`, without leading zeros (`0` for 0).
pub open spec fn decimal(n: nat) -> Seq<char>
    decreases n,
{
    if n < 10 {
        seq![('0' as int + n) as char]
    } else {
        decimal(n / 10) + seq![('0' as int + n % 10) as char]
    }
}

/// The items of `s`, each as JSON numbers, separated by commas.
pub open spec fn json_numbers(s: Seq<u8>) -> Seq<char>
    decreases s.len(),
{
    if s.len() == 0 {
        seq![]
    } else if s.len() == 1 {
        decimal(s[0] as nat)
    } else {
        json_numbers(s.drop_last()) + seq![','] + decimal(s.last() as nat)
    }
}

/// The JSON array of the numbers of `s`.
pub open spec fn json_byte_array(s: Seq<u8>) -> Seq<char> {
    seq!['['] + json_numbers(s) + seq![']']
}

/// An error from the JSON serializer.
#[derive(Debug, PartialEq, Eq)]
pub struct JsonError;

/// The JSON string literal of `s`.
///
/// Calls `serde_json::to_string` on a `str`; the contract claims that it
/// succeeds (a string is written to a byte vector, which cannot fail) and that
/// the literal is `s` in double quotes, with `"`, `\` and the control
/// characters below U+0020 escaped as serde_json's escape table writes them.
#[verifier::external_body]
pub(crate) fn to_json_string(s: &str) -> (r: Result<String, JsonError>)
    ensures
        r is Ok,
        r matches Ok(t) ==> t@ == json_string(s@),
{
    match serde_json::to_string(s) {
        Ok(t) => Ok(t),
        Err(_) => Err(JsonError),
    }
}

/// The JSON array of the bytes `b`.
///
/// Calls `serde_json::to_string` on a byte slice; the contract claims that it
/// succeeds (numbers are written to a byte vector, which cannot fail) and that
/// the result is the bytes as decimal numbers, separated by commas, in square
/// brackets.
#[verifier::external_body]
pub(crate) fn to_json_bytes(b: &[u8]) -> (r: Result<String, JsonError>)
    ensures
        r is Ok,
        r matches Ok(t) ==> t@ == json_byte_array(b@),
{
    match serde_json::to_string(b) {
        Ok(t) => Ok(t),
        Err(_) => Err(JsonError),
    }
}

} // verus!
