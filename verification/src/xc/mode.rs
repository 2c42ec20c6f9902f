use vstd::prelude::*;

verus! {

pub open spec fn is_ascii_char(c: char) -> bool {
    (c as u32) < 0x80
}

/// The input format of a mode: its first character, if it is ASCII; else `r`.
pub open spec fn spec_from(mode: Seq<char>) -> Seq<char> {
    if mode.len() >= 1 && is_ascii_char(mode[0]) {
        mode.take(1)
    } else {
        "r"@
    }
}

/// The output format of a mode: its second character, if it and the first
/// are ASCII; else `j`.
pub open spec fn spec_to(mode: Seq<char>) -> Seq<char> {
    if mode.len() >= 2 && is_ascii_char(mode[0]) && is_ascii_char(mode[1]) {
        mode.subrange(1, 2)
    } else {
        "j"@
    }
}

/// The character at `from` of `s`, when it is ASCII.
///
/// Calls `str::get` with the byte range `from..from + 1`; the contract claims
/// that, when the characters before `from` are ASCII (so that character and
/// byte positions agree), it succeeds exactly when the character at `from`
/// exists and is one byte long, that is ASCII.
#[verifier::external_body]
fn ascii_get(s: &str, from: usize, to: usize) -> (r: Option<&str>)
    requires
        to == from + 1,
        forall|i: int| 0 <= i < from ==> is_ascii_char(#[trigger] s@[i]),
    ensures
        r is Some <==> (from < s@.len() && is_ascii_char(s@[from as int])),
        r matches Some(t) ==> t@ == s@.subrange(from as int, to as int),
{
    s.get(from..to)
}

/// The input format of a mode.
pub fn from(mode: &str) -> (r: &str)
    ensures
        r@ == spec_from(mode@),
{
    match ascii_get(mode, 0, 1) {
        Some(f) => f,
        None => "r",
    }
}

/// The output format of a mode.
pub fn to(mode: &str) -> (r: &str)
    ensures
        r@ == spec_to(mode@),
{
    match ascii_get(mode, 0, 1) {
        Some(_) => match ascii_get(mode, 1, 2) {
            Some(t) => t,
            None => "j",
        },
        None => "j",
    }
}

} // verus!
