use vstd::prelude::*;
use vstd::utf8::{
    decode_utf8,
    valid_utf8,
};

verus! {

/// Whether `c` has the Unicode `White_Space` property.
pub open spec fn is_white_space(c: char) -> bool {
    ||| '\u{9}' <= c <= '\u{d}'
    ||| c == ' '
    ||| c == '\u{85}'
    ||| c == '\u{a0}'
    ||| c == '\u{1680}'
    ||| '\u{2000}' <= c <= '\u{200a}'
    ||| c == '\u{2028}'
    ||| c == '\u{2029}'
    ||| c == '\u{202f}'
    ||| c == '\u{205f}'
    ||| c == '\u{3000}'
}

/// `cur`, as a one-element sequence, unless it is empty.
pub open spec fn nonempty_piece<T>(cur: Seq<T>) -> Seq<Seq<T>> {
    if cur.len() > 0 {
        seq![cur]
    } else {
        seq![]
    }
}

/// The maximal runs of non-white-space characters of `s`, after the run `cur`
/// that is already underway.
pub open spec fn words_from(s: Seq<char>, cur: Seq<char>) -> Seq<Seq<char>>
    decreases s.len(),
{
    if s.len() == 0 {
        nonempty_piece(cur)
    } else if is_white_space(s[0]) {
        nonempty_piece(cur) + words_from(s.drop_first(), seq![])
    } else {
        words_from(s.drop_first(), cur.push(s[0]))
    }
}

/// The words of `s`: its maximal runs of non-white-space characters, in order.
pub open spec fn words(s: Seq<char>) -> Seq<Seq<char>> {
    words_from(s, seq![])
}

/// The pieces of `s` between the occurrences of `sep`, after the piece `cur`
/// that is already underway.
pub open spec fn split_from<T>(s: Seq<T>, sep: T, cur: Seq<T>) -> Seq<Seq<T>>
    decreases s.len(),
{
    if s.len() == 0 {
        seq![cur]
    } else if s[0] == sep {
        seq![cur] + split_from(s.drop_first(), sep, seq![])
    } else {
        split_from(s.drop_first(), sep, cur.push(s[0]))
    }
}

/// The pieces of `s` between the occurrences of `sep`, empty pieces included:
/// one more than there are occurrences.
pub open spec fn split_on<T>(s: Seq<T>, sep: T) -> Seq<Seq<T>> {
    split_from(s, sep, seq![])
}

/// `line` without one final carriage return.
pub open spec fn strip_cr(line: Seq<char>) -> Seq<char> {
    if line.len() > 0 && line.last() == '\r' {
        line.drop_last()
    } else {
        line
    }
}

/// The lines of `s` after the line `cur` that is already underway.
pub open spec fn lines_from(s: Seq<char>, cur: Seq<char>) -> Seq<Seq<char>>
    decreases s.len(),
{
    if s.len() == 0 {
        nonempty_piece(cur)
    } else if s[0] == '\n' {
        seq![strip_cr(cur)] + lines_from(s.drop_first(), seq![])
    } else {
        lines_from(s.drop_first(), cur.push(s[0]))
    }
}

/// The lines of `s`: the pieces ended by a line feed (the feed and a carriage
/// return before it removed), then the rest of `s` unless it is empty.
pub open spec fn lines(s: Seq<char>) -> Seq<Seq<char>> {
    lines_from(s, seq![])
}

/// The views of a sequence of string slices.
pub open spec fn views<'a>(v: Seq<&'a str>) -> Seq<Seq<char>> {
    v.map_values(|x: &'a str| x@)
}

/// The lines of `s`.
///
/// Calls `str::lines`; the contract claims that it splits at line feeds,
/// drops a carriage return that precedes a line feed, and does not return a
/// final empty line.
#[verifier::external_body]
pub(crate) fn str_lines(s: &str) -> (r: Vec<&str>)
    ensures
        views(r@) == lines(s@),
{
    s.lines().collect()
}

/// The words of `s`.
///
/// Calls `str::split_whitespace`; the contract claims that it returns the
/// maximal runs of characters without the Unicode `White_Space` property.
#[verifier::external_body]
pub(crate) fn str_split_whitespace(s: &str) -> (r: Vec<&str>)
    ensures
        views(r@) == words(s@),
{
    s.split_whitespace().collect()
}

/// The pieces of `s` between occurrences of `sep`.
///
/// Calls `str::split` with a `char` pattern; the contract claims that it
/// returns every piece, empty ones included.
#[verifier::external_body]
pub(crate) fn str_split_char(s: &str, sep: char) -> (r: Vec<&str>)
    ensures
        views(r@) == split_on(s@, sep),
{
    s.split(sep).collect()
}

/// Whether two string slices hold the same characters.
///
/// Calls `<str as PartialEq>::eq`; the contract claims that it compares the
/// characters.
#[verifier::external_body]
pub(crate) fn str_eq(a: &str, b: &str) -> (r: bool)
    ensures
        r == (a@ == b@),
{
    a == b
}

/// Appends `c` to `s`.
///
/// Calls `String::push`; the contract claims that it appends one character.
#[verifier::external_body]
pub(crate) fn string_push(s: &mut String, c: char)
    ensures
        final(s)@ == old(s)@.push(c),
{
    s.push(c)
}

/// Empties `s`.
///
/// Calls `String::clear`; the contract claims that the string is then empty.
#[verifier::external_body]
pub(crate) fn string_clear(s: &mut String)
    ensures
        final(s)@ == Seq::<char>::empty(),
{
    String::clear(s)
}

/// The string slice that the bytes `v` encode, if they are UTF-8.
///
/// Calls `std::str::from_utf8`; the contract claims that it succeeds exactly
/// on valid UTF-8 and then decodes it.
#[verifier::external_body]
pub(crate) fn str_from_utf8(v: &[u8]) -> (r: Option<&str>)
    ensures
        r is Some <==> valid_utf8(v@),
        r matches Some(s) ==> s@ == decode_utf8(v@),
{
    std::str::from_utf8(v).ok()
}

/// The string that the bytes `v` encode, if they are UTF-8.
///
/// Calls `String::from_utf8`; the contract claims that it succeeds exactly on
/// valid UTF-8 and then decodes it.
#[verifier::external_body]
pub(crate) fn string_from_utf8(v: Vec<u8>) -> (r: Option<String>)
    ensures
        r is Some <==> valid_utf8(v@),
        r matches Some(s) ==> s@ == decode_utf8(v@),
{
    String::from_utf8(v).ok()
}

} // verus!

verus! {

/// The characters of `s`, in order.
///
/// Calls `str::chars`; the contract claims that it yields the characters that
/// `s` encodes.
#[verifier::external_body]
pub(crate) fn str_chars(s: &str) -> (r: Vec<char>)
    ensures
        r@ == s@,
{
    s.chars().collect()
}

/// The number of occurrences of `x` in `s`.
pub open spec fn count_of<T>(s: Seq<T>, x: T) -> nat
    decreases s.len(),
{
    if s.len() == 0 {
        0
    } else {
        count_of(s.drop_first(), x) + if s[0] == x {
            1nat
        } else {
            0nat
        }
    }
}

proof fn lemma_split_from_len<T>(s: Seq<T>, sep: T, cur: Seq<T>)
    ensures
        split_from(s, sep, cur).len() == count_of(s, sep) + 1,
    decreases s.len(),
{
    if s.len() > 0 {
        if s[0] == sep {
            lemma_split_from_len(s.drop_first(), sep, seq![]);
        } else {
            lemma_split_from_len(s.drop_first(), sep, cur.push(s[0]));
        }
    }
}

/// Splitting gives one more piece than there are separators.
pub proof fn law_split_pieces<T>(s: Seq<T>, sep: T)
    ensures
        split_on(s, sep).len() == count_of(s, sep) + 1,
{
    lemma_split_from_len(s, sep, seq![]);
}

} // verus!
