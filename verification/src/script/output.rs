use vstd::prelude::*;
use vstd::utf8::{
    decode_utf8,
    valid_utf8,
};

use super::ast::Type;
use super::value::{
    values_view,
    Value,
    ValueView,
};
use crate::text::{
    split_from,
    split_on,
    str_from_utf8,
    string_from_utf8,
};

verus! {

/// The ways the output of a command fails to be read.
#[derive(Debug, PartialEq, Eq)]
pub enum OutputError {
    /// A line of `VBoxVms` output has no `{`.
    MissingOpenBrace,
    /// A line of `VBoxVms` output has no `}`.
    MissingCloseBrace,
    /// The text is not UTF-8.
    NotUtf8,
    /// Streamed output is not read.
    Todo,
}

/// The position of the first `b` in `s`.
pub open spec fn first_index(s: Seq<u8>, b: u8) -> Option<int>
    decreases s.len(),
{
    if s.len() == 0 {
        None
    } else if s[0] == b {
        Some(0)
    } else {
        match first_index(s.drop_first(), b) {
            Some(i) => Some(i + 1),
            None => None,
        }
    }
}

/// The id of a line of `VBoxVms` output: the text from after its first `{` to
/// before its first `}`.
pub open spec fn vbox_id(line: Seq<u8>) -> Result<ValueView, OutputError> {
    match first_index(line, 123) {
        None => Err(OutputError::MissingOpenBrace),
        Some(open) => match first_index(line, 125) {
            None => Err(OutputError::MissingCloseBrace),
            Some(close) => {
                let id = line.subrange(open + 1, close);
                if valid_utf8(id) {
                    Ok(ValueView::Str(decode_utf8(id)))
                } else {
                    Err(OutputError::NotUtf8)
                }
            },
        },
    }
}

/// The first `}` of a line that has both braces does not come before its
/// first `{`.
pub open spec fn vbox_line_ok(line: Seq<u8>) -> bool {
    match (first_index(line, 123), first_index(line, 125)) {
        (Some(open), Some(close)) => open + 1 <= close,
        _ => true,
    }
}

/// The ids of the non-empty lines, up to the first that fails.
pub open spec fn vbox_ids(lines: Seq<Seq<u8>>) -> Result<Seq<ValueView>, OutputError>
    decreases lines.len(),
{
    if lines.len() == 0 {
        Ok(seq![])
    } else if lines[0].len() == 0 {
        vbox_ids(lines.drop_first())
    } else {
        match vbox_id(lines[0]) {
            Err(e) => Err(e),
            Ok(id) => match vbox_ids(lines.drop_first()) {
                Err(e) => Err(e),
                Ok(ids) => Ok(seq![id] + ids),
            },
        }
    }
}

/// Every line read, up to and including the first that fails, has its braces
/// in order.
pub open spec fn vbox_lines_ok(lines: Seq<Seq<u8>>) -> bool
    decreases lines.len(),
{
    if lines.len() == 0 {
        true
    } else if lines[0].len() == 0 {
        vbox_lines_ok(lines.drop_first())
    } else {
        &&& vbox_line_ok(lines[0])
        &&& (vbox_id(lines[0]) is Ok ==> vbox_lines_ok(lines.drop_first()))
    }
}

/// The value that the output `stdout` of a command gives, read as `typ`.
pub open spec fn parsed_output(stdout: Seq<u8>, typ: Type) -> Result<ValueView, OutputError> {
    match typ {
        Type::VBoxVms => match vbox_ids(split_on(stdout, 10u8)) {
            Ok(ids) => Ok(ValueView::List(ids)),
            Err(e) => Err(e),
        },
        Type::Null => Ok(ValueView::Empty),
        Type::String => if valid_utf8(stdout) {
            Ok(ValueView::Str(decode_utf8(stdout)))
        } else {
            Err(OutputError::NotUtf8)
        },
        Type::Display => Ok(ValueView::Empty),
        Type::Stream => Err(OutputError::Todo),
    }
}

/// The output can be read as `typ` without a panic.
pub open spec fn output_ok(stdout: Seq<u8>, typ: Type) -> bool {
    typ is VBoxVms ==> vbox_lines_ok(split_on(stdout, 10u8))
}

/// The pieces of `s` between the occurrences of `sep`.
pub fn split_bytes(s: &[u8], sep: u8) -> (r: Vec<Vec<u8>>)
    ensures
        r@.map_values(|v: Vec<u8>| v@) == split_on(s@, sep),
{
    let mut out: Vec<Vec<u8>> = Vec::new();
    let mut cur: Vec<u8> = Vec::new();
    let mut i: usize = 0;
    assert(s@.skip(0) =~= s@);
    while i < s.len()
        invariant
            0 <= i <= s@.len(),
            split_on(s@, sep) == out@.map_values(|v: Vec<u8>| v@) + split_from(
                s@.skip(i as int),
                sep,
                cur@,
            ),
        decreases s@.len() - i,
    {
        let ghost rest = s@.skip(i as int);
        let ghost old_out = out@;
        assert(rest.drop_first() =~= s@.skip(i + 1));
        if s[i] == sep {
            let piece = cur;
            cur = Vec::new();
            out.push(piece);
            proof {
                assert(out@.map_values(|v: Vec<u8>| v@) =~= old_out.map_values(|v: Vec<u8>| v@)
                    + seq![piece@]);
                assert(cur@ =~= Seq::<u8>::empty());
            }
        } else {
            cur.push(s[i]);
        }
        i = i + 1;
    }
    proof {
        assert(s@.skip(i as int) =~= Seq::<u8>::empty());
    }
    let ghost old_out = out@;
    out.push(cur);
    proof {
        assert(out@.map_values(|v: Vec<u8>| v@) =~= old_out.map_values(|v: Vec<u8>| v@) + seq![cur@]);
    }
    out
}

/// The position of the first `b` in `s`.
fn find_byte(s: &[u8], b: u8) -> (r: Option<usize>)
    ensures
        match r {
            Some(i) => first_index(s@, b) == Some(i as int),
            None => first_index(s@, b) is None,
        },
{
    let mut i: usize = 0;
    assert(s@.skip(0) =~= s@);
    while i < s.len()
        invariant
            0 <= i <= s@.len(),
            first_index(s@, b) == match first_index(s@.skip(i as int), b) {
                Some(j) => Some(j + i),
                None => None,
            },
        decreases s@.len() - i,
    {
        proof {
            assert(s@.skip(i as int).drop_first() =~= s@.skip(i + 1));
        }
        if s[i] == b {
            return Some(i);
        }
        i = i + 1;
    }
    None
}

proof fn lemma_first_index_bound(s: Seq<u8>, b: u8)
    ensures
        first_index(s, b) matches Some(i) ==> 0 <= i < s.len() && s[i] == b,
    decreases s.len(),
{
    if s.len() > 0 && s[0] != b {
        lemma_first_index_bound(s.drop_first(), b);
    }
}

/// The id of one non-empty line of `VBoxVms` output.
fn vbox_line_id(line: &[u8]) -> (r: Result<Value, OutputError>)
    requires
        vbox_line_ok(line@),
    ensures
        match r {
            Ok(v) => vbox_id(line@) == Ok::<ValueView, OutputError>(v@),
            Err(e) => vbox_id(line@) == Err::<ValueView, OutputError>(e),
        },
{
    proof {
        lemma_first_index_bound(line@, 123);
        lemma_first_index_bound(line@, 125);
    }
    let n = line.len();
    let start = match find_byte(line, 123) {
        Some(p) => p + 1,
        None => return Err(OutputError::MissingOpenBrace),
    };
    let end = match find_byte(line, 125) {
        Some(p) => p,
        None => return Err(OutputError::MissingCloseBrace),
    };
    let id = &line[start..end];
    match str_from_utf8(id) {
        Some(id) => Ok(Value::Str(id.to_owned())),
        None => Err(OutputError::NotUtf8),
    }
}

/// The value that the output `stdout` of a command gives, read as `typ`:
/// for `VBoxVms`, the list of the ids of its non-empty lines; for `String`,
/// the text; nothing for `Null` and `Display`; streamed output is refused.
pub fn parse(stdout: Vec<u8>, typ: &Type) -> (r: Result<Value, OutputError>)
    requires
        output_ok(stdout@, *typ),
    ensures
        match r {
            Ok(v) => parsed_output(stdout@, *typ) == Ok::<ValueView, OutputError>(v@),
            Err(e) => parsed_output(stdout@, *typ) == Err::<ValueView, OutputError>(e),
        },
{
    match typ {
        Type::VBoxVms => {
            let lines = split_bytes(stdout.as_slice(), 10);
            let ghost ls = lines@.map_values(|v: Vec<u8>| v@);
            let mut ids: Vec<Value> = Vec::new();
            let mut i: usize = 0;
            assert(ls.skip(0) =~= ls);
            while i < lines.len()
                invariant
                    0 <= i <= lines@.len(),
                    ls == lines@.map_values(|v: Vec<u8>| v@),
                    ls == split_on(stdout@, 10u8),
                    *typ is VBoxVms,
                    vbox_lines_ok(ls.skip(i as int)),
                    vbox_ids(ls) == match vbox_ids(ls.skip(i as int)) {
                        Ok(rest) => Ok(values_view(ids@) + rest),
                        Err(e) => Err::<Seq<ValueView>, OutputError>(e),
                    },
                decreases lines@.len() - i,
            {
                let ghost rest = ls.skip(i as int);
                assert(rest.drop_first() =~= ls.skip(i + 1));
                assert(rest[0] == lines@[i as int]@);
                if lines[i].len() > 0 {
                    match vbox_line_id(lines[i].as_slice()) {
                        Ok(v) => {
                            let ghost old_ids = ids@;
                            ids.push(v);
                            proof {
                                super::value::lemma_values_view_push(old_ids, v);
                                match vbox_ids(rest.drop_first()) {
                                    Ok(more) => {
                                        assert(vbox_ids(rest) == Ok::<Seq<ValueView>, OutputError>(
                                            seq![v@] + more));
                                        assert(values_view(old_ids) + (seq![v@] + more)
                                            =~= values_view(ids@) + more);
                                    },
                                    Err(e) => {
                                    },
                                }
                            }
                        },
                        Err(e) => {
                            assert(vbox_ids(rest) == Err::<Seq<ValueView>, OutputError>(e));
                            return Err(e);
                        },
                    }
                } else {
                    assert(vbox_ids(rest) == vbox_ids(rest.drop_first()));
                }
                i = i + 1;
            }
            proof {
                assert(ls.skip(i as int) =~= Seq::<Seq<u8>>::empty());
                assert(values_view(ids@) + Seq::<ValueView>::empty() =~= values_view(ids@));
            }
            Ok(Value::List(ids))
        },
        Type::Null => Ok(Value::Empty),
        Type::String => match string_from_utf8(stdout) {
            Some(s) => Ok(Value::Str(s)),
            None => Err(OutputError::NotUtf8),
        },
        Type::Display => Ok(Value::Empty),
        Type::Stream => Err(OutputError::Todo),
    }
}

/// Whether `line` has its first `}` after its first `{`, where it has both.
fn line_ok(line: &[u8]) -> (r: bool)
    ensures
        r == vbox_line_ok(line@),
{
    match (find_byte(line, 123), find_byte(line, 125)) {
        (Some(open), Some(close)) => open < close,
        _ => true,
    }
}

/// Whether the output `stdout` can be read as `typ` without a panic.
pub fn output_readable(stdout: &[u8], typ: &Type) -> (r: bool)
    ensures
        r == output_ok(stdout@, *typ),
{
    match typ {
        Type::VBoxVms => {
            let lines = split_bytes(stdout, 10);
            let ghost ls = lines@.map_values(|v: Vec<u8>| v@);
            let mut i: usize = 0;
            assert(ls.skip(0) =~= ls);
            while i < lines.len()
                invariant
                    0 <= i <= lines@.len(),
                    ls == lines@.map_values(|v: Vec<u8>| v@),
                    ls == split_on(stdout@, 10u8),
                    *typ is VBoxVms,
                    vbox_lines_ok(ls) == vbox_lines_ok(ls.skip(i as int)),
                decreases lines@.len() - i,
            {
                let ghost rest = ls.skip(i as int);
                assert(rest.drop_first() =~= ls.skip(i + 1));
                assert(rest[0] == lines@[i as int]@);
                let line = lines[i].as_slice();
                if line.len() > 0 {
                    if !line_ok(line) {
                        return false;
                    }
                    if vbox_line_id(line).is_err() {
                        return true;
                    }
                }
                i = i + 1;
            }
            assert(ls.skip(i as int) =~= Seq::<Seq<u8>>::empty());
            true
        },
        _ => true,
    }
}

} // verus!
