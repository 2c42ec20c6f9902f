use vstd::prelude::*;
use vstd::string::StringSliceAdditionalSpecFns;

use super::error::XcError;
use super::mode::{
    spec_to,
    to,
};
use crate::script::json::decimal;
use crate::text::{
    count_of,
    law_split_pieces,
    lines,
    lines_from,
    split_from,
    split_on,
    strip_cr,
    str_eq,
    str_lines,
    string_push,
    views,
};

verus! {

/// The numbers of `s`, in decimal, each after `sep` but the first.
pub open spec fn numbers_list(s: Seq<u8>) -> Seq<char>
    decreases s.len(),
{
    if s.len() == 0 {
        seq![]
    } else if s.len() == 1 {
        decimal(s[0] as nat)
    } else {
        numbers_list(s.drop_last()) + ", "@ + decimal(s.last() as nat)
    }
}

/// The lines of `l`, each after a NUL character but the first.
pub open spec fn nul_joined(l: Seq<Seq<char>>) -> Seq<char>
    decreases l.len(),
{
    if l.len() == 0 {
        seq![]
    } else if l.len() == 1 {
        l[0]
    } else {
        nul_joined(l.drop_last()) + seq!['\0'] + l.last()
    }
}

/// `s` holds no NUL character.
pub open spec fn no_nul(s: Seq<char>) -> bool {
    forall|i: int| 0 <= i < s.len() ==> s[i] != '\0'
}

proof fn lemma_split_no_sep(x: Seq<char>, cur: Seq<char>)
    requires
        no_nul(x),
    ensures
        split_from(x, '\0', cur) == seq![cur + x],
    decreases x.len(),
{
    if x.len() == 0 {
        assert(cur + x =~= cur);
    } else {
        lemma_split_no_sep(x.drop_first(), cur.push(x[0]));
        assert(cur.push(x[0]) + x.drop_first() =~= cur + x);
    }
}

proof fn lemma_split_last_piece(p: Seq<char>, z: Seq<char>, cur: Seq<char>)
    requires
        no_nul(z),
    ensures
        split_from(p + seq!['\0'] + z, '\0', cur) == split_from(p, '\0', cur) + seq![z],
    decreases p.len(),
{
    let x = p + seq!['\0'] + z;
    if p.len() == 0 {
        assert(x.drop_first() =~= z);
        lemma_split_no_sep(z, seq![]);
        assert(seq![] + z =~= z);
    } else {
        assert(x.drop_first() =~= p.drop_first() + seq!['\0'] + z);
        assert(x[0] == p[0]);
        if p[0] == '\0' {
            lemma_split_last_piece(p.drop_first(), z, seq![]);
            assert(seq![cur] + (split_from(p.drop_first(), '\0', seq![]) + seq![z]) =~= (seq![cur]
                + split_from(p.drop_first(), '\0', seq![])) + seq![z]);
        } else {
            lemma_split_last_piece(p.drop_first(), z, cur.push(p[0]));
        }
    }
}

/// Splitting lines joined by NUL at NUL gives them back, when there is at
/// least one and none holds a NUL: every line is kept, empty ones too.
pub proof fn law_nul_joined_splits_back(l: Seq<Seq<char>>)
    requires
        l.len() > 0,
        forall|j: int| 0 <= j < l.len() ==> no_nul(#[trigger] l[j]),
    ensures
        split_on(nul_joined(l), '\0') == l,
        count_of(nul_joined(l), '\0') + 1 == l.len(),
    decreases l.len(),
{
    if l.len() == 1 {
        assert(no_nul(l[0]));
        lemma_split_no_sep(l[0], seq![]);
        assert(seq![] + l[0] =~= l[0]);
        assert(seq![l[0]] =~= l);
    } else {
        let d = l.drop_last();
        assert forall|j: int| 0 <= j < d.len() implies no_nul(#[trigger] d[j]) by {
            assert(d[j] == l[j]);
        }
        law_nul_joined_splits_back(d);
        assert(no_nul(l[l.len() - 1]));
        lemma_split_last_piece(nul_joined(d), l.last(), seq![]);
        assert(d + seq![l.last()] =~= l);
    }
    law_split_pieces(nul_joined(l), '\0');
}

proof fn lemma_lines_no_nul(s: Seq<char>, cur: Seq<char>)
    requires
        no_nul(s),
        no_nul(cur),
    ensures
        forall|j: int| 0 <= j < lines_from(s, cur).len() ==> no_nul(#[trigger] lines_from(s, cur)[j]),
    decreases s.len(),
{
    assert(s.len() > 0 ==> no_nul(s.drop_first())) by {
        if s.len() > 0 {
            assert forall|i: int| 0 <= i < s.drop_first().len() implies s.drop_first()[i] != '\0' by {
                assert(s.drop_first()[i] == s[i + 1]);
            }
        }
    }
    if s.len() == 0 {
        assert forall|j: int| 0 <= j < lines_from(s, cur).len() implies no_nul(
            #[trigger] lines_from(s, cur)[j],
        ) by {
            assert(lines_from(s, cur)[j] == cur);
        }
    } else if s[0] == '\n' {
        lemma_lines_no_nul(s.drop_first(), seq![]);
        let r = lines_from(s.drop_first(), seq![]);
        assert(no_nul(strip_cr(cur))) by {
            assert forall|i: int| 0 <= i < strip_cr(cur).len() implies strip_cr(cur)[i] != '\0' by {
                assert(strip_cr(cur)[i] == cur[i]);
            }
        }
        assert(lines_from(s, cur) == seq![strip_cr(cur)] + r);
        assert forall|j: int| 0 <= j < lines_from(s, cur).len() implies no_nul(
            #[trigger] lines_from(s, cur)[j],
        ) by {
            if j > 0 {
                assert(lines_from(s, cur)[j] == r[j - 1]);
            }
        }
    } else {
        assert(no_nul(cur.push(s[0]))) by {
            assert forall|i: int| 0 <= i < cur.push(s[0]).len() implies cur.push(s[0])[i] != '\0' by {
                if i < cur.len() {
                    assert(cur.push(s[0])[i] == cur[i]);
                }
            }
        }
        lemma_lines_no_nul(s.drop_first(), cur.push(s[0]));
        assert(lines_from(s, cur) == lines_from(s.drop_first(), cur.push(s[0])));
    }
}

/// The `0` conversion writes every line of a buffer that holds no NUL, blank
/// ones too, with one NUL between each two: split at NUL, its output gives
/// back the lines, and it holds one NUL fewer than there are lines.
pub proof fn law_nul_separated_keeps_lines(buffer: &str)
    requires
        no_nul(buffer@),
        lines(buffer@).len() > 0,
    ensures
        spec_direct("0"@, buffer) matches Ok(out) && split_on(out, '\0') == lines(buffer@) && count_of(
            out,
            '\0',
        ) + 1 == lines(buffer@).len(),
{
    reveal_strlit("0");
    reveal_strlit("b");
    assert("0"@[0] != "b"@[0]);
    lemma_lines_no_nul(buffer@, seq![]);
    law_nul_joined_splits_back(lines(buffer@));
}

/// What the direct conversion to `to` writes of `buffer`: its bytes as a list
/// of numbers (`b`), or its lines separated by NUL characters (`0`).
pub open spec fn spec_direct(to: Seq<char>, buffer: &str) -> Result<Seq<char>, ()> {
    if to == "b"@ {
        Ok("["@ + numbers_list(buffer.spec_bytes()) + "]"@)
    } else if to == "0"@ {
        Ok(nul_joined(lines(buffer@)))
    } else {
        Err(())
    }
}

/// The decimal digit `d`.
fn digit(d: u8) -> (c: char)
    requires
        d < 10,
    ensures
        c == ('0' as int + d) as char,
{
    (48u8 + d) as char
}

/// The decimal digits of `b`, without leading zeros.
fn u8_decimal(b: u8) -> (r: String)
    ensures
        r@ == decimal(b as nat),
{
    let mut r = String::new();
    if b >= 100 {
        string_push(&mut r, digit(b / 100));
    }
    if b >= 10 {
        string_push(&mut r, digit((b / 10) % 10));
    }
    string_push(&mut r, digit(b % 10));
    proof {
        reveal_with_fuel(decimal, 3);
        if b >= 100 {
            assert(decimal((b / 10) as nat) == decimal((b / 100) as nat) + seq![('0' as int + (b / 10) % 10) as char]);
        }
    }
    r
}

/// The direct conversion of `buffer` to the output format of `mode`.
pub fn do_direct<'a>(mode: &'a str, buffer: &str) -> (r: Result<String, XcError<'a>>)
    ensures
        match r {
            Ok(out) => spec_direct(spec_to(mode@), buffer) == Ok::<Seq<char>, ()>(out@),
            Err(e) => {
                &&& spec_direct(spec_to(mode@), buffer) is Err
                &&& e matches XcError::UnknownDirect(t) && t@ == spec_to(mode@)
            },
        },
{
    let t = to(mode);
    if str_eq(t, "b") {
        let bytes = vstd::slice::slice_to_vec(buffer.as_bytes());
        let mut out = String::new();
        out.append("[");
        let mut i: usize = 0;
        proof {
            assert(bytes@.take(0) =~= Seq::<u8>::empty());
            assert(out@ =~= "["@ + numbers_list(bytes@.take(0)));
        }
        while i < bytes.len()
            invariant
                0 <= i <= bytes@.len(),
                out@ == "["@ + numbers_list(bytes@.take(i as int)),
            decreases bytes@.len() - i,
        {
            if i > 0 {
                out.append(", ");
            }
            let d = u8_decimal(bytes[i]);
            out.append(d.as_str());
            proof {
                let s = bytes@.take(i + 1);
                assert(s.drop_last() =~= bytes@.take(i as int));
                if i == 0 {
                    assert(bytes@.take(0) =~= Seq::<u8>::empty());
                }
            }
            i = i + 1;
        }
        out.append("]");
        proof {
            assert(bytes@.take(i as int) =~= bytes@);
        }
        Ok(out)
    } else if str_eq(t, "0") {
        let ls = str_lines(buffer);
        let mut out = String::new();
        let mut i: usize = 0;
        while i < ls.len()
            invariant
                0 <= i <= ls@.len(),
                views(ls@) == lines(buffer@),
                out@ == nul_joined(views(ls@).take(i as int)),
            decreases ls@.len() - i,
        {
            if i > 0 {
                string_push(&mut out, '\0');
            }
            out.append(ls[i]);
            proof {
                let s = views(ls@).take(i + 1);
                assert(s.drop_last() =~= views(ls@).take(i as int));
                if i == 0 {
                    assert(views(ls@).take(0) =~= Seq::<Seq<char>>::empty());
                    assert(out@ =~= s[0]);
                }
            }
            i = i + 1;
        }
        proof {
            assert(views(ls@).take(i as int) =~= views(ls@));
        }
        Ok(out)
    } else {
        Err(XcError::UnknownDirect(t))
    }
}

} // verus!
