use vstd::prelude::*;
use vstd::utf8::valid_utf8;

use crate::parse::{
    Any,
    Either,
    List,
    Parser,
    Token,
};
use crate::text::{
    str_chars,
    str_from_utf8,
};
use crate::token::{
    exact,
    Exact,
    Prop,
};

use super::source_char::SourceChar;
use super::XrError;

verus! {

/// Whether `c` has the Unicode `Alphabetic` property, as `char::is_alphabetic`
/// tells.
pub uninterp spec fn char_alphabetic(c: char) -> bool;

/// Whether `c` is alphabetic or numeric, as `char::is_alphanumeric` tells.
pub uninterp spec fn char_alphanumeric(c: char) -> bool;

/// Calls `char::is_alphabetic`; the contract names its result.
#[verifier::external_body]
fn is_alphabetic(c: char) -> (r: bool)
    ensures
        r == char_alphabetic(c),
{
    c.is_alphabetic()
}

/// Calls `char::is_alphanumeric`; the contract names its result.
#[verifier::external_body]
fn is_alphanumeric(c: char) -> (r: bool)
    ensures
        r == char_alphanumeric(c),
{
    c.is_alphanumeric()
}

/// The characters of an identifier: alphabetic at its start, alphanumeric
/// anywhere.
pub struct Ident;

impl Prop<SourceChar> for Ident {
    open spec fn prop_wf(&self) -> bool {
        true
    }

    open spec fn holds(&self, i: usize, t: SourceChar) -> bool {
        (i == 0 && char_alphabetic(t.0)) || char_alphanumeric(t.0)
    }

    fn check(&self, i: usize, t: &SourceChar) -> (r: bool) {
        (i == 0 && is_alphabetic(t.0)) || is_alphanumeric(t.0)
    }
}

/// The marker line that Ruby files may start with.
pub const FROZEN: &'static str = "# frozen_string_literal: true";

/// A line feed.
pub type Nl = Token<Exact<'static, char>>;

/// The frozen-string-literal marker.
pub type Fsl = Token<Exact<'static, str>>;

/// What a statement line may hold: the marker.
pub type StmtInner = Either<(Fsl,)>;

/// A statement line that holds something.
pub type StmtExpr = List<(StmtInner, (Nl,))>;

/// An empty line.
pub type StmtEmpty = List<(Nl,)>;

/// A statement: a line that holds something, or an empty one.
pub type Stmt = Either<(StmtExpr, (StmtEmpty,))>;

/// The token of a line feed.
pub fn nl<'s>() -> (r: Nl)
    ensures
        *r.0.0 == '\n',
        <Nl as Parser<'s, [SourceChar]>>::parser_wf(&r),
{
    Token(exact::<[SourceChar], char>(&'\n'))
}

/// The token of the frozen-string-literal marker.
pub fn fsl<'s>() -> (r: Fsl)
    ensures
        r.0.0@ == FROZEN@,
        <Fsl as Parser<'s, [SourceChar]>>::parser_wf(&r),
{
    proof {
        reveal_strlit("# frozen_string_literal: true");
        assert(vstd::string::is_ascii(FROZEN));
    }
    Token(exact::<[SourceChar], str>(FROZEN))
}

/// The parser of what a statement line may hold.
pub fn stmt_inner<'s>() -> (r: StmtInner)
    ensures
        r.0.0.0.0@ == FROZEN@,
        <StmtInner as Parser<'s, [SourceChar]>>::parser_wf(&r),
{
    Either((fsl(),))
}

/// The parser of a statement line that holds something.
pub fn stmt_expr<'s>() -> (r: StmtExpr)
    ensures
        r.0.0.0.0.0.0@ == FROZEN@,
        *r.0.1.0.0.0 == '\n',
        <StmtExpr as Parser<'s, [SourceChar]>>::parser_wf(&r),
{
    List((stmt_inner(), (nl(),)))
}

/// The parser of an empty line.
pub fn stmt_empty<'s>() -> (r: StmtEmpty)
    ensures
        *r.0.0.0.0 == '\n',
        <StmtEmpty as Parser<'s, [SourceChar]>>::parser_wf(&r),
{
    List((nl(),))
}

/// The parser of a statement.
pub fn stmt<'s>() -> (r: Stmt)
    ensures
        r.0.0.0.0.0.0.0.0@ == FROZEN@,
        *r.0.0.0.1.0.0.0 == '\n',
        *r.0.1.0.0.0.0.0 == '\n',
        <Stmt as Parser<'s, [SourceChar]>>::parser_wf(&r),
{
    Either((stmt_expr(), (stmt_empty(),)))
}

/// The parser of a Ruby program as far as it is understood: two statements,
/// an identifier and any number of spaces.
pub type Program<'p> = List<
    (&'p Stmt, (&'p Stmt, (&'p Token<Ident>, (&'p Any<Token<Exact<'static, str>>>,)))),
>;

/// The program parser made of its parts.
pub fn program<'p>(
    stmt: &'p Stmt,
    id: &'p Token<Ident>,
    spaces: &'p Any<Token<Exact<'static, str>>>,
) -> (r: Program<'p>)
    ensures
        r == List((stmt, (stmt, (id, (spaces,))))),
{
    List((stmt, (stmt, (id, (spaces,)))))
}

/// The characters of a source, each as a `SourceChar`.
pub fn source_chars(s: &str) -> (r: Vec<SourceChar>)
    ensures
        r@.len() == s@.len(),
        forall|i: int| 0 <= i < s@.len() ==> #[trigger] r@[i].0 == s@[i],
{
    let cs = str_chars(s);
    let mut out: Vec<SourceChar> = Vec::new();
    let mut i: usize = 0;
    while i < cs.len()
        invariant
            cs@ == s@,
            0 <= i <= cs@.len(),
            out@.len() == i,
            forall|j: int| 0 <= j < i ==> #[trigger] out@[j].0 == s@[j],
        decreases cs@.len() - i,
    {
        let c = SourceChar(cs[i]);
        let ghost before = out@;
        out.push(c);
        proof {
            vstd::seq::axiom_seq_push_len(before, c);
            vstd::seq::axiom_seq_push_index_same(before, c, i as int);
            assert forall|j: int| 0 <= j < i implies #[trigger] out@[j] == before[j] by {
                vstd::seq::axiom_seq_push_index_different(before, c, j);
            }
        }
        i = i + 1;
    }
    out
}

/// An engine that loads Ruby files.
pub trait RubyEngine {
    /// Loads the file at `path` whose bytes are `content`, UTF-8 text.
    fn load_as_file(&mut self, path: &str, content: &[u8]) -> (r: Result<(), XrError>)
        requires
            valid_utf8(content@),
    ;
}

/// A new engine.
pub fn new() -> (r: ())
    ensures
        r == (),
{
}

impl RubyEngine for () {
    /// Parses the file as a program and reports that loading is not done:
    /// every file gives `Undone`.
    fn load_as_file(&mut self, path: &str, content: &[u8]) -> (r: Result<(), XrError>)
        ensures
            r == Err::<(), XrError>(XrError::Undone),
    {
        let id = Token(Ident);
        let stmt = stmt();
        proof {
            reveal_strlit(" ");
            assert(vstd::string::is_ascii(" "));
        }
        let spaces = Any(Token(exact::<[SourceChar], str>(" ")));
        let rb_program = program(&stmt, &id, &spaces);
        let text = match str_from_utf8(content) {
            Some(t) => t,
            None => {
                return Err(XrError::Undone);
            },
        };
        let chars = source_chars(text);
        let _n = chars.len();
        assert(<Program as Parser<'_, [SourceChar]>>::parser_wf(&rb_program));
        let _parsed = rb_program.parse(chars.as_slice());
        Err(XrError::Undone)
    }
}

} // verus!
