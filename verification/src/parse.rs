use vstd::prelude::*;

pub use self::{
    any::{
        law_any_covers_first,
        law_any_greedy,
        Any,
    },
    either::Either,
    list::List,
    token::{
        law_token_longest,
        Token,
    },
};

mod any;
pub mod either;
mod list;
mod token;

use crate::token::{
    Slicy,
    Spanned,
};

verus! {

/// The output of parser `T` on sources of type `S`.
pub type ParseOut<'s, S, T> = <T as Parser<'s, S>>::Output;

/// A parser: it recognizes a non-empty prefix of its input, or fails.
///
/// `spec_parse` gives, for a sequence of items, the length of the prefix the
/// parser recognizes and the model of what it outputs; `parse` computes an
/// output whose span covers exactly that prefix.
pub trait Parser<'s, S: Slicy + ?Sized> {
    type Output: Spanned;

    /// What the contracts say of an output.
    type Model;

    /// The conditions under which `parse` follows `spec_parse`.
    spec fn parser_wf(&self) -> bool;

    /// The inputs that `parse` can cut where it needs to.
    spec fn input_ok(&self, inp: &S) -> bool;

    /// An input that can be cut anywhere suits the parser.
    proof fn lemma_input_ok(&self, inp: &S)
        requires
            inp.slicy_wf(),
            inp.divisible(),
        ensures
            self.input_ok(inp),
    ;

    spec fn model(o: Self::Output) -> Self::Model;

    spec fn spec_parse(&self, inp: Seq<S::Item>) -> Option<(nat, Self::Model)>;

    proof fn lemma_parse_len(&self, inp: Seq<S::Item>)
        ensures
            self.spec_parse(inp) matches Some((n, _)) ==> 1 <= n <= inp.len(),
    ;

    fn parse(&self, inp: &'s S) -> (r: Option<Self::Output>)
        requires
            self.parser_wf(),
            inp.slicy_wf(),
            self.input_ok(inp),
        ensures
            match r {
                Some(o) => {
                    &&& o.span_ok()
                    &&& o.spec_span().0 == 0 <= o.spec_span().1
                    &&& self.spec_parse(inp.items()) == Some(
                        (o.spec_span().1 as nat, Self::model(o)),
                    )
                },
                None => self.spec_parse(inp.items()) is None,
            },
    ;
}

/// A value that parses itself: a parser whose output is of its own type.
pub trait Parse<'s, S: Slicy + ?Sized>: Parser<'s, S, Output = Self> + Sized + Spanned {

}

/// A value that parses itself from sources borrowed for any lifetime.
pub trait ParseOwned<S: Slicy + ?Sized>: for <'r>Parse<'r, S> {

}

impl<'s, A, S: Slicy + ?Sized> Parse<'s, S> for A where
    Self: Parser<'s, S, Output = Self> + Sized + Spanned,
 {

}

impl<A, S: Slicy + ?Sized> ParseOwned<S> for A where Self: for <'r>Parse<'r, S> {

}

impl<'a, 's, A, S> Parser<'s, S> for &'a A where A: Parser<'s, S>, S: Slicy + ?Sized {
    type Output = ParseOut<'s, S, A>;

    type Model = A::Model;

    open spec fn parser_wf(&self) -> bool {
        (**self).parser_wf()
    }

    open spec fn input_ok(&self, inp: &S) -> bool {
        (**self).input_ok(inp)
    }

    proof fn lemma_input_ok(&self, inp: &S) {
        (**self).lemma_input_ok(inp);
    }

    open spec fn model(o: Self::Output) -> Self::Model {
        A::model(o)
    }

    open spec fn spec_parse(&self, inp: Seq<S::Item>) -> Option<(nat, Self::Model)> {
        (**self).spec_parse(inp)
    }

    proof fn lemma_parse_len(&self, inp: Seq<S::Item>) {
        (**self).lemma_parse_len(inp);
    }

    fn parse(&self, inp: &'s S) -> (r: Option<Self::Output>) {
        A::parse(*self, inp)
    }
}

} // verus!
