use vstd::prelude::*;

use super::Parser;
use crate::token::{
    Slicy,
    Spanned,
};

/// The outcome of a choice between two alternatives, and its variants.
pub mod either;

verus! {

/// One of two alternatives: the first (`A`) or the second (`B`).
#[derive(Debug, Clone, PartialEq, Eq)]
pub enum Disj<L, R> {
    A(L),
    B(R),
}

/// The parser of a choice: the first alternative that parses the input.
pub struct Either<L>(pub L);

/// A tuple of parsers, `(H,)` or `(H, T)`, tried in order.
pub trait Alternatives<'s, S: Slicy + ?Sized> {
    type Output: Spanned;

    type Model;

    spec fn alt_wf(&self) -> bool;

    spec fn model(o: Self::Output) -> Self::Model;

    spec fn spec_alt(&self, inp: Seq<S::Item>) -> Option<(nat, Self::Model)>;

    proof fn lemma_alt_len(&self, inp: Seq<S::Item>)
        ensures
            self.spec_alt(inp) matches Some((n, _)) ==> 1 <= n <= inp.len(),
    ;

    fn parse_alt(&self, inp: &'s S) -> (r: Option<Self::Output>)
        requires
            self.alt_wf(),
            inp.slicy_wf(),
            inp.divisible(),
        ensures
            match r {
                Some(o) => {
                    &&& o.span_ok()
                    &&& o.spec_span().0 == 0 <= o.spec_span().1
                    &&& self.spec_alt(inp.items()) == Some((o.spec_span().1 as nat, Self::model(o)))
                },
                None => self.spec_alt(inp.items()) is None,
            },
    ;
}

impl<'s, S, H> Alternatives<'s, S> for (H,) where H: Parser<'s, S>, S: Slicy + ?Sized {
    type Output = H::Output;

    type Model = H::Model;

    open spec fn alt_wf(&self) -> bool {
        self.0.parser_wf()
    }

    open spec fn model(o: Self::Output) -> Self::Model {
        H::model(o)
    }

    open spec fn spec_alt(&self, inp: Seq<S::Item>) -> Option<(nat, Self::Model)> {
        self.0.spec_parse(inp)
    }

    proof fn lemma_alt_len(&self, inp: Seq<S::Item>) {
        self.0.lemma_parse_len(inp);
    }

    fn parse_alt(&self, inp: &'s S) -> (r: Option<Self::Output>) {
        let (head,) = self;
        proof {
            head.lemma_input_ok(inp);
        }
        head.parse(inp)
    }
}

impl<'s, S, H, T> Alternatives<'s, S> for (H, T) where
    H: Parser<'s, S>,
    T: Alternatives<'s, S>,
    S: Slicy + ?Sized,
 {
    type Output = Disj<H::Output, T::Output>;

    type Model = Disj<H::Model, T::Model>;

    open spec fn alt_wf(&self) -> bool {
        self.0.parser_wf() && self.1.alt_wf()
    }

    open spec fn model(o: Self::Output) -> Self::Model {
        match o {
            Disj::A(a) => Disj::A(H::model(a)),
            Disj::B(b) => Disj::B(T::model(b)),
        }
    }

    open spec fn spec_alt(&self, inp: Seq<S::Item>) -> Option<(nat, Self::Model)> {
        match self.0.spec_parse(inp) {
            Some((n, m)) => Some((n, Disj::A(m))),
            None => match self.1.spec_alt(inp) {
                Some((n, m)) => Some((n, Disj::B(m))),
                None => None,
            },
        }
    }

    proof fn lemma_alt_len(&self, inp: Seq<S::Item>) {
        self.0.lemma_parse_len(inp);
        self.1.lemma_alt_len(inp);
    }

    fn parse_alt(&self, inp: &'s S) -> (r: Option<Self::Output>) {
        let (head, tail) = self;
        proof {
            head.lemma_input_ok(inp);
        }
        match head.parse(inp) {
            Some(a) => Some(Disj::A(a)),
            None => match tail.parse_alt(inp) {
                Some(b) => Some(Disj::B(b)),
                None => None,
            },
        }
    }
}

impl<'s, 'p, S, L> Alternatives<'s, S> for &'p L where L: Alternatives<'s, S>, S: Slicy + ?Sized {
    type Output = L::Output;

    type Model = L::Model;

    open spec fn alt_wf(&self) -> bool {
        (**self).alt_wf()
    }

    open spec fn model(o: Self::Output) -> Self::Model {
        L::model(o)
    }

    open spec fn spec_alt(&self, inp: Seq<S::Item>) -> Option<(nat, Self::Model)> {
        (**self).spec_alt(inp)
    }

    proof fn lemma_alt_len(&self, inp: Seq<S::Item>) {
        (**self).lemma_alt_len(inp);
    }

    fn parse_alt(&self, inp: &'s S) -> (r: Option<Self::Output>) {
        L::parse_alt(*self, inp)
    }
}

impl<'s, S, L> Parser<'s, S> for Either<L> where L: Alternatives<'s, S>, S: Slicy + ?Sized {
    type Output = L::Output;

    type Model = L::Model;

    open spec fn parser_wf(&self) -> bool {
        self.0.alt_wf()
    }

    /// The input can be cut anywhere.
    open spec fn input_ok(&self, inp: &S) -> bool {
        inp.divisible()
    }

    proof fn lemma_input_ok(&self, inp: &S) {
    }

    open spec fn model(o: Self::Output) -> Self::Model {
        L::model(o)
    }

    open spec fn spec_parse(&self, inp: Seq<S::Item>) -> Option<(nat, Self::Model)> {
        self.0.spec_alt(inp)
    }

    proof fn lemma_parse_len(&self, inp: Seq<S::Item>) {
        self.0.lemma_alt_len(inp);
    }

    fn parse(&self, inp: &'s S) -> (r: Option<Self::Output>) {
        let Self(alternatives) = self;
        alternatives.parse_alt(inp)
    }
}

} // verus!
