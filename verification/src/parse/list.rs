use vstd::prelude::*;

use super::Parser;
use crate::token::{
    Slicy,
    Spanned,
};

verus! {

/// The parser of a sequence: each part parses what the previous left.
pub struct List<L>(pub L);

/// A tuple of parsers, `(H,)` or `(H, T)`, used in sequence.
pub trait Sequence<'s, S: Slicy + ?Sized> {
    type Output: Spanned;

    type Model;

    spec fn seq_wf(&self) -> bool;

    spec fn model(o: Self::Output) -> Self::Model;

    spec fn spec_seq(&self, inp: Seq<S::Item>) -> Option<(nat, Self::Model)>;

    proof fn lemma_seq_len(&self, inp: Seq<S::Item>)
        ensures
            self.spec_seq(inp) matches Some((n, _)) ==> 1 <= n <= inp.len(),
    ;

    fn parse_seq(&self, inp: &'s S) -> (r: Option<Self::Output>)
        requires
            self.seq_wf(),
            inp.slicy_wf(),
            inp.divisible(),
        ensures
            match r {
                Some(o) => {
                    &&& o.span_ok()
                    &&& o.spec_span().0 == 0 <= o.spec_span().1
                    &&& self.spec_seq(inp.items()) == Some((o.spec_span().1 as nat, Self::model(o)))
                },
                None => self.spec_seq(inp.items()) is None,
            },
    ;
}

impl<'s, S, H> Sequence<'s, S> for (H,) where H: Parser<'s, S>, S: Slicy + ?Sized {
    type Output = (H::Output,);

    type Model = (H::Model,);

    open spec fn seq_wf(&self) -> bool {
        self.0.parser_wf()
    }

    open spec fn model(o: Self::Output) -> Self::Model {
        (H::model(o.0),)
    }

    open spec fn spec_seq(&self, inp: Seq<S::Item>) -> Option<(nat, Self::Model)> {
        match self.0.spec_parse(inp) {
            Some((n, m)) => Some((n, (m,))),
            None => None,
        }
    }

    proof fn lemma_seq_len(&self, inp: Seq<S::Item>) {
        self.0.lemma_parse_len(inp);
    }

    fn parse_seq(&self, inp: &'s S) -> (r: Option<Self::Output>) {
        let (head,) = self;
        proof {
            head.lemma_input_ok(inp);
        }
        match head.parse(inp) {
            Some(head) => Some((head,)),
            None => None,
        }
    }
}

impl<'s, S, H, T> Sequence<'s, S> for (H, T) where
    H: Parser<'s, S>,
    T: Sequence<'s, S>,
    S: Slicy + ?Sized,
 {
    type Output = (H::Output, T::Output);

    type Model = (H::Model, T::Model);

    open spec fn seq_wf(&self) -> bool {
        self.0.parser_wf() && self.1.seq_wf()
    }

    open spec fn model(o: Self::Output) -> Self::Model {
        (H::model(o.0), T::model(o.1))
    }

    open spec fn spec_seq(&self, inp: Seq<S::Item>) -> Option<(nat, Self::Model)> {
        match self.0.spec_parse(inp) {
            Some((n1, m1)) => match self.1.spec_seq(inp.skip(n1 as int)) {
                Some((n2, m2)) => Some((n1 + n2, (m1, m2))),
                None => None,
            },
            None => None,
        }
    }

    proof fn lemma_seq_len(&self, inp: Seq<S::Item>) {
        self.0.lemma_parse_len(inp);
        if let Some((n1, m1)) = self.0.spec_parse(inp) {
            self.1.lemma_seq_len(inp.skip(n1 as int));
        }
    }

    fn parse_seq(&self, inp: &'s S) -> (r: Option<Self::Output>) {
        let (head, tail) = self;
        proof {
            inp.lemma_slicy();
        }
        proof {
            head.lemma_input_ok(inp);
        }
        match head.parse(inp) {
            Some(head) => {
                proof {
                    self.0.lemma_parse_len(inp.items());
                }
                let tail_inp = head.span().descope(inp);
                proof {
                    tail_inp.lemma_slicy();
                }
                match tail.parse_seq(tail_inp) {
                    Some(tail) => {
                        proof {
                            self.1.lemma_seq_len(tail_inp.items());
                        }
                        Some((head, tail))
                    },
                    None => None,
                }
            },
            None => None,
        }
    }
}

impl<'s, 'p, S, L> Sequence<'s, S> for &'p L where L: Sequence<'s, S>, S: Slicy + ?Sized {
    type Output = L::Output;

    type Model = L::Model;

    open spec fn seq_wf(&self) -> bool {
        (**self).seq_wf()
    }

    open spec fn model(o: Self::Output) -> Self::Model {
        L::model(o)
    }

    open spec fn spec_seq(&self, inp: Seq<S::Item>) -> Option<(nat, Self::Model)> {
        (**self).spec_seq(inp)
    }

    proof fn lemma_seq_len(&self, inp: Seq<S::Item>) {
        (**self).lemma_seq_len(inp);
    }

    fn parse_seq(&self, inp: &'s S) -> (r: Option<Self::Output>) {
        L::parse_seq(*self, inp)
    }
}

impl<'s, S, L> Parser<'s, S> for List<L> where L: Sequence<'s, S>, S: Slicy + ?Sized {
    type Output = L::Output;

    type Model = L::Model;

    open spec fn parser_wf(&self) -> bool {
        self.0.seq_wf()
    }

    /// The input can be cut anywhere.
    open spec fn input_ok(&self, inp: &S) -> bool {
        inp.divisible()
    }

    proof fn lemma_input_ok(&self, inp: &S) {
    }

    open spec fn model(o: Self::Output) -> Self::Model {
        L::model(o)
    }

    open spec fn spec_parse(&self, inp: Seq<S::Item>) -> Option<(nat, Self::Model)> {
        self.0.spec_seq(inp)
    }

    proof fn lemma_parse_len(&self, inp: Seq<S::Item>) {
        self.0.lemma_seq_len(inp);
    }

    fn parse(&self, inp: &'s S) -> (r: Option<Self::Output>) {
        let Self(list) = self;
        list.parse_seq(inp)
    }
}

} // verus!
