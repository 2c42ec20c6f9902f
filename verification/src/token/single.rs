use vstd::prelude::*;

use super::{
    lemma_run_from,
    Prop,
    Slicy,
    Span,
    Spanned,
};

verus! {

/// A single character is a source of one item.
impl Spanned for char {
    open spec fn spec_span(&self) -> (int, int) {
        (0, 1)
    }

    open spec fn span_ok(&self) -> bool {
        true
    }

    fn span(&self) -> (r: Span) {
        Span(0, 1)
    }
}

impl Slicy for char {
    type Item = char;

    open spec fn items(&self) -> Seq<char> {
        seq![*self]
    }

    open spec fn slicy_wf(&self) -> bool {
        true
    }

    open spec fn cut_ok(&self, s: int, e: int) -> bool {
        s == 0 && e == 1
    }

    open spec fn divisible(&self) -> bool {
        false
    }

    open spec fn tails_ok(&self) -> bool {
        true
    }

    proof fn lemma_slicy(&self) {
    }

    fn len(&self) -> (r: usize) {
        1
    }

    fn subslice(&self, s: usize, e: usize) -> (r: &Self) {
        proof {
            assert(self.items().subrange(0, 1) =~= self.items());
        }
        self
    }

    fn count_range_of<P: Prop<char>>(&self, prop: &P) -> (r: usize) {
        proof {
            lemma_run_from(prop, seq![*self], 0);
            lemma_run_from(prop, seq![*self], 1);
        }
        if prop.check(0, self) {
            1
        } else {
            0
        }
    }

    fn peek<P>(&self, prop: P) -> (r: bool) where P: Fn(&char) -> bool {
        prop(self)
    }
}

} // verus!
