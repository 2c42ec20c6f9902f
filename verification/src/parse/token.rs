use vstd::prelude::*;

use super::Parser;
use crate::token::{
    run_len,
    Slicy,
    Spanned,
};

verus! {

/// The parser of a token: the longest non-empty prefix of its input whose
/// items all match the token.
pub struct Token<T>(pub T);

impl<'s, S, T> Parser<'s, S> for Token<T> where
    S: Slicy + Spanned + ?Sized + 's,
    T: crate::token::Token<S>,
 {
    type Output = &'s S;

    type Model = Seq<S::Item>;

    open spec fn parser_wf(&self) -> bool {
        self.0.prop_wf()
    }

    /// The input can be cut after the prefix that the token takes.
    open spec fn input_ok(&self, inp: &S) -> bool {
        inp.cut_ok(0, run_len(&self.0, inp.items()) as int)
    }

    proof fn lemma_input_ok(&self, inp: &S) {
        inp.lemma_slicy();
        crate::token::lemma_run_from(&self.0, inp.items(), 0);
    }

    open spec fn model(o: &'s S) -> Seq<S::Item> {
        o.items()
    }

    open spec fn spec_parse(&self, inp: Seq<S::Item>) -> Option<(nat, Seq<S::Item>)> {
        let n = run_len(&self.0, inp);
        if n > 0 {
            Some((n as nat, inp.take(n)))
        } else {
            None
        }
    }

    proof fn lemma_parse_len(&self, inp: Seq<S::Item>) {
        crate::token::lemma_run_from(&self.0, inp, 0);
    }

    fn parse(&self, inp: &'s S) -> (r: Option<&'s S>) {
        let Self(token) = self;
        proof {
            inp.lemma_slicy();
            crate::token::lemma_run_from(token, inp.items(), 0);
        }
        let span = token.try_match(inp);
        match span.non_empty() {
            Some(s) => {
                let r = s.scope(inp);
                proof {
                    r.lemma_slicy();
                    assert(r.items() =~= inp.items().take(span.1 as int));
                }
                Some(r)
            },
            None => None,
        }
    }
}


/// A token takes the longest prefix whose every item matches: each item it
/// takes matches at its index, and the item after them, if any, does not.
pub proof fn law_token_longest<'s, S, T>(t: Token<T>, inp: Seq<S::Item>)
    where
        S: Slicy + Spanned + ?Sized + 's,
        T: crate::token::Token<S>,
    requires
        inp.len() <= usize::MAX,
    ensures
        <Token<T> as Parser<'s, S>>::spec_parse(&t, inp) matches Some((n, m)) ==> {
            &&& m == inp.take(n as int)
            &&& forall|j: int| 0 <= j < n ==> #[trigger] t.0.holds(j as usize, inp[j])
            &&& n < inp.len() ==> !t.0.holds(n as usize, inp[n as int])
        },
        <Token<T> as Parser<'s, S>>::spec_parse(&t, inp) is None ==> inp.len() == 0 || !t.0.holds(
            0,
            inp[0],
        ),
{
    crate::token::lemma_run_from(&t.0, inp, 0);
}

} // verus!
