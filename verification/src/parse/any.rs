use vstd::prelude::*;

use super::Parser;
use crate::token::{
    all_spans_ok,
    lemma_lens_sum_nonneg,
    lens_sum,
    Slicy,
    Spanned,
};

verus! {

/// The parser of a repetition: its parser once, then again on what is left,
/// as long as it succeeds.
pub struct Any<P>(pub P);

/// What the repetitions of `p` parse from `inp` once the first has been
/// parsed: the length they cover and their models.
pub open spec fn any_rest<'s, S: Slicy + ?Sized, P: Parser<'s, S>>(p: P, inp: Seq<S::Item>) -> (
    nat,
    Seq<P::Model>,
)
    decreases inp.len(),
{
    match p.spec_parse(inp) {
        Some((n, m)) => if 1 <= n <= inp.len() {
            let (k, ms) = any_rest(p, inp.skip(n as int));
            (n + k, seq![m] + ms)
        } else {
            (0, seq![])
        },
        None => (0, seq![]),
    }
}

proof fn lemma_any_rest_len<'s, S: Slicy + ?Sized, P: Parser<'s, S>>(p: P, inp: Seq<S::Item>)
    ensures
        any_rest(p, inp).0 <= inp.len(),
    decreases inp.len(),
{
    if let Some((n, m)) = p.spec_parse(inp) {
        if 1 <= n <= inp.len() {
            lemma_any_rest_len(p, inp.skip(n as int));
        }
    }
}

proof fn lemma_all_spans_push<T: Spanned>(s: Seq<T>, t: T)
    requires
        all_spans_ok(s),
        t.span_ok(),
        t.spec_span().0 <= t.spec_span().1,
    ensures
        all_spans_ok(s.push(t)),
        lens_sum(s.push(t)) == lens_sum(s) + (t.spec_span().1 - t.spec_span().0),
{
    assert(s.push(t).drop_last() =~= s);
    assert forall|i: int| 0 <= i < s.push(t).len() implies #[trigger] s.push(t)[i].span_ok()
        && s.push(t)[i].spec_span().0 <= s.push(t)[i].spec_span().1 by {
        if i < s.len() {
            assert(s.push(t)[i] == s[i]);
        }
    }
}

impl<'s, P, S> Parser<'s, S> for Any<P> where P: Parser<'s, S>, S: Slicy + ?Sized {
    type Output = Vec<P::Output>;

    type Model = Seq<P::Model>;

    open spec fn parser_wf(&self) -> bool {
        self.0.parser_wf()
    }

    /// The input can be cut anywhere.
    open spec fn input_ok(&self, inp: &S) -> bool {
        inp.divisible()
    }

    proof fn lemma_input_ok(&self, inp: &S) {
    }

    open spec fn model(o: Self::Output) -> Self::Model {
        o@.map_values(|x: P::Output| P::model(x))
    }

    open spec fn spec_parse(&self, inp: Seq<S::Item>) -> Option<(nat, Self::Model)> {
        match self.0.spec_parse(inp) {
            Some((n, m)) => {
                let (k, ms) = any_rest(self.0, inp.skip(n as int));
                Some((n + k, seq![m] + ms))
            },
            None => None,
        }
    }

    proof fn lemma_parse_len(&self, inp: Seq<S::Item>) {
        self.0.lemma_parse_len(inp);
        if let Some((n, m)) = self.0.spec_parse(inp) {
            lemma_any_rest_len(self.0, inp.skip(n as int));
        }
    }

    fn parse(&self, inp: &'s S) -> (r: Option<Self::Output>) {
        let Self(parser) = self;
        proof {
            inp.lemma_slicy();
        }
        let ghost items = inp.items();
        proof {
            parser.lemma_input_ok(inp);
        }
        if let Some(p) = parser.parse(inp) {
            proof {
                parser.lemma_parse_len(items);
            }
            let ghost first_n = p.spec_span().1 as nat;
            let ghost first_m = P::model(p);
            let mut inp = p.span().descope(inp);
            let ghost after_first = inp.items();
            let mut consumed: usize = p.span().1;
            let ghost mut k_done: nat = 0;
            let ghost mut ms_done: Seq<P::Model> = Seq::empty();
            let mut result = vec![p];
            proof {
                lemma_all_spans_push(Seq::<P::Output>::empty(), p);
                assert(Seq::<P::Output>::empty().push(p) =~= result@);
                assert(Self::model(result) =~= seq![first_m] + ms_done);
            }
            loop
                invariant
                    parser.parser_wf(),
                    inp.slicy_wf(),
                    inp.divisible(),
                    items.len() <= usize::MAX,
                    consumed == first_n + k_done,
                    1 <= first_n <= consumed <= items.len(),
                    inp.items() == items.skip(consumed as int),
                    after_first == items.skip(first_n as int),
                    all_spans_ok(result@),
                    lens_sum(result@) == consumed,
                    Self::model(result) == seq![first_m] + ms_done,
                    any_rest(*parser, after_first) == (
                        k_done + any_rest(*parser, inp.items()).0,
                        ms_done + any_rest(*parser, inp.items()).1,
                    ),
                    forall|i: int| 0 <= i < result@.len() ==> (#[trigger] result@[i]).spec_span().0 == 0,
                ensures
                    any_rest(*parser, inp.items()) == (0nat, Seq::<P::Model>::empty()),
                decreases inp.items().len(),
            {
                proof {
                    parser.lemma_input_ok(inp);
                }
                match parser.parse(inp) {
                    Some(p) => {
                        proof {
                            parser.lemma_parse_len(inp.items());
                            inp.lemma_slicy();
                        }
                        let ghost old_inp = inp.items();
                        let ghost old_result = result@;
                        let ghost m = P::model(p);
                        let ghost n = p.spec_span().1 as nat;
                        let ghost old_ms = ms_done;
                        inp = p.span().descope(inp);
                        consumed = consumed + p.span().1;
                        proof {
                            lemma_all_spans_push(result@, p);
                            k_done = k_done + n;
                            ms_done = ms_done.push(m);
                            assert(inp.items() =~= items.skip(consumed as int));
                            let (k2, ms2) = any_rest(*parser, inp.items());
                            assert(any_rest(*parser, old_inp) == (n + k2, seq![m] + ms2));
                            assert(ms_done + ms2 =~= old_ms + (seq![m] + ms2));
                        }
                        result.push(p);
                        proof {
                            assert(result@ =~= old_result.push(p));
                            assert(old_result.map_values(|x: P::Output| P::model(x)) == seq![first_m] + old_ms);
                            assert(Self::model(result) =~= old_result.map_values(|x: P::Output| P::model(x)).push(m));
                            assert(Self::model(result) =~= seq![first_m] + ms_done);
                            assert forall|i: int| 0 <= i < result@.len() implies (
                            #[trigger] result@[i]).spec_span().0 == 0 by {
                                if i < old_result.len() {
                                    assert(result@[i] == old_result[i]);
                                }
                            }
                        }
                    },
                    None => {
                        break;
                    },
                }
            }
            proof {
                assert(ms_done + Seq::<P::Model>::empty() =~= ms_done);
                lemma_lens_sum_nonneg(result@);
            }
            return Some(result);
        }
        None
    }
}


/// A repetition parses where its parser does, and covers at least as much.
pub proof fn law_any_covers_first<'s, S: Slicy + ?Sized, P: Parser<'s, S>>(p: P, inp: Seq<S::Item>)
    ensures
        Any(p).spec_parse(inp) is Some <==> p.spec_parse(inp) is Some,
        p.spec_parse(inp) matches Some((n, m)) ==> Any(p).spec_parse(inp) matches Some((k, ms)) && n <= k
            && ms.len() > 0 && ms[0] == m,
{
    if let Some((n, m)) = p.spec_parse(inp) {
        let (k, ms) = any_rest(p, inp.skip(n as int));
        assert((seq![m] + ms)[0] == m);
    }
}

/// A repetition is greedy: it fails where its parser fails; otherwise it
/// takes what its parser takes and then what the repetition takes of the
/// rest, or nothing more where the repetition fails there.
pub proof fn law_any_greedy<'s, S: Slicy + ?Sized, P: Parser<'s, S>>(p: P, inp: Seq<S::Item>)
    ensures
        Any(p).spec_parse(inp) == match p.spec_parse(inp) {
            None => None,
            Some((n, m)) => match Any(p).spec_parse(inp.skip(n as int)) {
                None => Some((n, seq![m])),
                Some((k, ms)) => Some((n + k, seq![m] + ms)),
            },
        },
{
    p.lemma_parse_len(inp);
    if let Some((n, m)) = p.spec_parse(inp) {
        let rest = inp.skip(n as int);
        p.lemma_parse_len(rest);
        if let Some((n2, m2)) = p.spec_parse(rest) {
            assert(1 <= n2 <= rest.len());
        } else {
            assert(seq![m] + Seq::<P::Model>::empty() =~= seq![m]);
        }
    }
}

} // verus!
