use vstd::prelude::*;

mod order;
mod prop;
mod same;
mod single;
mod slicy;
mod span;

pub use order::Lt;
pub use prop::{
    lemma_run_from,
    run_from,
    run_len,
    Prop,
};
pub use same::Same;
pub use slicy::Slicy;
pub use span::{
    all_spans_ok,
    lemma_lens_sum_nonneg,
    lens_sum,
    Span,
    Spanned,
};

verus! {

/// A token: a property of items, matched against the longest prefix of a
/// source whose items all have it.
pub trait Token<S: Slicy + ?Sized>: Prop<S::Item> + Sized {
    fn try_match(&self, source: &S) -> (r: Span)
        requires
            source.slicy_wf(),
            self.prop_wf(),
        ensures
            r.0 == 0,
            r.1 == run_len(self, source.items()),
    {
        Span(0, source.count_range_of(self))
    }
}

impl<S: Slicy + ?Sized, P: Prop<S::Item>> Token<S> for P {

}

/// A token of the items that have `prop`.
pub fn class<S, P>(prop: P) -> (r: P) where S: Slicy + ?Sized, P: Prop<S::Item>
    ensures
        r == prop,
{
    prop
}

/// The property of matching, item by item, the items of `exact`.
pub struct Exact<'u, U: Slicy + ?Sized>(pub &'u U);

impl<'u, T, U> Prop<T> for Exact<'u, U> where U: Slicy + ?Sized, T: Same<U::Item> {
    open spec fn prop_wf(&self) -> bool {
        self.0.slicy_wf() && self.0.tails_ok()
    }

    open spec fn holds(&self, i: usize, t: T) -> bool {
        &&& i < self.0.items().len()
        &&& t.same(&self.0.items()[i as int])
    }

    fn check(&self, i: usize, t: &T) -> (r: bool) {
        proof {
            self.0.lemma_slicy();
        }
        if i < self.0.len() {
            assert(self.0.cut_ok(i as int, self.0.items().len() as int));
            let rest = self.0.subopen(i);
            let same = |s: &U::Item| -> (r: bool)
                ensures
                    r == t.same(s),
            {
                t.is_same(s)
            };
            let r = rest.peek(same);
            assert(rest.items()[0] == self.0.items()[i as int]);
            r
        } else {
            false
        }
    }
}

/// A token of the items of `exact`, in order.
pub fn exact<'u, S, U>(word: &'u U) -> (r: Exact<'u, U>) where
    S: Slicy + ?Sized + 'u,
    U: Slicy + ?Sized,
    S::Item: Same<U::Item>,

    ensures
        r.0 == word,
{
    class::<S, _>(Exact(word))
}

/// The property of being equal to `*.0`.
pub struct Eq<'a, T>(pub &'a T);

impl<'a, T: Same<T>> Prop<T> for Eq<'a, T> {
    open spec fn prop_wf(&self) -> bool {
        true
    }

    open spec fn holds(&self, i: usize, t: T) -> bool {
        t.same(self.0)
    }

    fn check(&self, i: usize, t: &T) -> (r: bool) {
        t.is_same(self.0)
    }
}

/// The items equal to `*s`.
pub fn eq<T>(s: &T) -> (r: Eq<'_, T>) where T: Same<T>
    ensures
        r.0 == s,
{
    Eq(s)
}

/// The opposite of a property.
pub struct Not<P>(pub P);

impl<T, P: Prop<T>> Prop<T> for Not<P> {
    open spec fn prop_wf(&self) -> bool {
        self.0.prop_wf()
    }

    open spec fn holds(&self, i: usize, t: T) -> bool {
        !self.0.holds(i, t)
    }

    fn check(&self, i: usize, t: &T) -> (r: bool) {
        !self.0.check(i, t)
    }
}

/// The items of which `p` does not hold.
pub fn not<P, T>(p: P) -> (r: Not<P>) where P: Prop<T>
    ensures
        r.0 == p,
{
    Not(p)
}

/// The items at an index above `*n`.
pub fn lt<T>(n: &T) -> (r: Lt<'_, T>) where T: PartialOrd<usize>
    ensures
        r.0 == n,
{
    Lt(n)
}

} // verus!
