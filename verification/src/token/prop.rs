use vstd::prelude::*;

verus! {

/// A property of an item found at a given index of a sequence.
pub trait Prop<T> {
    /// The conditions under which `check` computes `holds` (for example, that
    /// the `==` of the item type behaves as equality).
    spec fn prop_wf(&self) -> bool;

    /// Whether the property holds of item `t` found at index `i`.
    spec fn holds(&self, i: usize, t: T) -> bool;

    fn check(&self, i: usize, t: &T) -> (r: bool)
        requires
            self.prop_wf(),
        ensures
            r == self.holds(i, *t),
    ;
}

/// The length of the longest run of items of `s`, starting at index `i`, of
/// which `p` holds.
pub open spec fn run_from<T, P: Prop<T>>(p: &P, s: Seq<T>, i: int) -> int
    decreases s.len() - i,
{
    if 0 <= i < s.len() && i <= usize::MAX && p.holds(i as usize, s[i]) {
        run_from(p, s, i + 1)
    } else {
        i
    }
}

/// The length of the longest prefix of `s` whose every item satisfies `p`
/// at its own index.
pub open spec fn run_len<T, P: Prop<T>>(p: &P, s: Seq<T>) -> int {
    run_from(p, s, 0)
}

/// `run_from` stops at the first item, at or after `i`, that fails `p`.
pub proof fn lemma_run_from<T, P: Prop<T>>(p: &P, s: Seq<T>, i: int)
    requires
        0 <= i <= s.len(),
    ensures
        i <= run_from(p, s, i) <= s.len(),
        forall|j: int| i <= j < run_from(p, s, i) ==> #[trigger] p.holds(j as usize, s[j]),
        run_from(p, s, i) < s.len() && run_from(p, s, i) <= usize::MAX ==> !p.holds(
            run_from(p, s, i) as usize,
            s[run_from(p, s, i)],
        ),
    decreases s.len() - i,
{
    if i < s.len() && p.holds(i as usize, s[i]) {
        lemma_run_from(p, s, i + 1);
    }
}

} // verus!
