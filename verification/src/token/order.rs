use vstd::prelude::*;

use core::cmp::Ordering;
use vstd::std_specs::cmp::PartialOrdSpec;

use super::Prop;

verus! {

/// The property of standing at an index above `*.0`.
pub struct Lt<'a, T>(pub &'a T);

impl<'a, T, I> Prop<I> for Lt<'a, T> where T: PartialOrd<usize> {
    open spec fn prop_wf(&self) -> bool {
        T::obeys_partial_cmp_spec()
    }

    open spec fn holds(&self, i: usize, t: I) -> bool {
        self.0.partial_cmp_spec(&i) == Some(Ordering::Less)
    }

    fn check(&self, i: usize, _t: &I) -> (r: bool) {
        *self.0 < i
    }
}

} // verus!
