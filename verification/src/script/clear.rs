use vstd::prelude::*;

use crate::text::string_clear;

verus! {

/// A container that can be emptied.
pub trait Clear {
    /// The container holds nothing.
    spec fn is_clear(&self) -> bool;

    fn clear(&mut self)
        ensures
            final(self).is_clear(),
    ;
}

/// `c`, emptied.
pub fn clearing<C: Clear>(c: C) -> (r: C)
    ensures
        r.is_clear(),
{
    let mut c = c;
    c.clear();
    c
}

impl Clear for String {
    open spec fn is_clear(&self) -> bool {
        self@.len() == 0
    }

    fn clear(&mut self) {
        string_clear(self)
    }
}

impl<T> Clear for Vec<T> {
    open spec fn is_clear(&self) -> bool {
        self@.len() == 0
    }

    fn clear(&mut self) {
        Vec::clear(self)
    }
}

} // verus!
