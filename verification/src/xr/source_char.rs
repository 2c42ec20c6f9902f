use vstd::prelude::*;

use crate::token::Same;

verus! {

/// A character of a Ruby source, the same as a plain character of the same
/// code point.
#[derive(Clone, Copy, Debug)]
pub struct SourceChar(pub char);

impl Same<char> for SourceChar {
    open spec fn same(&self, other: &char) -> bool {
        self.0 == *other
    }

    fn is_same(&self, other: &char) -> (r: bool) {
        self.0 == *other
    }
}

} // verus!
