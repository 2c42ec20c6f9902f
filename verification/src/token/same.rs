use vstd::prelude::*;

verus! {

/// Items that can be told equal to items of type `U`.
pub trait Same<U: ?Sized> {
    /// `self` and `other` are the same item.
    spec fn same(&self, other: &U) -> bool;

    fn is_same(&self, other: &U) -> (r: bool)
        ensures
            r == self.same(other),
    ;
}

impl Same<char> for char {
    open spec fn same(&self, other: &char) -> bool {
        *self == *other
    }

    fn is_same(&self, other: &char) -> (r: bool) {
        *self == *other
    }
}

impl Same<bool> for bool {
    open spec fn same(&self, other: &bool) -> bool {
        *self == *other
    }

    fn is_same(&self, other: &bool) -> (r: bool) {
        *self == *other
    }
}

impl Same<u8> for u8 {
    open spec fn same(&self, other: &u8) -> bool {
        *self == *other
    }

    fn is_same(&self, other: &u8) -> (r: bool) {
        *self == *other
    }
}

impl Same<u16> for u16 {
    open spec fn same(&self, other: &u16) -> bool {
        *self == *other
    }

    fn is_same(&self, other: &u16) -> (r: bool) {
        *self == *other
    }
}

impl Same<u32> for u32 {
    open spec fn same(&self, other: &u32) -> bool {
        *self == *other
    }

    fn is_same(&self, other: &u32) -> (r: bool) {
        *self == *other
    }
}

impl Same<u64> for u64 {
    open spec fn same(&self, other: &u64) -> bool {
        *self == *other
    }

    fn is_same(&self, other: &u64) -> (r: bool) {
        *self == *other
    }
}

impl Same<usize> for usize {
    open spec fn same(&self, other: &usize) -> bool {
        *self == *other
    }

    fn is_same(&self, other: &usize) -> (r: bool) {
        *self == *other
    }
}

impl Same<i8> for i8 {
    open spec fn same(&self, other: &i8) -> bool {
        *self == *other
    }

    fn is_same(&self, other: &i8) -> (r: bool) {
        *self == *other
    }
}

impl Same<i32> for i32 {
    open spec fn same(&self, other: &i32) -> bool {
        *self == *other
    }

    fn is_same(&self, other: &i32) -> (r: bool) {
        *self == *other
    }
}

impl Same<i64> for i64 {
    open spec fn same(&self, other: &i64) -> bool {
        *self == *other
    }

    fn is_same(&self, other: &i64) -> (r: bool) {
        *self == *other
    }
}

} // verus!
