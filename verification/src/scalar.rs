//! Ordered scalar types that interval bounds may be drawn from.

use vstd::prelude::*;

verus! {

/// A scalar whose order is that of the integers: `rank` embeds the type
/// into `int`, one to one, and the executable comparisons agree with it.
pub trait Scalar: Copy + Sized {
    /// The integer this value stands for.
    spec fn rank(&self) -> int;

    /// Two values with the same rank are the same value.
    proof fn rank_is_injective(a: Self, b: Self)
        requires
            a.rank() == b.rank(),
        ensures
            a == b,
    ;

    /// `self <= other` in the order of the ranks.
    fn le(&self, other: &Self) -> (r: bool)
        ensures
            r == (self.rank() <= other.rank()),
    ;

    /// `self < other` in the order of the ranks.
    fn lt(&self, other: &Self) -> (r: bool)
        ensures
            r == (self.rank() < other.rank()),
    ;
}

impl Scalar for i32 {
    open spec fn rank(&self) -> int {
        *self as int
    }

    proof fn rank_is_injective(a: Self, b: Self) {
    }

    fn le(&self, other: &Self) -> (r: bool) {
        *self <= *other
    }

    fn lt(&self, other: &Self) -> (r: bool) {
        *self < *other
    }
}

impl Scalar for i64 {
    open spec fn rank(&self) -> int {
        *self as int
    }

    proof fn rank_is_injective(a: Self, b: Self) {
    }

    fn le(&self, other: &Self) -> (r: bool) {
        *self <= *other
    }

    fn lt(&self, other: &Self) -> (r: bool) {
        *self < *other
    }
}

impl Scalar for u32 {
    open spec fn rank(&self) -> int {
        *self as int
    }

    proof fn rank_is_injective(a: Self, b: Self) {
    }

    fn le(&self, other: &Self) -> (r: bool) {
        *self <= *other
    }

    fn lt(&self, other: &Self) -> (r: bool) {
        *self < *other
    }
}

impl Scalar for u64 {
    open spec fn rank(&self) -> int {
        *self as int
    }

    proof fn rank_is_injective(a: Self, b: Self) {
    }

    fn le(&self, other: &Self) -> (r: bool) {
        *self <= *other
    }

    fn lt(&self, other: &Self) -> (r: bool) {
        *self < *other
    }
}

} // verus!
