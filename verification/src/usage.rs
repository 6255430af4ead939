//! What the trackers ask of a type of usages.

use std::ops::BitOr;
use vstd::prelude::*;
use vstd::std_specs::cmp::PartialEqSpec;
use vstd::std_specs::ops::BitOrSpec;

verus! {

/// A set of access modes. Two usages merge with `|` and compare with `==`;
/// a usage is exclusive when it holds a mode that writes, which no second
/// access may accompany.
pub trait GenericUsage: Copy + BitOr<Output = Self> + PartialEq {
    /// Whether the usage holds a writing mode.
    spec fn exclusive(&self) -> bool;

    fn is_exclusive(&self) -> (exclusive: bool)
        ensures
            exclusive == self.exclusive(),
    ;

    /// `==` tells whether two usages are the same, `|` is defined on all
    /// usages, merging a usage with itself changes nothing, and a merged usage
    /// writes exactly when one of its parts does.
    proof fn lawful()
        ensures
            Self::obeys_eq_spec(),
            Self::obeys_bitor_spec(),
            forall|a: Self, b: Self| #[trigger] a.eq_spec(&b) <==> a == b,
            forall|a: Self, b: Self| #[trigger] a.bitor_req(b),
            forall|a: Self| #[trigger] a.bitor_spec(a) == a,
            forall|a: Self, b: Self|
                #[trigger] a.bitor_spec(b).exclusive() <==> a.exclusive() || b.exclusive(),
    ;
}

/// The usage that holds the modes of `a` and those of `b`.
pub open spec fn union<U: GenericUsage>(a: U, b: U) -> U {
    a.bitor_spec(b)
}

} // verus!
