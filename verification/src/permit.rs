//! Which merge strategies a call site may use.

use std::ops::BitOr;
use vstd::prelude::*;

verus! {

/// The bit of a permit that allows extending a usage.
pub const PERMIT_EXTEND: u32 = 1;

/// The bit of a permit that allows replacing a usage.
pub const PERMIT_REPLACE: u32 = 2;

/// A set of merge strategies: extend, replace, both or neither. Bits other
/// than the two above mean nothing.
#[derive(Clone, Copy, Debug, PartialEq, Eq, Structural)]
pub struct TrackPermit {
    pub bits: u32,
}

impl TrackPermit {
    /// Whether the tracked usage may be extended: merged with the new one,
    /// where the two can be held at once. This serves inside a render pass,
    /// where the usage stays what it is from the start of the pass to its end
    /// and is settled only when the pass ends.
    pub open spec fn allows_extend(&self) -> bool {
        self.bits & PERMIT_EXTEND == PERMIT_EXTEND
    }

    /// Whether the tracked usage may be replaced by the new one. This serves
    /// while commands are recorded one after another.
    pub open spec fn allows_replace(&self) -> bool {
        self.bits & PERMIT_REPLACE == PERMIT_REPLACE
    }

    pub open spec fn spec_empty() -> Self {
        TrackPermit { bits: 0 }
    }

    pub open spec fn spec_extend() -> Self {
        TrackPermit { bits: PERMIT_EXTEND }
    }

    pub open spec fn spec_replace() -> Self {
        TrackPermit { bits: PERMIT_REPLACE }
    }

    pub open spec fn spec_all() -> Self {
        TrackPermit { bits: PERMIT_EXTEND | PERMIT_REPLACE }
    }

    /// The permit that allows nothing.
    #[verifier::when_used_as_spec(spec_empty)]
    pub fn empty() -> (permit: Self)
        ensures
            permit == Self::spec_empty(),
    {
        TrackPermit { bits: 0 }
    }

    /// The permit that allows extending only.
    #[verifier::when_used_as_spec(spec_extend)]
    pub fn extend() -> (permit: Self)
        ensures
            permit == Self::spec_extend(),
    {
        TrackPermit { bits: PERMIT_EXTEND }
    }

    /// The permit that allows replacing only.
    #[verifier::when_used_as_spec(spec_replace)]
    pub fn replace() -> (permit: Self)
        ensures
            permit == Self::spec_replace(),
    {
        TrackPermit { bits: PERMIT_REPLACE }
    }

    /// The permit that allows both.
    #[verifier::when_used_as_spec(spec_all)]
    pub fn all() -> (permit: Self)
        ensures
            permit == Self::spec_all(),
    {
        TrackPermit { bits: PERMIT_EXTEND | PERMIT_REPLACE }
    }

    pub fn bits(&self) -> (bits: u32)
        ensures
            bits == self.bits,
    {
        self.bits
    }

    /// The permit made of the two meaningful bits of `bits`.
    pub fn from_bits_truncate(bits: u32) -> (permit: Self)
        ensures
            permit.bits == bits & (PERMIT_EXTEND | PERMIT_REPLACE),
    {
        TrackPermit { bits: bits & (PERMIT_EXTEND | PERMIT_REPLACE) }
    }

    /// Whether every strategy of `other` is allowed by `self`.
    pub fn contains(&self, other: Self) -> (contained: bool)
        ensures
            contained == (self.bits & other.bits == other.bits),
    {
        self.bits & other.bits == other.bits
    }
}

impl BitOr for TrackPermit {
    type Output = TrackPermit;

    /// The permit that allows what `self` allows and what `rhs` allows.
    fn bitor(self, rhs: Self) -> (both: Self) {
        TrackPermit { bits: self.bits | rhs.bits }
    }
}

impl vstd::std_specs::ops::BitOrSpecImpl for TrackPermit {
    open spec fn obeys_bitor_spec() -> bool {
        true
    }

    open spec fn bitor_req(self, rhs: Self) -> bool {
        true
    }

    open spec fn bitor_spec(self, rhs: Self) -> Self {
        TrackPermit { bits: self.bits | rhs.bits }
    }
}

} // verus!
