//! What an access reports back.

use vstd::prelude::*;

verus! {

/// What an access did to the tracked usage of a resource.
#[derive(Clone, Debug, PartialEq)]
pub enum Tracktion<T> {
    /// The resource was not tracked yet and is now, with the usage asked for.
    Init,
    /// The usage asked for is the tracked one; nothing changed.
    Keep,
    /// The usage asked for was merged into the tracked one, which was `old`.
    Extend { old: T },
    /// The usage asked for took the place of the tracked one, which was `old`.
    Replace { old: T },
}

impl<T> Tracktion<T> {
    /// The usage that the resource leaves, where the access changed it.
    pub open spec fn source(self) -> Option<T> {
        match self {
            Tracktion::Init | Tracktion::Keep => None,
            Tracktion::Extend { old } | Tracktion::Replace { old } => Some(old),
        }
    }

    /// The usage that the resource leaves, where the access changed it.
    pub fn into_source(self) -> (prior: Option<T>)
        ensures
            prior == self.source(),
    {
        match self {
            Tracktion::Init | Tracktion::Keep => None,
            Tracktion::Extend { old } | Tracktion::Replace { old } => Some(old),
        }
    }
}

/// The usage that a resource is tracked with, and whether asking for it is
/// what started the tracking.
#[derive(Clone, Debug, PartialEq)]
pub struct Query<T> {
    pub usage: T,
    pub initialized: bool,
}

} // verus!
