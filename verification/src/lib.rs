//! Tracking of how the resources of a recording scope are used: which usage
//! each buffer and texture was first and last seen with, which transitions a
//! change of usage asks for, and which combinations are hazards.

pub mod hub;
pub mod laws;
pub mod model;
pub mod outcome;
pub mod permit;
pub mod presence;
pub mod resource;
pub mod scope;
pub mod slots;
pub mod tracker;
pub mod usage;

pub use crate::hub::{Epoch, Id, Index, NewId, RefCount, Storage};
pub use crate::outcome::{Query, Tracktion};
pub use crate::permit::TrackPermit;
pub use crate::presence::DummyTracker;
pub use crate::resource::{BufferUsageFlags, TextureUsageFlags};
pub use crate::scope::{
    BufferId, BufferTracker, TextureId, TextureTracker, TextureViewId, TextureViewTracker,
    TrackerSet,
};
pub use crate::tracker::{Tracker, Transition};
pub use crate::usage::GenericUsage;
