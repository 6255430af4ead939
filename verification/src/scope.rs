//! Everything that one recording scope has touched.

use crate::hub::{Epoch, Id, Index};
use crate::model::TrackState;
use crate::presence::DummyTracker;
use crate::resource::{BufferUsageFlags, TextureUsageFlags};
use crate::tracker::Tracker;
use vstd::prelude::*;

verus! {

/// Buffers, textures and texture views are all named by plain handles.
pub type BufferId = Id;

pub type TextureId = Id;

pub type TextureViewId = Id;

pub type BufferTracker = Tracker<BufferId, BufferUsageFlags>;

pub type TextureTracker = Tracker<TextureId, TextureUsageFlags>;

pub type TextureViewTracker = DummyTracker<TextureViewId>;

/// One tracker for each kind of resource: buffers and textures with their
/// usages, texture views by presence alone.
pub struct TrackerSet {
    pub buffers: BufferTracker,
    pub textures: TextureTracker,
    pub views: TextureViewTracker,
}

impl TrackerSet {
    /// The set that tracks nothing.
    pub fn new() -> (set: Self)
        ensures
            set.buffers@ == Map::<Index, TrackState<BufferUsageFlags>>::empty(),
            set.textures@ == Map::<Index, TrackState<TextureUsageFlags>>::empty(),
            set.views@ == Map::<Index, Epoch>::empty(),
    {
        TrackerSet {
            buffers: BufferTracker::new(),
            textures: TextureTracker::new(),
            views: TextureViewTracker::new(),
        }
    }
}

} // verus!
