//! The tracker of the resources of one kind that carry no usage.

use crate::hub::{Epoch, Index, NewId, RefCount};
use crate::slots::{slot_indices, slot_insert, slot_ref, slot_take, token_clone};
use gfx_hal::backend::FastHashMap;
use std::marker::PhantomData;
use vstd::prelude::*;

verus! {

/// Whether a handle may be used where `present` are the tracked slots and
/// their generations: if its slot is tracked, it is tracked with the
/// generation of the handle.
pub open spec fn is_current(present: Map<Index, Epoch>, index: Index, epoch: Epoch) -> bool {
    present.contains_key(index) ==> present[index] == epoch
}

/// Whether two presence trackers can be merged: a slot that both track, both
/// track with the same generation.
pub open spec fn agree(mine: Map<Index, Epoch>, theirs: Map<Index, Epoch>) -> bool {
    forall|index: Index| #[trigger]
        theirs.contains_key(index) ==> is_current(mine, index, theirs[index])
}

/// For each tracked resource of one kind: a clone of its liveness token and
/// the generation of its slot. `I` is the type of the handles.
pub struct DummyTracker<I> {
    map: FastHashMap<Index, (RefCount, Epoch)>,
    _phantom: PhantomData<I>,
}

impl<I: NewId> DummyTracker<I> {
    /// The generation of each tracked slot.
    pub closed spec fn view(&self) -> Map<Index, Epoch> {
        Map::new(|index: Index| self.map@.contains_key(index), |index: Index| self.map@[index].1)
    }

    /// Whether `id` is no stale handle.
    pub open spec fn accepts(&self, id: I) -> bool {
        is_current(self@, id.index_spec(), id.epoch_spec())
    }

    /// The tracker that tracks nothing.
    pub fn new() -> (tracker: Self)
        ensures
            tracker@ == Map::<Index, Epoch>::empty(),
    {
        DummyTracker { map: FastHashMap::default(), _phantom: PhantomData }
    }

    /// Stops tracking the resource of `id`, and tells whether it was tracked.
    pub fn remove(&mut self, id: I) -> (removed: bool)
        requires
            old(self).accepts(id),
        ensures
            removed == old(self)@.contains_key(id.index_spec()),
            final(self)@ == old(self)@.remove(id.index_spec()),
    {
        let taken = slot_take(&mut self.map, id.index());
        taken.is_some()
    }

    /// Starts tracking the resource of `id` unless it is tracked already, and
    /// tells whether it did.
    pub fn query(&mut self, id: I, ref_count: &RefCount) -> (first: bool)
        requires
            old(self).accepts(id),
        ensures
            first == !old(self)@.contains_key(id.index_spec()),
            final(self)@ == (if first {
                old(self)@.insert(id.index_spec(), id.epoch_spec())
            } else {
                old(self)@
            }),
    {
        let index = id.index();
        match slot_ref(&self.map, index) {
            Some(_) => false,
            None => {
                slot_insert(&mut self.map, index, (token_clone(ref_count), id.epoch()));
                true
            },
        }
    }

    /// Starts tracking every resource that `other` tracks.
    pub fn consume(&mut self, other: &Self)
        requires
            agree(old(self)@, other@),
        ensures
            final(self)@ == old(self)@.union_prefer_right(other@),
    {
        let order = slot_indices(&other.map);
        let ghost before = self@;
        let mut count: usize = 0;
        while count < order.len()
            invariant
                count <= order.len(),
                order@.to_set() == other.map@.dom(),
                agree(before, other@),
                forall|index: Index| before.contains_key(index) ==> #[trigger] self@.contains_key(index),
                forall|index: Index| #[trigger]
                    self@.contains_key(index) ==> {
                        &&& before.contains_key(index) || other@.contains_key(index)
                        &&& self@[index] == before.union_prefer_right(other@)[index]
                    },
                forall|place: int|
                    0 <= place < count ==> self@.contains_key(#[trigger] order@[place]),
            decreases order.len() - count,
        {
            let index = order[count];
            match slot_ref(&other.map, index) {
                Some(pair) => {
                    self.query(I::new(index, pair.1), &pair.0);
                },
                None => {
                    unreached::<()>();
                },
            }
            count += 1;
        }
        assert(forall|index: Index| other@.contains_key(index) ==> self@.contains_key(index));
    }

    /// Tells whether `id` is no stale handle.
    pub fn is_accepted(&self, id: &I) -> (accepted: bool)
        ensures
            accepted == self.accepts(*id),
    {
        match slot_ref(&self.map, id.index()) {
            Some(pair) => pair.1 == id.epoch(),
            None => true,
        }
    }

    /// Tells whether `other` can be merged into `self`.
    pub fn is_compatible(&self, other: &Self) -> (agreed: bool)
        ensures
            agreed == agree(self@, other@),
    {
        let order = slot_indices(&other.map);
        let mut count: usize = 0;
        while count < order.len()
            invariant
                count <= order.len(),
                order@.to_set() == other.map@.dom(),
                forall|place: int|
                    0 <= place < count ==> is_current(
                        self@,
                        #[trigger] order@[place],
                        other@[order@[place]],
                    ),
            decreases order.len() - count,
        {
            let index = order[count];
            let theirs = match slot_ref(&other.map, index) {
                Some(pair) => pair.1,
                None => unreached(),
            };
            match slot_ref(&self.map, index) {
                Some(pair) => {
                    if pair.1 != theirs {
                        assert(other@.contains_key(index) && !is_current(self@, index, other@[index]));
                        return false;
                    }
                },
                None => {},
            }
            count += 1;
        }
        true
    }
}

} // verus!
