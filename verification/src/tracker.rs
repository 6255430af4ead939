//! The tracker of the resources of one kind that carry a usage.

use crate::hub::{Epoch, Id, Index, NewId, RefCount, Storage};
use crate::model::{
    admits, after_extend, after_query, after_replace, after_transit, compatible, conflicts,
    extended_entry, extended_on, first_conflict, fresh, needs_transition, query_answer,
    replaced_entry, replaced_on, stopped_at, transit_outcome, visited, TrackState,
};
use crate::outcome::{Query, Tracktion};
use crate::permit::{TrackPermit, PERMIT_EXTEND, PERMIT_REPLACE};
use crate::slots::{
    lent_ref_count, slot_indices, slot_insert, slot_mut, slot_ref, slot_take, token_clone,
};
use crate::usage::{union, GenericUsage};
use gfx_hal::backend::FastHashMap;
use std::borrow::Borrow;
use std::marker::PhantomData;
use std::ops::Range;
use vstd::prelude::*;

verus! {

/// A change of usage that a backend has to synchronise: the handle of the
/// resource, and the usage it leaves and the usage it enters.
pub type Transition<I, U> = (I, Range<U>);

/// The slots of the handles of `transitions`, in their order.
pub open spec fn slots_of<I: NewId, U>(transitions: Seq<Transition<I, U>>) -> Seq<Index> {
    transitions.map_values(|transition: Transition<I, U>| transition.0.index_spec())
}

/// Whether `transition` is the one that folding `theirs` into `mine` by
/// replacement asks for in its slot: the handle has the generation that
/// `theirs` tracks, and the usage goes from where `mine` left it to where
/// `theirs` left it.
pub open spec fn is_replacement<I: NewId, U>(
    mine: Map<Index, TrackState<U>>,
    theirs: Map<Index, TrackState<U>>,
    transition: Transition<I, U>,
) -> bool {
    let index = transition.0.index_spec();
    &&& needs_transition(mine, theirs, index)
    &&& transition.0.epoch_spec() == theirs[index].epoch
    &&& transition.1.start == mine[index].last
    &&& transition.1.end == theirs[index].last
}

/// Whether `hazard` is what folding `theirs` into `mine` by extension reports
/// of its slot: the slot is a hazard, the handle has the generation that
/// `theirs` tracks, and the two usages are those that cannot be merged.
pub open spec fn is_hazard<I: NewId, U: GenericUsage>(
    mine: Map<Index, TrackState<U>>,
    theirs: Map<Index, TrackState<U>>,
    hazard: Transition<I, U>,
) -> bool {
    let index = hazard.0.index_spec();
    &&& conflicts(mine, theirs, index)
    &&& hazard.0.epoch_spec() == theirs[index].epoch
    &&& hazard.1.start == mine[index].last
    &&& hazard.1.end == theirs[index].last
}

/// The test that `needs_transition` makes of a slot.
pub open spec fn pending<U>(
    mine: Map<Index, TrackState<U>>,
    theirs: Map<Index, TrackState<U>>,
) -> spec_fn(Index) -> bool {
    |index: Index| needs_transition(mine, theirs, index)
}

struct Track<U> {
    ref_count: RefCount,
    init: U,
    last: U,
    epoch: Epoch,
}

impl<U> Track<U> {
    spec fn state(self) -> TrackState<U> {
        TrackState { init: self.init, last: self.last, epoch: self.epoch }
    }
}

/// For each tracked resource of one kind: a clone of its liveness token, the
/// usage it was first seen with, the usage it was last left in, and the
/// generation of its slot. `I` is the type of the handles.
pub struct Tracker<I, U> {
    map: FastHashMap<Index, Track<U>>,
    _phantom: PhantomData<I>,
}

impl<I: NewId, U: GenericUsage> Tracker<I, U> {
    /// The tracked state, by slot.
    pub closed spec fn view(&self) -> Map<Index, TrackState<U>> {
        Map::new(|index: Index| self.map@.contains_key(index), |index: Index| self.map@[index].state())
    }

    /// Whether `id` is no stale handle: its slot is untracked, or tracked with
    /// the generation of `id`.
    pub open spec fn accepts(&self, id: I) -> bool {
        admits(self@, id.index_spec(), id.epoch_spec())
    }

    /// The tracker that tracks nothing.
    pub fn new() -> (tracker: Self)
        ensures
            tracker@ == Map::<Index, TrackState<U>>::empty(),
    {
        Tracker { map: FastHashMap::default(), _phantom: PhantomData }
    }

    /// Stops tracking the resource of `id`, and tells whether it was tracked.
    pub fn remove(&mut self, id: I) -> (removed: bool)
        requires
            old(self).accepts(id),
        ensures
            removed == old(self)@.contains_key(id.index_spec()),
            final(self)@ == old(self)@.remove(id.index_spec()),
    {
        let taken = slot_take(&mut self.map, id.index());
        taken.is_some()
    }

    /// The usage that the resource of `id` was last left in. A resource that
    /// is not tracked yet starts being tracked, with `default`.
    pub fn query(&mut self, id: I, ref_count: &RefCount, default: U) -> (answer: Query<U>)
        requires
            old(self).accepts(id),
        ensures
            answer == query_answer(old(self)@, id.index_spec(), default),
            final(self)@ == after_query(old(self)@, id.index_spec(), id.epoch_spec(), default),
    {
        let index = id.index();
        match slot_ref(&self.map, index) {
            Some(track) => {
                Query { usage: track.last, initialized: false }
            },
            None => {
                let track = Track {
                    ref_count: token_clone(ref_count),
                    init: default,
                    last: default,
                    epoch: id.epoch(),
                };
                slot_insert(&mut self.map, index, track);
                Query { usage: default, initialized: true }
            },
        }
    }

    /// Records that the resource of `id` is about to be used as `usage`, and
    /// reports what that changes; or refuses with the usage that the resource
    /// was last left in, where `permit` allows no way from that usage to
    /// `usage`. A refusal changes nothing.
    pub fn transit(&mut self, id: I, ref_count: &RefCount, usage: U, permit: TrackPermit) -> (outcome:
        Result<Tracktion<U>, U>)
        requires
            old(self).accepts(id),
        ensures
            outcome == transit_outcome(old(self)@, id.index_spec(), usage, permit),
            final(self)@ == after_transit(
                old(self)@,
                id.index_spec(),
                id.epoch_spec(),
                usage,
                permit,
            ),
    {
        proof {
            U::lawful();
        }
        let index = id.index();
        match slot_mut(&mut self.map, index) {
            None => {
                let track = Track {
                    ref_count: token_clone(ref_count),
                    init: usage,
                    last: usage,
                    epoch: id.epoch(),
                };
                slot_insert(&mut self.map, index, track);
                Ok(Tracktion::Init)
            },
            Some(track) => {
                let last = track.last;
                if usage == last {
                    Ok(Tracktion::Keep)
                } else if permit.contains(TrackPermit::extend()) && !(last | usage).is_exclusive() {
                    track.last = last | usage;
                    Ok(Tracktion::Extend { old: last })
                } else if permit.contains(TrackPermit::replace()) {
                    track.last = usage;
                    Ok(Tracktion::Replace { old: last })
                } else {
                    Err(last)
                }
            },
        }
    }

    /// Folds one entry of another tracker into this one by replacement.
    fn replace_slot(&mut self, index: Index, new: &Track<U>) -> (transition: Option<Transition<I, U>>)
        requires
            admits(old(self)@, index, new.epoch),
        ensures
            final(self)@ == old(self)@.insert(
                index,
                replaced_entry(old(self)@.get(index), new.state()),
            ),
            match transition {
                Some(transition) => {
                    &&& old(self)@.contains_key(index)
                    &&& old(self)@[index].last != new.init
                    &&& transition.0.index_spec() == index
                    &&& transition.0.epoch_spec() == new.epoch
                    &&& transition.1.start == old(self)@[index].last
                    &&& transition.1.end == new.last
                },
                None => !(old(self)@.contains_key(index) && old(self)@[index].last != new.init),
            },
    {
        proof {
            U::lawful();
        }
        match slot_mut(&mut self.map, index) {
            None => {
                let track = Track {
                    ref_count: token_clone(&new.ref_count),
                    init: new.init,
                    last: new.last,
                    epoch: new.epoch,
                };
                slot_insert(&mut self.map, index, track);
                None
            },
            Some(track) => {
                let last = track.last;
                track.last = new.last;
                if last == new.init {
                    None
                } else {
                    Some((I::new(index, new.epoch), last..new.last))
                }
            },
        }
    }

    /// Folds the entries of `other` into `self` by replacement, slot by slot
    /// in the order of `order`: a resource that `self` does not track gets the
    /// entry of `other`; one that both track is left in the usage that `other`
    /// left it in. Returned are the transitions that this asks for, in that
    /// order: one for each slot that `self` had not left in the usage that
    /// `other` started from.
    pub fn consume_by_replace_in(&mut self, other: &Self, order: &Vec<Index>) -> (transitions: Vec<
        Transition<I, U>,
    >)
        requires
            compatible(old(self)@, other@),
            order@.no_duplicates(),
        ensures
            final(self)@ == replaced_on(old(self)@, other@, order@.to_set()),
            slots_of(transitions@) == order@.filter(pending(old(self)@, other@)),
            forall|place: int|
                0 <= place < transitions@.len() ==> is_replacement(
                    old(self)@,
                    other@,
                    #[trigger] transitions@[place],
                ),
    {
        let ghost before = self@;
        let mut transitions: Vec<Transition<I, U>> = Vec::new();
        let mut count: usize = 0;
        while count < order.len()
            invariant
                count <= order.len(),
                order@.no_duplicates(),
                compatible(before, other@),
                self@ == replaced_on(before, other@, visited(order@, count as int)),
                slots_of(transitions@) == order@.take(count as int).filter(pending(before, other@)),
                forall|place: int|
                    0 <= place < transitions@.len() ==> is_replacement(
                        before,
                        other@,
                        #[trigger] transitions@[place],
                    ),
            decreases order.len() - count,
        {
            let index = order[count];
            let ghost listed = transitions@;
            proof {
                lemma_next_is_new(order@, count as int);
                assert(order@.take(count + 1) =~= order@.take(count as int).push(index));
                order@.take(count as int).lemma_filter_push(index, pending(before, other@));
            }
            match slot_ref(&other.map, index) {
                Some(new) => {
                    match self.replace_slot(index, new) {
                        Some(transition) => {
                            transitions.push(transition);
                            proof {
                                listed.lemma_push_map_commute(
                                    |transition: Transition<I, U>| transition.0.index_spec(),
                                    transition,
                                );
                            }
                        },
                        None => {},
                    }
                },
                None => {
                    assert(!other@.contains_key(index));
                },
            }
            proof {
                lemma_visited_next(order@, count as int);
            }
            count += 1;
        }
        proof {
            lemma_visited_all(order@);
            assert(order@.take(order@.len() as int) =~= order@);
        }
        transitions
    }

    /// Folds the entries of `other` into `self` by replacement: a resource
    /// that `self` does not track gets the entry of `other`; one that both
    /// track is left in the usage that `other` left it in. Returned are the
    /// transitions that this asks for, in no particular order: one for each
    /// slot that `self` had not left in the usage that `other` started from.
    /// Hazards are not looked for.
    pub fn consume_by_replace(&mut self, other: &Self) -> (transitions: Vec<Transition<I, U>>)
        requires
            compatible(old(self)@, other@),
        ensures
            final(self)@ == after_replace(old(self)@, other@),
            slots_of(transitions@).no_duplicates(),
            slots_of(transitions@).to_set() == Set::new(pending(old(self)@, other@)),
            forall|place: int|
                0 <= place < transitions@.len() ==> is_replacement(
                    old(self)@,
                    other@,
                    #[trigger] transitions@[place],
                ),
    {
        let order = slot_indices(&other.map);
        let transitions = self.consume_by_replace_in(other, &order);
        proof {
            lemma_filter_distinct(order@, pending(old(self)@, other@));
        }
        transitions
    }

    /// Folds one entry of another tracker into this one by extension.
    fn extend_slot(&mut self, index: Index, new: &Track<U>) -> (result: Result<(), Transition<I, U>>)
        requires
            admits(old(self)@, index, new.epoch),
        ensures
            match result {
                Ok(()) => {
                    &&& !(old(self)@.contains_key(index) && old(self)@[index].last != new.last
                        && union(old(self)@[index].last, new.last).exclusive())
                    &&& final(self)@ == old(self)@.insert(
                        index,
                        extended_entry(old(self)@.get(index), new.state()),
                    )
                },
                Err(hazard) => {
                    &&& old(self)@.contains_key(index)
                    &&& old(self)@[index].last != new.last
                    &&& union(old(self)@[index].last, new.last).exclusive()
                    &&& final(self)@ == old(self)@
                    &&& hazard.0.index_spec() == index
                    &&& hazard.0.epoch_spec() == new.epoch
                    &&& hazard.1.start == old(self)@[index].last
                    &&& hazard.1.end == new.last
                },
            },
    {
        proof {
            U::lawful();
        }
        match slot_mut(&mut self.map, index) {
            None => {
                let track = Track {
                    ref_count: token_clone(&new.ref_count),
                    init: new.init,
                    last: new.last,
                    epoch: new.epoch,
                };
                slot_insert(&mut self.map, index, track);
                Ok(())
            },
            Some(track) => {
                let last = track.last;
                if last != new.last {
                    let extended = last | new.last;
                    if extended.is_exclusive() {
                        return Err((I::new(index, new.epoch), last..new.last));
                    }
                    track.last = extended;
                }
                Ok(())
            },
        }
    }

    /// Folds the entries of `other` into `self` by extension, slot by slot in
    /// the order of `order`: a resource that `self` does not track gets the
    /// entry of `other`; one that both track is left in the two usages merged.
    /// The first slot whose usages cannot be merged ends the merge with that
    /// hazard; the slots before it stay merged.
    pub fn consume_by_extend_in(&mut self, other: &Self, order: &Vec<Index>) -> (result: Result<
        (),
        Transition<I, U>,
    >)
        requires
            compatible(old(self)@, other@),
            order@.no_duplicates(),
        ensures
            match result {
                Ok(()) => {
                    &&& forall|place: int|
                        0 <= place < order@.len() ==> !conflicts(
                            old(self)@,
                            other@,
                            #[trigger] order@[place],
                        )
                    &&& final(self)@ == extended_on(old(self)@, other@, order@.to_set())
                },
                Err(hazard) => exists|spot: int|
                    {
                        &&& #[trigger] first_conflict(old(self)@, other@, order@, spot)
                        &&& hazard.0.index_spec() == order@[spot]
                        &&& is_hazard(old(self)@, other@, hazard)
                        &&& final(self)@ == extended_on(
                            old(self)@,
                            other@,
                            visited(order@, spot),
                        )
                    },
            },
    {
        let ghost before = self@;
        let mut count: usize = 0;
        while count < order.len()
            invariant
                count <= order.len(),
                order@.no_duplicates(),
                before == old(self)@,
                compatible(before, other@),
                self@ == extended_on(before, other@, visited(order@, count as int)),
                forall|place: int|
                    0 <= place < count ==> !conflicts(before, other@, #[trigger] order@[place]),
            decreases order.len() - count,
        {
            let index = order[count];
            proof {
                lemma_next_is_new(order@, count as int);
            }
            match slot_ref(&other.map, index) {
                Some(new) => {
                    assert(other@.contains_key(index) && other@[index] == new.state());
                    match self.extend_slot(index, new) {
                        Ok(()) => {},
                        Err(hazard) => {
                            assert(first_conflict(before, other@, order@, count as int));
                            return Err(hazard);
                        },
                    }
                },
                None => {
                },
            }
            proof {
                lemma_visited_next(order@, count as int);
            }
            count += 1;
        }
        proof {
            lemma_visited_all(order@);
        }
        Ok(())
    }

    /// Folds the entries of `other` into `self` by extension: a resource that
    /// `self` does not track gets the entry of `other`; one that both track is
    /// left in the two usages merged. Where the usages of some slot cannot be
    /// merged, the merge ends with one such hazard; whatever was merged before
    /// it was met stays merged.
    pub fn consume_by_extend(&mut self, other: &Self) -> (result: Result<(), Transition<I, U>>)
        requires
            compatible(old(self)@, other@),
        ensures
            result is Ok <==> forall|index: Index| !conflicts(old(self)@, other@, index),
            match result {
                Ok(()) => final(self)@ == after_extend(old(self)@, other@),
                Err(hazard) => {
                    &&& is_hazard(old(self)@, other@, hazard)
                    &&& exists|done: Set<Index>|
                        {
                            &&& stopped_at(old(self)@, other@, done, hazard.0.index_spec())
                            &&& final(self)@ == #[trigger] extended_on(old(self)@, other@, done)
                        }
                },
            },
    {
        let order = slot_indices(&other.map);
        let result = self.consume_by_extend_in(other, &order);
        proof {
            if result is Err {
                let hazard = result->Err_0;
                let spot = choose|spot: int|
                    {
                        &&& #[trigger] first_conflict(old(self)@, other@, order@, spot)
                        &&& hazard.0.index_spec() == order@[spot]
                        &&& self@ == extended_on(old(self)@, other@, visited(order@, spot))
                    };
                lemma_next_is_new(order@, spot);
                assert(stopped_at(old(self)@, other@, visited(order@, spot), order@[spot]));
            }
        }
        result
    }

    /// The handles of the resources that are tracked.
    pub open spec fn handles(&self) -> Set<I> {
        Set::new(
            |id: I|
                self@.contains_key(id.index_spec()) && self@[id.index_spec()].epoch
                    == id.epoch_spec(),
        )
    }

    /// The handle of every tracked resource, each once, in no particular
    /// order.
    pub fn used(&self) -> (handles: Vec<I>)
        ensures
            handles@.no_duplicates(),
            handles@.to_set() == self.handles(),
    {
        let order = slot_indices(&self.map);
        let mut handles: Vec<I> = Vec::new();
        let mut count: usize = 0;
        while count < order.len()
            invariant
                count <= order.len(),
                order@.to_set() == self.map@.dom(),
                handles@.len() == count,
                forall|place: int|
                    0 <= place < count ==> {
                        &&& (#[trigger] handles@[place]).index_spec() == order@[place]
                        &&& handles@[place].epoch_spec() == self@[order@[place]].epoch
                    },
            decreases order.len() - count,
        {
            let index = order[count];
            match slot_ref(&self.map, index) {
                Some(track) => {
                    handles.push(I::new(index, track.epoch));
                },
                None => {
                    unreached::<()>();
                },
            }
            count += 1;
        }
        proof {
            assert forall|id: I| self.handles().contains(id) implies handles@.contains(id) by {
                let place = choose|place: int|
                    0 <= place < order@.len() && order@[place] == id.index_spec();
                I::same_pair(handles@[place], id);
            }
        }
        handles
    }

    /// Tells whether `id` is no stale handle.
    pub fn is_accepted(&self, id: &I) -> (accepted: bool)
        ensures
            accepted == self.accepts(*id),
    {
        match slot_ref(&self.map, id.index()) {
            Some(track) => track.epoch == id.epoch(),
            None => true,
        }
    }

    /// Tells whether `other` can be merged into `self`: whether every slot
    /// that both track, both track with the same generation.
    pub fn is_compatible(&self, other: &Self) -> (agreed: bool)
        ensures
            agreed == compatible(self@, other@),
    {
        let order = slot_indices(&other.map);
        let mut count: usize = 0;
        while count < order.len()
            invariant
                count <= order.len(),
                order@.to_set() == other.map@.dom(),
                forall|place: int|
                    0 <= place < count ==> admits(
                        self@,
                        #[trigger] order@[place],
                        other@[order@[place]].epoch,
                    ),
            decreases order.len() - count,
        {
            let index = order[count];
            let theirs = match slot_ref(&other.map, index) {
                Some(track) => track.epoch,
                None => unreached(),
            };
            match slot_ref(&self.map, index) {
                Some(track) => {
                    if track.epoch != theirs {
                        assert(other@.contains_key(index) && !admits(self@, index, other@[index].epoch));
                        return false;
                    }
                },
                None => {},
            }
            count += 1;
        }
        true
    }
}

impl<U: GenericUsage> Tracker<Id, U> {
    /// Looks up the resource of `id` and records that it is about to be used
    /// as `usage`, as `transit` does.
    fn _get_with_usage<'a, T: 'a + Borrow<RefCount>>(
        &mut self,
        storage: &'a Storage<T>,
        id: Id,
        usage: U,
        permit: TrackPermit,
    ) -> (found: Result<(&'a T, Tracktion<U>), U>)
        requires
            storage.holds(id),
            old(self).accepts(id),
        ensures
            final(self)@ == after_transit(
                old(self)@,
                id.index_spec(),
                id.epoch_spec(),
                usage,
                permit,
            ),
            match found {
                Ok((item, tracktion)) => {
                    &&& *item == storage@[id.index_spec()].0
                    &&& transit_outcome(old(self)@, id.index_spec(), usage, permit) == Ok::<
                        Tracktion<U>,
                        U,
                    >(tracktion)
                },
                Err(last) => transit_outcome(old(self)@, id.index_spec(), usage, permit) == Err::<
                    Tracktion<U>,
                    U,
                >(last),
            },
    {
        let item = storage.get(id);
        match self.transit(id, lent_ref_count(item), usage, permit) {
            Ok(tracktion) => Ok((item, tracktion)),
            Err(last) => Err(last),
        }
    }

    /// Looks up the resource of `id` and records that it is about to be used
    /// as `usage` too, beside what it is used as already. Where the two cannot
    /// be held at once, this is a hazard, which names the usage that the
    /// resource was last left in.
    pub fn get_with_extended_usage<'a, T: 'a + Borrow<RefCount>>(
        &mut self,
        storage: &'a Storage<T>,
        id: Id,
        usage: U,
    ) -> (found: Result<&'a T, U>)
        requires
            storage.holds(id),
            old(self).accepts(id),
        ensures
            final(self)@ == after_transit(
                old(self)@,
                id.index_spec(),
                id.epoch_spec(),
                usage,
                TrackPermit::extend(),
            ),
            found == match transit_outcome(
                old(self)@,
                id.index_spec(),
                usage,
                TrackPermit::extend(),
            ) {
                Ok(_) => Ok::<&T, U>(&storage@[id.index_spec()].0),
                Err(last) => Err::<&T, U>(last),
            },
    {
        match self._get_with_usage(storage, id, usage, TrackPermit::extend()) {
            Ok((item, _)) => Ok(item),
            Err(last) => Err(last),
        }
    }
    /// Looks up the resource of `id` and records that it is about to be used
    /// as `usage` instead of what it was used as. Returned with the resource
    /// is the usage that it leaves, where that is another one.
    pub fn get_with_replaced_usage<'a, T: 'a + Borrow<RefCount>>(
        &mut self,
        storage: &'a Storage<T>,
        id: Id,
        usage: U,
    ) -> (found: Result<(&'a T, Option<U>), U>)
        requires
            storage.holds(id),
            old(self).accepts(id),
        ensures
            final(self)@ == after_transit(
                old(self)@,
                id.index_spec(),
                id.epoch_spec(),
                usage,
                TrackPermit::replace(),
            ),
            found == match transit_outcome(
                old(self)@,
                id.index_spec(),
                usage,
                TrackPermit::replace(),
            ) {
                Ok(tracktion) => Ok::<(&T, Option<U>), U>(
                    (&storage@[id.index_spec()].0, tracktion.source()),
                ),
                Err(last) => Err::<(&T, Option<U>), U>(last),
            },
    {
        proof {
            assert(PERMIT_REPLACE & PERMIT_EXTEND != PERMIT_EXTEND) by (bit_vector);
        }
        match self._get_with_usage(storage, id, usage, TrackPermit::replace()) {
            Ok((item, tracktion)) => {
                let prior = match tracktion {
                    Tracktion::Init | Tracktion::Keep => None,
                    Tracktion::Extend { .. } => unreached(),
                    Tracktion::Replace { old } => Some(old),
                };
                Ok((item, prior))
            },
            Err(last) => Err(last),
        }
    }
}

/// The slot at place `count` of a list without repeats is none of those
/// before it.
proof fn lemma_next_is_new(order: Seq<Index>, count: int)
    requires
        order.no_duplicates(),
        0 <= count < order.len(),
    ensures
        !visited(order, count).contains(order[count]),
{
}

/// One place further, the visited slots are those of before and the slot at
/// that place.
proof fn lemma_visited_next(order: Seq<Index>, count: int)
    requires
        0 <= count < order.len(),
    ensures
        visited(order, count + 1) == visited(order, count).insert(order[count]),
{
}

/// Filtering a list without repeats leaves a list without repeats, which
/// holds the slots of the list that pass the test.
proof fn lemma_filter_distinct(order: Seq<Index>, test: spec_fn(Index) -> bool)
    requires
        order.no_duplicates(),
    ensures
        order.filter(test).no_duplicates(),
        forall|index: Index|
            order.filter(test).contains(index) <==> order.contains(index) && test(index),
    decreases order.len(),
{
    reveal(Seq::filter);
    if order.len() > 0 {
        let front = order.drop_last();
        let last = order.last();
        let kept = front.filter(test);
        lemma_filter_distinct(front, test);
        assert forall|index: Index| order.contains(index) <==> front.contains(index) || index
            == last by {
            if order.contains(index) {
                let place = choose|place: int| 0 <= place < order.len() && order[place] == index;
                if place < front.len() {
                    assert(front[place] == index);
                }
            }
            if front.contains(index) {
                let place = choose|place: int| 0 <= place < front.len() && front[place] == index;
                assert(order[place] == index);
            }
        }
        assert(!front.contains(last)) by {
            if front.contains(last) {
                let place = choose|place: int| 0 <= place < front.len() && front[place] == last;
                assert(order[place] == order[order.len() - 1]);
            }
        }
        if test(last) {
            assert(order.filter(test) == kept.push(last));
            assert forall|index: Index| kept.push(last).contains(index) <==> kept.contains(index)
                || index == last by {
                if kept.push(last).contains(index) {
                    let place = choose|place: int|
                        0 <= place < kept.len() + 1 && kept.push(last)[place] == index;
                    if place < kept.len() {
                        assert(kept[place] == index);
                    }
                }
                if kept.contains(index) {
                    let place = choose|place: int| 0 <= place < kept.len() && kept[place] == index;
                    assert(kept.push(last)[place] == index);
                }
                assert(kept.push(last)[kept.len() as int] == last);
            }
        }
    }
}

/// At the end of a list, the visited slots are all its slots.
proof fn lemma_visited_all(order: Seq<Index>)
    ensures
        visited(order, order.len() as int) == order.to_set(),
{
}

} // verus!
