//! The tracked state as a mathematical map, and the rules by which an access
//! or a merge changes it. The contracts of the trackers are stated over the
//! functions of this file.

use crate::hub::{Epoch, Index};
use crate::outcome::{Query, Tracktion};
use crate::permit::TrackPermit;
use crate::usage::{union, GenericUsage};
use vstd::prelude::*;

verus! {

/// What is tracked of one resource: the usage it was first seen with, the
/// usage it was last left in, and the generation of its slot.
pub struct TrackState<U> {
    pub init: U,
    pub last: U,
    pub epoch: Epoch,
}

/// The state of a resource that has just been seen for the first time.
pub open spec fn fresh<U>(usage: U, epoch: Epoch) -> TrackState<U> {
    TrackState { init: usage, last: usage, epoch }
}

/// Whether a handle may be used on `entries`: if its slot is tracked, it is
/// tracked with the generation of the handle. Any other handle is stale.
pub open spec fn admits<U>(entries: Map<Index, TrackState<U>>, index: Index, epoch: Epoch) -> bool {
    entries.contains_key(index) ==> entries[index].epoch == epoch
}

/// What asking for `usage` does to a resource last left in `last`: nothing if
/// the two are the same; else an extension, where that is permitted and the
/// merged usage does not write; else a replacement, where that is permitted;
/// else a hazard, which names `last`.
pub open spec fn decide<U: GenericUsage>(last: U, usage: U, permit: TrackPermit) -> Result<
    Tracktion<U>,
    U,
> {
    if usage == last {
        Ok(Tracktion::Keep)
    } else if permit.allows_extend() && !union(last, usage).exclusive() {
        Ok(Tracktion::Extend { old: last })
    } else if permit.allows_replace() {
        Ok(Tracktion::Replace { old: last })
    } else {
        Err(last)
    }
}

/// The usage that the resource is left in by that access.
pub open spec fn settle<U: GenericUsage>(last: U, usage: U, permit: TrackPermit) -> U {
    match decide(last, usage, permit) {
        Ok(Tracktion::Extend { .. }) => union(last, usage),
        Ok(Tracktion::Replace { .. }) => usage,
        _ => last,
    }
}

/// What an access to the resource in slot `index` reports.
pub open spec fn transit_outcome<U: GenericUsage>(
    entries: Map<Index, TrackState<U>>,
    index: Index,
    usage: U,
    permit: TrackPermit,
) -> Result<Tracktion<U>, U> {
    if entries.contains_key(index) {
        decide(entries[index].last, usage, permit)
    } else {
        Ok(Tracktion::Init)
    }
}

/// The tracked state after that access.
pub open spec fn after_transit<U: GenericUsage>(
    entries: Map<Index, TrackState<U>>,
    index: Index,
    epoch: Epoch,
    usage: U,
    permit: TrackPermit,
) -> Map<Index, TrackState<U>> {
    if entries.contains_key(index) {
        let entry = entries[index];
        entries.insert(index, TrackState { last: settle(entry.last, usage, permit), ..entry })
    } else {
        entries.insert(index, fresh(usage, epoch))
    }
}

/// What a query for the resource in slot `index` reports, `default` being the
/// usage to start with where the resource is not tracked yet.
pub open spec fn query_answer<U>(entries: Map<Index, TrackState<U>>, index: Index, default: U) -> Query<
    U,
> {
    if entries.contains_key(index) {
        Query { usage: entries[index].last, initialized: false }
    } else {
        Query { usage: default, initialized: true }
    }
}

/// The tracked state after that query.
pub open spec fn after_query<U>(
    entries: Map<Index, TrackState<U>>,
    index: Index,
    epoch: Epoch,
    default: U,
) -> Map<Index, TrackState<U>> {
    if entries.contains_key(index) {
        entries
    } else {
        entries.insert(index, fresh(default, epoch))
    }
}

/// Whether two trackers can be merged: a slot that both track, both track
/// with the same generation.
pub open spec fn compatible<U>(
    mine: Map<Index, TrackState<U>>,
    theirs: Map<Index, TrackState<U>>,
) -> bool {
    forall|index: Index| #[trigger]
        theirs.contains_key(index) ==> admits(mine, index, theirs[index].epoch)
}

/// The entry that a slot gets when a scope that left it as `theirs` is folded
/// in by replacement: the entry of that scope where the slot was untracked,
/// else the old entry with the last usage of that scope.
pub open spec fn replaced_entry<U>(mine: Option<TrackState<U>>, theirs: TrackState<U>) -> TrackState<
    U,
> {
    match mine {
        Some(entry) => TrackState { last: theirs.last, ..entry },
        None => theirs,
    }
}

/// Whether folding in slot `index` by replacement asks for a transition: both
/// track the slot, and it was not left here in the usage that the other scope
/// started from.
pub open spec fn needs_transition<U>(
    mine: Map<Index, TrackState<U>>,
    theirs: Map<Index, TrackState<U>>,
    index: Index,
) -> bool {
    &&& mine.contains_key(index)
    &&& theirs.contains_key(index)
    &&& mine[index].last != theirs[index].init
}

/// `mine` after the slots of `theirs` that are in `done` have been folded in
/// by replacement.
pub open spec fn replaced_on<U>(
    mine: Map<Index, TrackState<U>>,
    theirs: Map<Index, TrackState<U>>,
    done: Set<Index>,
) -> Map<Index, TrackState<U>> {
    Map::new(
        |index: Index| mine.contains_key(index) || (done.contains(index) && theirs.contains_key(index)),
        |index: Index|
            if done.contains(index) && theirs.contains_key(index) {
                replaced_entry(mine.get(index), theirs[index])
            } else {
                mine[index]
            },
    )
}

/// `mine` after all of `theirs` has been folded in by replacement.
pub open spec fn after_replace<U>(
    mine: Map<Index, TrackState<U>>,
    theirs: Map<Index, TrackState<U>>,
) -> Map<Index, TrackState<U>> {
    replaced_on(mine, theirs, theirs.dom())
}

/// The entry that a slot gets when a scope that left it as `theirs` is folded
/// in by extension: the entry of that scope where the slot was untracked,
/// else the old entry, its last usage merged with that of the other scope
/// where the two differ.
pub open spec fn extended_entry<U: GenericUsage>(
    mine: Option<TrackState<U>>,
    theirs: TrackState<U>,
) -> TrackState<U> {
    match mine {
        Some(entry) => if entry.last == theirs.last {
            entry
        } else {
            TrackState { last: union(entry.last, theirs.last), ..entry }
        },
        None => theirs,
    }
}

/// Whether folding in slot `index` by extension is a hazard: both track the
/// slot, in different usages, and the two merged would write.
pub open spec fn conflicts<U: GenericUsage>(
    mine: Map<Index, TrackState<U>>,
    theirs: Map<Index, TrackState<U>>,
    index: Index,
) -> bool {
    &&& mine.contains_key(index)
    &&& theirs.contains_key(index)
    &&& mine[index].last != theirs[index].last
    &&& union(mine[index].last, theirs[index].last).exclusive()
}

/// `mine` after the slots of `theirs` that are in `done` have been folded in
/// by extension.
pub open spec fn extended_on<U: GenericUsage>(
    mine: Map<Index, TrackState<U>>,
    theirs: Map<Index, TrackState<U>>,
    done: Set<Index>,
) -> Map<Index, TrackState<U>> {
    Map::new(
        |index: Index| mine.contains_key(index) || (done.contains(index) && theirs.contains_key(index)),
        |index: Index|
            if done.contains(index) && theirs.contains_key(index) {
                extended_entry(mine.get(index), theirs[index])
            } else {
                mine[index]
            },
    )
}

/// `mine` after all of `theirs` has been folded in by extension.
pub open spec fn after_extend<U: GenericUsage>(
    mine: Map<Index, TrackState<U>>,
    theirs: Map<Index, TrackState<U>>,
) -> Map<Index, TrackState<U>> {
    extended_on(mine, theirs, theirs.dom())
}

/// Whether `spot` is the first place of `order` whose slot is a hazard.
pub open spec fn first_conflict<U: GenericUsage>(
    mine: Map<Index, TrackState<U>>,
    theirs: Map<Index, TrackState<U>>,
    order: Seq<Index>,
    spot: int,
) -> bool {
    &&& 0 <= spot < order.len()
    &&& conflicts(mine, theirs, order[spot])
    &&& forall|earlier: int| 0 <= earlier < spot ==> !conflicts(mine, theirs, #[trigger] order[earlier])
}

/// Whether a merge by extension can have folded in the slots in `done` before
/// it stopped at the slot `hazard`: that slot is not among them, and none of
/// them is a hazard.
pub open spec fn stopped_at<U: GenericUsage>(
    mine: Map<Index, TrackState<U>>,
    theirs: Map<Index, TrackState<U>>,
    done: Set<Index>,
    hazard: Index,
) -> bool {
    &&& !done.contains(hazard)
    &&& forall|index: Index| done.contains(index) ==> !conflicts(mine, theirs, index)
}

/// The slots at the first `count` places of `order`.
pub open spec fn visited(order: Seq<Index>, count: int) -> Set<Index> {
    Set::new(|index: Index| exists|place: int| 0 <= place < count && #[trigger] order[place] == index)
}

} // verus!
