//! What follows from the rules of the model: properties of single accesses,
//! of accesses in a row, and of traversals.

use crate::hub::{Epoch, Index, NewId};
use crate::model::{
    after_extend, after_query, after_replace, after_transit, conflicts, decide, fresh,
    needs_transition, query_answer, settle, transit_outcome, TrackState,
};
use crate::outcome::{Query, Tracktion};
use crate::permit::TrackPermit;
use crate::tracker::Tracker;
use crate::usage::{union, GenericUsage};
use vstd::prelude::*;

verus! {

/// The usages of a list merged into one, from the first on.
pub open spec fn merged<U: GenericUsage>(usages: Seq<U>) -> U
    decreases usages.len(),
{
    if usages.len() <= 1 {
        usages[0]
    } else {
        union(merged(usages.drop_last()), usages.last())
    }
}

/// The state after the resource in slot `index` has been accessed with each
/// usage of `usages` in turn.
pub open spec fn after_accesses<U: GenericUsage>(
    entries: Map<Index, TrackState<U>>,
    index: Index,
    epoch: Epoch,
    usages: Seq<U>,
    permit: TrackPermit,
) -> Map<Index, TrackState<U>>
    decreases usages.len(),
{
    if usages.len() == 0 {
        entries
    } else {
        after_transit(
            after_accesses(entries, index, epoch, usages.drop_last(), permit),
            index,
            epoch,
            usages.last(),
            permit,
        )
    }
}

/// Whether any two usages of the list, at different places, can be held at
/// once.
pub open spec fn pairwise_shared<U: GenericUsage>(usages: Seq<U>) -> bool {
    forall|one: int, other: int|
        0 <= one < other < usages.len() ==> !union(
            #[trigger] usages[one],
            #[trigger] usages[other],
        ).exclusive()
}

/// In a list of two or more usages of which any two can be held at once, no
/// usage writes.
proof fn lemma_shared_means_none_writes<U: GenericUsage>(usages: Seq<U>, place: int)
    requires
        pairwise_shared(usages),
        usages.len() >= 2,
        0 <= place < usages.len(),
    ensures
        !usages[place].exclusive(),
{
    U::lawful();
    if place == 0 {
        assert(!union(usages[0], usages[1]).exclusive());
    } else {
        assert(!union(usages[0], usages[place]).exclusive());
    }
}

/// Usages that do not write merge into one that does not write.
proof fn lemma_merged_does_not_write<U: GenericUsage>(usages: Seq<U>)
    requires
        usages.len() >= 1,
        forall|place: int| 0 <= place < usages.len() ==> !(#[trigger] usages[place]).exclusive(),
    ensures
        !merged(usages).exclusive(),
    decreases usages.len(),
{
    U::lawful();
    if usages.len() > 1 {
        let front = usages.drop_last();
        assert(forall|place: int|
            0 <= place < front.len() ==> !(#[trigger] front[place]).exclusive());
        lemma_merged_does_not_write(front);
    }
}

/// The step of the law below: after the accesses the resource is tracked in
/// the merged usage, and the last of them was no hazard.
proof fn lemma_accesses_step<U: GenericUsage>(
    entries: Map<Index, TrackState<U>>,
    index: Index,
    epoch: Epoch,
    usages: Seq<U>,
    permit: TrackPermit,
)
    requires
        !entries.contains_key(index),
        usages.len() >= 1,
        permit.allows_extend(),
        pairwise_shared(usages),
    ensures
        after_accesses(entries, index, epoch, usages, permit).contains_key(index),
        after_accesses(entries, index, epoch, usages, permit)[index].last == merged(usages),
        transit_outcome(
            after_accesses(entries, index, epoch, usages.drop_last(), permit),
            index,
            usages.last(),
            permit,
        ) is Ok,
    decreases usages.len(),
{
    U::lawful();
    let front = usages.drop_last();
    if usages.len() > 1 {
        assert(pairwise_shared(front));
        lemma_accesses_step(entries, index, epoch, front, permit);
        assert forall|place: int| 0 <= place < front.len() implies !(
        #[trigger] front[place]).exclusive() by {
            lemma_shared_means_none_writes(usages, place);
        }
        lemma_shared_means_none_writes(usages, usages.len() - 1);
        lemma_merged_does_not_write(front);
    }
}

/// Accesses in a row that all permit extending, with usages of which any two
/// can be held at once, meet no hazard, and leave the resource in all the
/// usages merged.
pub proof fn lemma_extending_accesses_merge<U: GenericUsage>(
    entries: Map<Index, TrackState<U>>,
    index: Index,
    epoch: Epoch,
    usages: Seq<U>,
    permit: TrackPermit,
)
    requires
        !entries.contains_key(index),
        usages.len() >= 1,
        permit.allows_extend(),
        pairwise_shared(usages),
    ensures
        forall|count: int|
            0 <= count < usages.len() ==> (#[trigger] transit_outcome(
                after_accesses(entries, index, epoch, usages.take(count), permit),
                index,
                usages[count],
                permit,
            )) is Ok,
        after_accesses(entries, index, epoch, usages, permit).contains_key(index),
        after_accesses(entries, index, epoch, usages, permit)[index].last == merged(usages),
{
    lemma_accesses_step(entries, index, epoch, usages, permit);
    assert forall|count: int| 0 <= count < usages.len() implies (#[trigger] transit_outcome(
        after_accesses(entries, index, epoch, usages.take(count), permit),
        index,
        usages[count],
        permit,
    )) is Ok by {
        let upto = usages.take(count + 1);
        assert(pairwise_shared(upto));
        lemma_accesses_step(entries, index, epoch, upto, permit);
        assert(upto.drop_last() =~= usages.take(count));
    }
}

/// Asking for the usage that a resource is in already keeps it, whatever the
/// permit: the usages are compared before the permit is looked at.
pub proof fn lemma_same_usage_keeps<U: GenericUsage>(
    entries: Map<Index, TrackState<U>>,
    index: Index,
    epoch: Epoch,
    permit: TrackPermit,
)
    requires
        entries.contains_key(index),
    ensures
        transit_outcome(entries, index, entries[index].last, permit) == Ok::<Tracktion<U>, U>(
            Tracktion::Keep,
        ),
        after_transit(entries, index, epoch, entries[index].last, permit) == entries,
{
}

/// The first query for a resource starts its tracking, with the default
/// given as its first and its last usage; a second query right after reports
/// that usage, starts nothing and changes nothing.
pub proof fn lemma_query_twice<U>(
    entries: Map<Index, TrackState<U>>,
    index: Index,
    epoch: Epoch,
    default: U,
    again: U,
)
    requires
        !entries.contains_key(index),
    ensures
        query_answer(entries, index, default) == (Query { usage: default, initialized: true }),
        after_query(entries, index, epoch, default) == entries.insert(index, fresh(default, epoch)),
        query_answer(after_query(entries, index, epoch, default), index, again) == (Query {
            usage: default,
            initialized: false,
        }),
        after_query(after_query(entries, index, epoch, default), index, epoch, again)
            == after_query(entries, index, epoch, default),
{
}

/// Once a resource has been removed, a query for it starts its tracking
/// anew.
pub proof fn lemma_query_after_remove<U>(
    entries: Map<Index, TrackState<U>>,
    index: Index,
    default: U,
)
    ensures
        query_answer(entries.remove(index), index, default) == (Query {
            usage: default,
            initialized: true,
        }),
{
}

/// Where neither the usage that a resource is in nor the one asked for
/// writes, a permit to extend is enough: the access is no hazard, and leaves
/// the resource in the two merged.
pub proof fn lemma_shared_usages_extend<U: GenericUsage>(first: U, second: U, permit: TrackPermit)
    requires
        !first.exclusive(),
        !second.exclusive(),
        permit.allows_extend(),
    ensures
        decide(first, second, permit) is Ok,
        settle(first, second, permit) == union(first, second),
{
    U::lawful();
}

/// Where the usage that a resource is in or the one asked for writes, and the
/// two differ, extending is out: the access replaces the usage where that is
/// permitted, and is a hazard that names the usage the resource is in where
/// it is not.
pub proof fn lemma_exclusive_usage_conflicts<U: GenericUsage>(
    first: U,
    second: U,
    permit: TrackPermit,
)
    requires
        first != second,
        first.exclusive() || second.exclusive(),
    ensures
        permit.allows_replace() ==> decide(first, second, permit) == Ok::<Tracktion<U>, U>(
            Tracktion::Replace { old: first },
        ) && settle(first, second, permit) == second,
        !permit.allows_replace() ==> decide(first, second, permit) == Err::<Tracktion<U>, U>(first)
            && settle(first, second, permit) == first,
{
    U::lawful();
}

/// Folding in a scope by replacement leaves a resource that both track in
/// the usage that the scope left it in, and asks for a transition exactly
/// when the resource was not left here in the usage that the scope started
/// from; what the scope did after its start plays no part in that.
pub proof fn lemma_replace_compares_with_start<U: GenericUsage>(
    mine: Map<Index, TrackState<U>>,
    theirs: Map<Index, TrackState<U>>,
    index: Index,
)
    requires
        mine.contains_key(index),
        theirs.contains_key(index),
    ensures
        after_replace(mine, theirs)[index].last == theirs[index].last,
        after_replace(mine, theirs)[index].init == mine[index].init,
        needs_transition(mine, theirs, index) <==> mine[index].last != theirs[index].init,
{
}

/// Folding in a scope by extension is a hazard for a resource that both
/// track exactly when the two usages differ and one of them writes; where it
/// is none, the resource is left in the two usages merged, which for equal
/// usages is the usage itself.
pub proof fn lemma_extend_conflicts_on_writes<U: GenericUsage>(
    mine: Map<Index, TrackState<U>>,
    theirs: Map<Index, TrackState<U>>,
    index: Index,
)
    requires
        mine.contains_key(index),
        theirs.contains_key(index),
    ensures
        conflicts(mine, theirs, index) <==> mine[index].last != theirs[index].last && (
        mine[index].last.exclusive() || theirs[index].last.exclusive()),
        after_extend(mine, theirs)[index].last == union(mine[index].last, theirs[index].last),
{
    U::lawful();
}

/// Two traversals of the tracked handles, each without repeats and each of
/// all of them, are as long as one another and hold the same handles.
pub proof fn lemma_traversals_agree<I: NewId, U: GenericUsage>(
    tracker: Tracker<I, U>,
    one: Seq<I>,
    other: Seq<I>,
)
    requires
        one.no_duplicates(),
        one.to_set() == tracker.handles(),
        other.no_duplicates(),
        other.to_set() == tracker.handles(),
    ensures
        one.len() == other.len(),
        forall|id: I| one.contains(id) <==> other.contains(id),
{
    one.unique_seq_to_set();
    other.unique_seq_to_set();
    assert forall|id: I| one.contains(id) <==> other.contains(id) by {
        assert(other.to_set().contains(id) <==> other.contains(id));
    }
}

} // verus!
