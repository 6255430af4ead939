//! Generational handles, the liveness token that resources carry, and the
//! store that resolves a handle to its resource.

use crate::slots::{slot_insert, slot_ref};
use gfx_hal::backend::FastHashMap;
use std::sync::Arc;
use vstd::prelude::*;

verus! {

/// The slot that a resource occupies.
pub type Index = u32;

/// The generation of a slot; it grows whenever the slot is recycled.
pub type Epoch = u32;

/// A type of handles: each handle is a pair of a slot and a generation, and
/// nothing more.
pub trait NewId: Sized {
    spec fn index_spec(&self) -> Index;

    spec fn epoch_spec(&self) -> Epoch;

    fn new(index: Index, epoch: Epoch) -> (id: Self)
        ensures
            id.index_spec() == index,
            id.epoch_spec() == epoch,
    ;

    fn index(&self) -> (index: Index)
        ensures
            index == self.index_spec(),
    ;

    fn epoch(&self) -> (epoch: Epoch)
        ensures
            epoch == self.epoch_spec(),
    ;

    /// Two handles with the same slot and the same generation are the same
    /// handle.
    proof fn same_pair(a: Self, b: Self)
        requires
            a.index_spec() == b.index_spec(),
            a.epoch_spec() == b.epoch_spec(),
        ensures
            a == b,
    ;
}

/// The plain handle: a slot and its generation.
#[derive(Clone, Copy, Debug, Hash, PartialEq, Eq, Structural)]
pub struct Id(Index, Epoch);

impl NewId for Id {
    closed spec fn index_spec(&self) -> Index {
        self.0
    }

    closed spec fn epoch_spec(&self) -> Epoch {
        self.1
    }

    fn new(index: Index, epoch: Epoch) -> (id: Self) {
        Id(index, epoch)
    }

    fn index(&self) -> (index: Index) {
        self.0
    }

    fn epoch(&self) -> (epoch: Epoch) {
        self.1
    }

    proof fn same_pair(a: Self, b: Self) {
    }
}

/// The liveness token of a resource: a shared count of those who hold the
/// resource. Whoever tracks the resource holds a clone of its token, and gives
/// it back by dropping the clone; nobody here ever frees a resource.
pub type RefCount = Arc<()>;

/// The resources of one kind, each stored under its slot together with the
/// generation it was stored with.
pub struct Storage<T> {
    map: FastHashMap<Index, (T, Epoch)>,
}

impl<T> Storage<T> {
    /// The stored resources and their generations, by slot.
    pub closed spec fn view(&self) -> Map<Index, (T, Epoch)> {
        self.map@
    }

    /// Whether `id` names a stored resource: its slot is occupied and the
    /// generations agree.
    pub open spec fn holds(&self, id: Id) -> bool {
        &&& self@.contains_key(id.index_spec())
        &&& self@[id.index_spec()].1 == id.epoch_spec()
    }

    /// The store that holds nothing.
    pub fn new() -> (storage: Self)
        ensures
            storage@ == Map::<Index, (T, Epoch)>::empty(),
    {
        Storage { map: FastHashMap::default() }
    }

    /// Stores `value` under `id`, and hands back what the slot held before.
    pub fn insert(&mut self, id: Id, value: T) -> (replaced: Option<(T, Epoch)>)
        ensures
            final(self)@ == old(self)@.insert(id.index_spec(), (value, id.epoch_spec())),
            replaced == old(self)@.get(id.index_spec()),
    {
        slot_insert(&mut self.map, id.index(), (value, id.epoch()))
    }

    /// Whether `id` names a stored resource.
    pub fn contains(&self, id: Id) -> (found: bool)
        ensures
            found == self.holds(id),
    {
        match slot_ref(&self.map, id.index()) {
            Some(pair) => pair.1 == id.epoch(),
            None => false,
        }
    }

    /// The resource that `id` names.
    pub fn get(&self, id: Id) -> (item: &T)
        requires
            self.holds(id),
        ensures
            *item == self@[id.index_spec()].0,
    {
        match slot_ref(&self.map, id.index()) {
            Some(pair) => &pair.0,
            None => unreached(),
        }
    }
}

} // verus!
