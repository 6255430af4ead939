use std::ops::BitOr;
use usage_tracker::{GenericUsage, NewId, RefCount, TrackPermit, Tracker, Tracktion};

/// A usage with one reading mode per bit below the top one, and the top bit
/// for writing.
#[derive(Clone, Copy, Debug, PartialEq)]
struct Access(u8);

impl BitOr for Access {
    type Output = Access;

    fn bitor(self, rhs: Access) -> Access {
        Access(self.0 | rhs.0)
    }
}

impl GenericUsage for Access {
    fn exclusive(&self) -> bool {
        self.0 & 0x80 != 0
    }

    fn is_exclusive(&self) -> bool {
        self.0 & 0x80 != 0
    }

    fn lawful() {
    }
}

/// A handle that packs the slot and the generation into one word.
#[derive(Clone, Copy, Debug, PartialEq)]
struct Packed(u64);

impl NewId for Packed {
    fn new(index: u32, epoch: u32) -> Self {
        Packed(((epoch as u64) << 32) | index as u64)
    }

    fn index_spec(&self) -> u32 {
        self.0 as u32
    }

    fn epoch_spec(&self) -> u32 {
        (self.0 >> 32) as u32
    }

    fn index(&self) -> u32 {
        self.0 as u32
    }

    fn epoch(&self) -> u32 {
        (self.0 >> 32) as u32
    }

    fn same_pair(_: Self, _: Self) {
    }
}

#[test]
fn own_usage_and_handle_types_plug_in() {
    let life = RefCount::new(());
    let mut tracker: Tracker<Packed, Access> = Tracker::new();
    let id = Packed::new(3, 9);
    assert_eq!(tracker.transit(id, &life, Access(1), TrackPermit::extend()), Ok(Tracktion::Init));
    assert_eq!(
        tracker.transit(id, &life, Access(2), TrackPermit::extend()),
        Ok(Tracktion::Extend { old: Access(1) })
    );
    assert_eq!(tracker.transit(id, &life, Access(0x80), TrackPermit::extend()), Err(Access(3)));
    assert_eq!(
        tracker.transit(id, &life, Access(0x80), TrackPermit::replace()),
        Ok(Tracktion::Replace { old: Access(3) })
    );
    assert_eq!(tracker.used(), vec![Packed((9u64 << 32) | 3)]);
}
