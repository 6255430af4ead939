use std::sync::Arc;
use std::borrow::Borrow;
use usage_tracker::{
    BufferTracker, BufferUsageFlags, Id, NewId, RefCount, Storage, TrackPermit, Tracktion,
};

#[derive(Debug)]
struct Buffer {
    size: u32,
    life: RefCount,
}

impl Borrow<RefCount> for Buffer {
    fn borrow(&self) -> &RefCount {
        &self.life
    }
}

fn buffer(size: u32) -> Buffer {
    Buffer { size, life: RefCount::new(()) }
}

#[test]
fn storage_holds_what_was_inserted() {
    let mut storage: Storage<Buffer> = Storage::new();
    assert!(!storage.contains(Id::new(1, 1)));
    assert!(storage.insert(Id::new(1, 1), buffer(10)).is_none());
    assert!(storage.insert(Id::new(2, 4), buffer(20)).is_none());
    assert!(storage.contains(Id::new(1, 1)));
    assert!(storage.contains(Id::new(2, 4)));
    assert!(!storage.contains(Id::new(2, 3)));
    assert!(!storage.contains(Id::new(3, 1)));
    assert_eq!(storage.get(Id::new(1, 1)).size, 10);
    assert_eq!(storage.get(Id::new(2, 4)).size, 20);
}

#[test]
fn storage_insert_hands_back_the_old_resource() {
    let mut storage: Storage<Buffer> = Storage::new();
    storage.insert(Id::new(1, 1), buffer(10));
    let (old, epoch) = storage.insert(Id::new(1, 2), buffer(30)).unwrap();
    assert_eq!(old.size, 10);
    assert_eq!(epoch, 1);
    assert!(!storage.contains(Id::new(1, 1)));
    assert_eq!(storage.get(Id::new(1, 2)).size, 30);
}

#[test]
fn extended_usage_returns_the_resource() {
    let mut storage: Storage<Buffer> = Storage::new();
    let id = Id::new(1, 1);
    storage.insert(id, buffer(64));
    let mut tracker = BufferTracker::new();
    let found = tracker.get_with_extended_usage(&storage, id, BufferUsageFlags::index());
    assert_eq!(found.unwrap().size, 64);
    let found = tracker.get_with_extended_usage(&storage, id, BufferUsageFlags::vertex());
    assert_eq!(found.unwrap().size, 64);
    let life = RefCount::new(());
    assert_eq!(
        tracker.transit(
            id,
            &life,
            BufferUsageFlags::index() | BufferUsageFlags::vertex(),
            TrackPermit::empty()
        ),
        Ok(Tracktion::Keep)
    );
}

#[test]
fn extended_usage_reports_the_hazard() {
    let mut storage: Storage<Buffer> = Storage::new();
    let id = Id::new(1, 1);
    storage.insert(id, buffer(64));
    let mut tracker = BufferTracker::new();
    tracker.get_with_extended_usage(&storage, id, BufferUsageFlags::index()).unwrap();
    let found = tracker.get_with_extended_usage(&storage, id, BufferUsageFlags::storage());
    assert_eq!(found.unwrap_err(), BufferUsageFlags::index());
}

#[test]
fn replaced_usage_returns_the_prior_usage() {
    let mut storage: Storage<Buffer> = Storage::new();
    let id = Id::new(7, 2);
    storage.insert(id, buffer(8));
    let mut tracker = BufferTracker::new();
    let (item, prior) =
        tracker.get_with_replaced_usage(&storage, id, BufferUsageFlags::index()).unwrap();
    assert_eq!(item.size, 8);
    assert_eq!(prior, None);
    let (_, prior) =
        tracker.get_with_replaced_usage(&storage, id, BufferUsageFlags::index()).unwrap();
    assert_eq!(prior, None);
    let (item, prior) =
        tracker.get_with_replaced_usage(&storage, id, BufferUsageFlags::storage()).unwrap();
    assert_eq!(item.size, 8);
    assert_eq!(prior, Some(BufferUsageFlags::index()));
    let (_, prior) =
        tracker.get_with_replaced_usage(&storage, id, BufferUsageFlags::vertex()).unwrap();
    assert_eq!(prior, Some(BufferUsageFlags::storage()));
}

#[test]
fn lookup_tracks_with_the_token_of_the_resource() {
    let mut storage: Storage<Buffer> = Storage::new();
    let id = Id::new(1, 1);
    storage.insert(id, buffer(64));
    let mut tracker = BufferTracker::new();
    assert_eq!(Arc::strong_count(&storage.get(id).life), 1);
    tracker.get_with_extended_usage(&storage, id, BufferUsageFlags::index()).unwrap();
    assert_eq!(Arc::strong_count(&storage.get(id).life), 2);
    tracker.get_with_replaced_usage(&storage, id, BufferUsageFlags::vertex()).unwrap();
    assert_eq!(Arc::strong_count(&storage.get(id).life), 2);
    assert!(tracker.remove(id));
    assert_eq!(Arc::strong_count(&storage.get(id).life), 1);
}
