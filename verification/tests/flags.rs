use usage_tracker::permit::{PERMIT_EXTEND, PERMIT_REPLACE};
use usage_tracker::resource::{BUFFER_WRITE_ALL, TEXTURE_UNINITIALIZED, TEXTURE_WRITE_ALL};
use usage_tracker::{BufferUsageFlags, GenericUsage, TextureUsageFlags, TrackPermit};

#[test]
fn permit_bits() {
    assert_eq!(TrackPermit::empty().bits(), 0);
    assert_eq!(TrackPermit::extend().bits(), 1);
    assert_eq!(TrackPermit::replace().bits(), 2);
    assert_eq!(TrackPermit::all().bits(), 3);
    assert_eq!(PERMIT_EXTEND, 1);
    assert_eq!(PERMIT_REPLACE, 2);
    assert_eq!((TrackPermit::extend() | TrackPermit::replace()), TrackPermit::all());
    assert_eq!(TrackPermit::extend() | TrackPermit::empty(), TrackPermit::extend());
}

#[test]
fn permit_contains() {
    assert!(TrackPermit::all().contains(TrackPermit::extend()));
    assert!(TrackPermit::all().contains(TrackPermit::replace()));
    assert!(TrackPermit::extend().contains(TrackPermit::extend()));
    assert!(!TrackPermit::extend().contains(TrackPermit::replace()));
    assert!(!TrackPermit::replace().contains(TrackPermit::extend()));
    assert!(!TrackPermit::empty().contains(TrackPermit::extend()));
    assert!(TrackPermit::empty().contains(TrackPermit::empty()));
    assert!(!TrackPermit::extend().contains(TrackPermit::all()));
}

#[test]
fn permit_from_bits_drops_unknown_bits() {
    assert_eq!(TrackPermit::from_bits_truncate(0), TrackPermit::empty());
    assert_eq!(TrackPermit::from_bits_truncate(1), TrackPermit::extend());
    assert_eq!(TrackPermit::from_bits_truncate(2), TrackPermit::replace());
    assert_eq!(TrackPermit::from_bits_truncate(7), TrackPermit::all());
    assert_eq!(TrackPermit::from_bits_truncate(0xFFFF_FFFC), TrackPermit::empty());
}

#[test]
fn buffer_flag_bits() {
    assert_eq!(BufferUsageFlags::empty().bits(), 0);
    assert_eq!(BufferUsageFlags::map_read().bits(), 1);
    assert_eq!(BufferUsageFlags::map_write().bits(), 2);
    assert_eq!(BufferUsageFlags::transfer_src().bits(), 4);
    assert_eq!(BufferUsageFlags::transfer_dst().bits(), 8);
    assert_eq!(BufferUsageFlags::index().bits(), 16);
    assert_eq!(BufferUsageFlags::vertex().bits(), 32);
    assert_eq!(BufferUsageFlags::uniform().bits(), 64);
    assert_eq!(BufferUsageFlags::storage().bits(), 128);
    assert_eq!(BufferUsageFlags::write_all().bits(), 2 + 8 + 128);
    assert_eq!(BUFFER_WRITE_ALL, 138);
}

#[test]
fn buffer_writes_are_exclusive() {
    assert!(!BufferUsageFlags::empty().is_exclusive());
    assert!(!BufferUsageFlags::map_read().is_exclusive());
    assert!(BufferUsageFlags::map_write().is_exclusive());
    assert!(!BufferUsageFlags::transfer_src().is_exclusive());
    assert!(BufferUsageFlags::transfer_dst().is_exclusive());
    assert!(!BufferUsageFlags::index().is_exclusive());
    assert!(!BufferUsageFlags::vertex().is_exclusive());
    assert!(!BufferUsageFlags::uniform().is_exclusive());
    assert!(BufferUsageFlags::storage().is_exclusive());
    assert!(BufferUsageFlags::write_all().is_exclusive());
    assert!((BufferUsageFlags::index() | BufferUsageFlags::storage()).is_exclusive());
    assert!(!(BufferUsageFlags::index() | BufferUsageFlags::vertex()).is_exclusive());
}

#[test]
fn texture_flag_bits() {
    assert_eq!(TextureUsageFlags::empty().bits(), 0);
    assert_eq!(TextureUsageFlags::transfer_src().bits(), 1);
    assert_eq!(TextureUsageFlags::transfer_dst().bits(), 2);
    assert_eq!(TextureUsageFlags::sampled().bits(), 4);
    assert_eq!(TextureUsageFlags::storage().bits(), 8);
    assert_eq!(TextureUsageFlags::output_attachment().bits(), 16);
    assert_eq!(TextureUsageFlags::present().bits(), 32);
    assert_eq!(TextureUsageFlags::write_all().bits(), 2 + 8 + 16);
    assert_eq!(TextureUsageFlags::uninitialized().bits(), 0xFFFF);
    assert_eq!(TEXTURE_WRITE_ALL, 26);
    assert_eq!(TEXTURE_UNINITIALIZED, 65535);
}

#[test]
fn texture_writes_are_exclusive() {
    assert!(!TextureUsageFlags::empty().is_exclusive());
    assert!(!TextureUsageFlags::transfer_src().is_exclusive());
    assert!(TextureUsageFlags::transfer_dst().is_exclusive());
    assert!(!TextureUsageFlags::sampled().is_exclusive());
    assert!(TextureUsageFlags::storage().is_exclusive());
    assert!(TextureUsageFlags::output_attachment().is_exclusive());
    assert!(!TextureUsageFlags::present().is_exclusive());
    assert!(TextureUsageFlags::uninitialized().is_exclusive());
    assert!(!(TextureUsageFlags::sampled() | TextureUsageFlags::present()).is_exclusive());
}

#[test]
fn flags_union_and_tests() {
    let both = BufferUsageFlags::index() | BufferUsageFlags::vertex();
    assert_eq!(both.bits(), 48);
    assert_eq!(both | both, both);
    assert!(both.contains(BufferUsageFlags::index()));
    assert!(!both.contains(BufferUsageFlags::uniform()));
    assert!(!BufferUsageFlags::index().contains(both));
    assert!(both.contains(BufferUsageFlags::empty()));
    assert!(both.intersects(BufferUsageFlags::vertex() | BufferUsageFlags::uniform()));
    assert!(!both.intersects(BufferUsageFlags::uniform()));
    assert!(!both.intersects(BufferUsageFlags::empty()));
    assert!(BufferUsageFlags::empty().is_empty());
    assert!(!both.is_empty());
    assert!(both != BufferUsageFlags::index());
    let sampled = TextureUsageFlags::sampled() | TextureUsageFlags::storage();
    assert_eq!(sampled.bits(), 12);
    assert!(sampled.contains(TextureUsageFlags::storage()));
    assert!(sampled.intersects(TextureUsageFlags::write_all()));
    assert!(!TextureUsageFlags::sampled().intersects(TextureUsageFlags::write_all()));
    assert!(TextureUsageFlags::empty().is_empty());
    assert!(!sampled.is_empty());
}
