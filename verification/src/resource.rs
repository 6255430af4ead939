//! The usages of buffers and of textures.

use crate::usage::GenericUsage;
use std::ops::BitOr;
use vstd::prelude::*;
use vstd::std_specs::ops::BitOrSpec;

verus! {

/// A buffer is mapped for reading.
pub const BUFFER_MAP_READ: u32 = 1;

/// A buffer is mapped for writing.
pub const BUFFER_MAP_WRITE: u32 = 2;

/// A buffer is the source of a copy.
pub const BUFFER_TRANSFER_SRC: u32 = 4;

/// A buffer is the destination of a copy.
pub const BUFFER_TRANSFER_DST: u32 = 8;

/// A buffer is read as indices.
pub const BUFFER_INDEX: u32 = 16;

/// A buffer is read as vertices.
pub const BUFFER_VERTEX: u32 = 32;

/// A buffer is read as uniform data.
pub const BUFFER_UNIFORM: u32 = 64;

/// A buffer is read and written by shaders.
pub const BUFFER_STORAGE: u32 = 128;

/// The modes of a buffer that write: mapping for writing, being copied to, storage.
pub const BUFFER_WRITE_ALL: u32 = 138;

/// A texture is the source of a copy.
pub const TEXTURE_TRANSFER_SRC: u32 = 1;

/// A texture is the destination of a copy.
pub const TEXTURE_TRANSFER_DST: u32 = 2;

/// A texture is sampled by shaders.
pub const TEXTURE_SAMPLED: u32 = 4;

/// A texture is read and written by shaders.
pub const TEXTURE_STORAGE: u32 = 8;

/// A texture is rendered to.
pub const TEXTURE_OUTPUT_ATTACHMENT: u32 = 16;

/// A texture is shown on a surface.
pub const TEXTURE_PRESENT: u32 = 32;

/// The modes of a texture that write: being copied to, storage, being rendered to.
pub const TEXTURE_WRITE_ALL: u32 = 26;

/// The usage of a texture that nothing has been done to yet.
pub const TEXTURE_UNINITIALIZED: u32 = 0xFFFF;

/// The ways in which a buffer is used.
#[derive(Clone, Copy, Debug)]
pub struct BufferUsageFlags {
    pub bits: u32,
}

impl BufferUsageFlags {
    /// The usage with no mode at all.
    pub fn empty() -> (flags: Self)
        ensures
            flags.bits == 0,
    {
        BufferUsageFlags { bits: 0 }
    }

    pub fn map_read() -> (flags: Self)
        ensures
            flags.bits == BUFFER_MAP_READ,
    {
        BufferUsageFlags { bits: BUFFER_MAP_READ }
    }

    pub fn map_write() -> (flags: Self)
        ensures
            flags.bits == BUFFER_MAP_WRITE,
    {
        BufferUsageFlags { bits: BUFFER_MAP_WRITE }
    }

    pub fn transfer_src() -> (flags: Self)
        ensures
            flags.bits == BUFFER_TRANSFER_SRC,
    {
        BufferUsageFlags { bits: BUFFER_TRANSFER_SRC }
    }

    pub fn transfer_dst() -> (flags: Self)
        ensures
            flags.bits == BUFFER_TRANSFER_DST,
    {
        BufferUsageFlags { bits: BUFFER_TRANSFER_DST }
    }

    pub fn index() -> (flags: Self)
        ensures
            flags.bits == BUFFER_INDEX,
    {
        BufferUsageFlags { bits: BUFFER_INDEX }
    }

    pub fn vertex() -> (flags: Self)
        ensures
            flags.bits == BUFFER_VERTEX,
    {
        BufferUsageFlags { bits: BUFFER_VERTEX }
    }

    pub fn uniform() -> (flags: Self)
        ensures
            flags.bits == BUFFER_UNIFORM,
    {
        BufferUsageFlags { bits: BUFFER_UNIFORM }
    }

    pub fn storage() -> (flags: Self)
        ensures
            flags.bits == BUFFER_STORAGE,
    {
        BufferUsageFlags { bits: BUFFER_STORAGE }
    }

    pub fn write_all() -> (flags: Self)
        ensures
            flags.bits == BUFFER_WRITE_ALL,
    {
        BufferUsageFlags { bits: BUFFER_WRITE_ALL }
    }

    pub fn bits(&self) -> (bits: u32)
        ensures
            bits == self.bits,
    {
        self.bits
    }

    pub fn is_empty(&self) -> (empty: bool)
        ensures
            empty == (self.bits == 0),
    {
        self.bits == 0
    }

    /// Whether every mode of `other` is a mode of `self`.
    pub fn contains(&self, other: Self) -> (contained: bool)
        ensures
            contained == (self.bits & other.bits == other.bits),
    {
        self.bits & other.bits == other.bits
    }

    /// Whether `self` and `other` have a mode in common.
    pub fn intersects(&self, other: Self) -> (shared: bool)
        ensures
            shared == (self.bits & other.bits != 0),
    {
        self.bits & other.bits != 0
    }
}

impl PartialEq for BufferUsageFlags {
    fn eq(&self, other: &Self) -> (equal: bool) {
        self.bits == other.bits
    }
}

impl Eq for BufferUsageFlags {

}

impl vstd::std_specs::cmp::PartialEqSpecImpl for BufferUsageFlags {
    open spec fn obeys_eq_spec() -> bool {
        true
    }

    open spec fn eq_spec(&self, other: &Self) -> bool {
        self.bits == other.bits
    }
}

impl BitOr for BufferUsageFlags {
    type Output = BufferUsageFlags;

    /// The usage that holds the modes of `self` and those of `rhs`.
    fn bitor(self, rhs: Self) -> (both: Self) {
        BufferUsageFlags { bits: self.bits | rhs.bits }
    }
}

impl vstd::std_specs::ops::BitOrSpecImpl for BufferUsageFlags {
    open spec fn obeys_bitor_spec() -> bool {
        true
    }

    open spec fn bitor_req(self, rhs: Self) -> bool {
        true
    }

    open spec fn bitor_spec(self, rhs: Self) -> Self {
        BufferUsageFlags { bits: self.bits | rhs.bits }
    }
}

impl GenericUsage for BufferUsageFlags {
    /// A usage of a buffer is exclusive when it holds a mode that writes.
    open spec fn exclusive(&self) -> bool {
        BUFFER_WRITE_ALL & self.bits != 0
    }

    fn is_exclusive(&self) -> (exclusive: bool) {
        BufferUsageFlags::write_all().intersects(*self)
    }

    proof fn lawful() {
        assert forall|a: Self| #[trigger] a.bitor_spec(a) == a by {
            let x = a.bits;
            assert(x | x == x) by (bit_vector);
        }
        assert forall|a: Self, b: Self| #[trigger]
            a.bitor_spec(b).exclusive() <==> a.exclusive() || b.exclusive() by {
            let x = a.bits;
            let y = b.bits;
            let w = BUFFER_WRITE_ALL;
            assert((w & (x | y) != 0) <==> (w & x != 0) || (w & y != 0)) by (bit_vector);
        }
    }
}

/// The ways in which a texture is used.
#[derive(Clone, Copy, Debug)]
pub struct TextureUsageFlags {
    pub bits: u32,
}

impl TextureUsageFlags {
    /// The usage with no mode at all.
    pub fn empty() -> (flags: Self)
        ensures
            flags.bits == 0,
    {
        TextureUsageFlags { bits: 0 }
    }

    pub fn transfer_src() -> (flags: Self)
        ensures
            flags.bits == TEXTURE_TRANSFER_SRC,
    {
        TextureUsageFlags { bits: TEXTURE_TRANSFER_SRC }
    }

    pub fn transfer_dst() -> (flags: Self)
        ensures
            flags.bits == TEXTURE_TRANSFER_DST,
    {
        TextureUsageFlags { bits: TEXTURE_TRANSFER_DST }
    }

    pub fn sampled() -> (flags: Self)
        ensures
            flags.bits == TEXTURE_SAMPLED,
    {
        TextureUsageFlags { bits: TEXTURE_SAMPLED }
    }

    pub fn storage() -> (flags: Self)
        ensures
            flags.bits == TEXTURE_STORAGE,
    {
        TextureUsageFlags { bits: TEXTURE_STORAGE }
    }

    pub fn output_attachment() -> (flags: Self)
        ensures
            flags.bits == TEXTURE_OUTPUT_ATTACHMENT,
    {
        TextureUsageFlags { bits: TEXTURE_OUTPUT_ATTACHMENT }
    }

    pub fn present() -> (flags: Self)
        ensures
            flags.bits == TEXTURE_PRESENT,
    {
        TextureUsageFlags { bits: TEXTURE_PRESENT }
    }

    pub fn write_all() -> (flags: Self)
        ensures
            flags.bits == TEXTURE_WRITE_ALL,
    {
        TextureUsageFlags { bits: TEXTURE_WRITE_ALL }
    }

    pub fn uninitialized() -> (flags: Self)
        ensures
            flags.bits == TEXTURE_UNINITIALIZED,
    {
        TextureUsageFlags { bits: TEXTURE_UNINITIALIZED }
    }

    pub fn bits(&self) -> (bits: u32)
        ensures
            bits == self.bits,
    {
        self.bits
    }

    pub fn is_empty(&self) -> (empty: bool)
        ensures
            empty == (self.bits == 0),
    {
        self.bits == 0
    }

    /// Whether every mode of `other` is a mode of `self`.
    pub fn contains(&self, other: Self) -> (contained: bool)
        ensures
            contained == (self.bits & other.bits == other.bits),
    {
        self.bits & other.bits == other.bits
    }

    /// Whether `self` and `other` have a mode in common.
    pub fn intersects(&self, other: Self) -> (shared: bool)
        ensures
            shared == (self.bits & other.bits != 0),
    {
        self.bits & other.bits != 0
    }
}

impl PartialEq for TextureUsageFlags {
    fn eq(&self, other: &Self) -> (equal: bool) {
        self.bits == other.bits
    }
}

impl Eq for TextureUsageFlags {

}

impl vstd::std_specs::cmp::PartialEqSpecImpl for TextureUsageFlags {
    open spec fn obeys_eq_spec() -> bool {
        true
    }

    open spec fn eq_spec(&self, other: &Self) -> bool {
        self.bits == other.bits
    }
}

impl BitOr for TextureUsageFlags {
    type Output = TextureUsageFlags;

    /// The usage that holds the modes of `self` and those of `rhs`.
    fn bitor(self, rhs: Self) -> (both: Self) {
        TextureUsageFlags { bits: self.bits | rhs.bits }
    }
}

impl vstd::std_specs::ops::BitOrSpecImpl for TextureUsageFlags {
    open spec fn obeys_bitor_spec() -> bool {
        true
    }

    open spec fn bitor_req(self, rhs: Self) -> bool {
        true
    }

    open spec fn bitor_spec(self, rhs: Self) -> Self {
        TextureUsageFlags { bits: self.bits | rhs.bits }
    }
}

impl GenericUsage for TextureUsageFlags {
    /// A usage of a texture is exclusive when it holds a mode that writes.
    open spec fn exclusive(&self) -> bool {
        TEXTURE_WRITE_ALL & self.bits != 0
    }

    fn is_exclusive(&self) -> (exclusive: bool) {
        TextureUsageFlags::write_all().intersects(*self)
    }

    proof fn lawful() {
        assert forall|a: Self| #[trigger] a.bitor_spec(a) == a by {
            let x = a.bits;
            assert(x | x == x) by (bit_vector);
        }
        assert forall|a: Self, b: Self| #[trigger]
            a.bitor_spec(b).exclusive() <==> a.exclusive() || b.exclusive() by {
            let x = a.bits;
            let y = b.bits;
            let w = TEXTURE_WRITE_ALL;
            assert((w & (x | y) != 0) <==> (w & x != 0) || (w & y != 0)) by (bit_vector);
        }
    }
}

} // verus!
