//! Tagged address words: the high bit says which base an offset is relative to.

use vstd::prelude::*;

verus! {

/// Bit that marks a word as an offset from the flash base.
pub const FLASH_TAG: u32 = 0x8000_0000;

/// The two origins a process is loaded with.
#[derive(Clone, Copy, Debug, PartialEq, Eq, Structural)]
pub struct LoadBases {
    pub flash_base: u32,
    pub mem_base: u32,
}

/// A decoded address word: an offset of at most 31 bits and the base it is
/// relative to.
#[derive(Clone, Copy, Debug, PartialEq, Eq, Structural)]
pub enum Placement {
    MemoryRelative(u32),
    FlashRelative(u32),
}

/// Whether `word` carries the flash tag.
pub open spec fn is_flash_tagged(word: u32) -> bool {
    word & FLASH_TAG != 0
}

/// The decoding of `word` into a placement.
pub open spec fn placement_of(word: u32) -> Placement {
    if is_flash_tagged(word) {
        Placement::FlashRelative(word ^ FLASH_TAG)
    } else {
        Placement::MemoryRelative(word)
    }
}

/// `offset + base` on a 32-bit address space.
pub open spec fn offset_from(base: u32, offset: u32) -> u32 {
    ((base as int + offset as int) % 0x1_0000_0000) as u32
}

impl Placement {
    pub open spec fn offset(self) -> u32 {
        match self {
            Placement::MemoryRelative(o) => o,
            Placement::FlashRelative(o) => o,
        }
    }

    /// The absolute address this placement denotes under `bases`.
    pub open spec fn absolute_spec(self, bases: LoadBases) -> u32 {
        match self {
            Placement::MemoryRelative(o) => offset_from(bases.mem_base, o),
            Placement::FlashRelative(o) => offset_from(bases.flash_base, o),
        }
    }

    /// Splits a raw word into its placement; the tag never survives into the offset.
    pub fn decode(word: u32) -> (r: Placement)
        ensures
            r == placement_of(word),
            r.offset() < FLASH_TAG,
    {
        if word & FLASH_TAG == 0 {
            assert(word & FLASH_TAG == 0u32 ==> word < 0x8000_0000u32) by (bit_vector);
            Placement::MemoryRelative(word)
        } else {
            assert(word & FLASH_TAG != 0u32 ==> word ^ FLASH_TAG < 0x8000_0000u32) by (bit_vector);
            Placement::FlashRelative(word ^ FLASH_TAG)
        }
    }

    pub fn absolute(&self, bases: LoadBases) -> (r: u32)
        ensures
            r == self.absolute_spec(bases),
    {
        match self {
            Placement::MemoryRelative(o) => bases.mem_base.wrapping_add(*o),
            Placement::FlashRelative(o) => bases.flash_base.wrapping_add(*o),
        }
    }
}

/// The absolute address that the raw word `word` stands for.
pub open spec fn resolved(word: u32, bases: LoadBases) -> u32 {
    placement_of(word).absolute_spec(bases)
}

/// Decodes `word` and returns the absolute address it stands for.
pub fn resolve(word: u32, bases: LoadBases) -> (r: u32)
    ensures
        r == resolved(word, bases),
        !is_flash_tagged(word) ==> r == offset_from(bases.mem_base, word),
        is_flash_tagged(word) ==> r == offset_from(bases.flash_base, (word - FLASH_TAG) as u32),
{
    assert(word & FLASH_TAG != 0u32 ==> word ^ FLASH_TAG == word - FLASH_TAG) by (bit_vector);
    Placement::decode(word).absolute(bases)
}

} // verus!
