//! Options for importing track metadata from media files.

use vstd::prelude::*;

verus! {

/// A set of import options, as bit flags. Some options include others:
/// an artwork digest implies the artwork, and all custom application
/// metadata implies the metadata.
#[derive(Debug, Clone, Copy, PartialEq, Eq, Structural)]
pub struct ImportTrackOptions {
    bits: u16,
}

pub const METADATA_BITS: u16 = 0b0000000000000001;
pub const ARTWORK_BITS: u16 = 0b0000000000000010;
pub const CONTENT_DIGEST_BITS: u16 = 0b0000000000000100;
pub const ARTWORK_DIGEST_BITS: u16 = 0b0000000000001010;
/// SHA-256 instead of BLAKE3 for artwork digests, e.g. for Mixxx.
pub const ARTWORK_DIGEST_SHA256_BITS: u16 = 0b0000000100001010;
/// iTunes v12.5.4 and newer.
pub const ITUNES_ID3V2_GROUPING_MOVEMENT_WORK_BITS: u16 = 0b0000001000000000;
pub const MIXXX_CUSTOM_TAGS_BITS: u16 = 0b0000010000000001;
pub const SERATO_TAGS_BITS: u16 = 0b0000100000000001;

/// The union of all defined options.
pub const ALL_BITS: u16 = 0b0000111100001111;

impl ImportTrackOptions {
    pub fn metadata() -> (options: Self)
        ensures
            options.spec_bits() == METADATA_BITS,
    {
        ImportTrackOptions { bits: METADATA_BITS }
    }

    pub fn artwork() -> (options: Self)
        ensures
            options.spec_bits() == ARTWORK_BITS,
    {
        ImportTrackOptions { bits: ARTWORK_BITS }
    }

    pub fn content_digest() -> (options: Self)
        ensures
            options.spec_bits() == CONTENT_DIGEST_BITS,
    {
        ImportTrackOptions { bits: CONTENT_DIGEST_BITS }
    }

    pub fn artwork_digest() -> (options: Self)
        ensures
            options.spec_bits() == ARTWORK_DIGEST_BITS,
    {
        ImportTrackOptions { bits: ARTWORK_DIGEST_BITS }
    }

    pub fn artwork_digest_sha256() -> (options: Self)
        ensures
            options.spec_bits() == ARTWORK_DIGEST_SHA256_BITS,
    {
        ImportTrackOptions { bits: ARTWORK_DIGEST_SHA256_BITS }
    }

    pub fn itunes_id3v2_grouping_movement_work() -> (options: Self)
        ensures
            options.spec_bits() == ITUNES_ID3V2_GROUPING_MOVEMENT_WORK_BITS,
    {
        ImportTrackOptions { bits: ITUNES_ID3V2_GROUPING_MOVEMENT_WORK_BITS }
    }

    pub fn mixxx_custom_tags() -> (options: Self)
        ensures
            options.spec_bits() == MIXXX_CUSTOM_TAGS_BITS,
    {
        ImportTrackOptions { bits: MIXXX_CUSTOM_TAGS_BITS }
    }

    pub fn serato_tags() -> (options: Self)
        ensures
            options.spec_bits() == SERATO_TAGS_BITS,
    {
        ImportTrackOptions { bits: SERATO_TAGS_BITS }
    }

    pub closed spec fn spec_bits(self) -> u16 {
        self.bits
    }

    pub fn bits(self) -> (bits: u16)
        ensures
            bits == self.spec_bits(),
    {
        self.bits
    }

    pub fn empty() -> (options: Self)
        ensures
            options.spec_bits() == 0,
    {
        ImportTrackOptions { bits: 0 }
    }

    pub fn all() -> (options: Self)
        ensures
            options.spec_bits() == ALL_BITS,
    {
        ImportTrackOptions { bits: ALL_BITS }
    }

    /// The options with exactly the given bits, if all of them are defined.
    pub fn from_bits(bits: u16) -> (options: Option<Self>)
        ensures
            options is Some <==> bits & !ALL_BITS == 0,
            options matches Some(o) ==> o.spec_bits() == bits,
    {
        if bits & !ALL_BITS == 0 {
            Some(ImportTrackOptions { bits })
        } else {
            None
        }
    }

    /// The options with exactly the given bits, defined or not.
    pub fn from_bits_retain(bits: u16) -> (options: Self)
        ensures
            options.spec_bits() == bits,
    {
        ImportTrackOptions { bits }
    }

    /// All bits of `other` are set in `self`.
    pub fn contains(self, other: Self) -> (contains: bool)
        ensures
            contains == (self.spec_bits() & other.spec_bits() == other.spec_bits()),
    {
        self.bits & other.bits == other.bits
    }

    pub fn union(self, other: Self) -> (union: Self)
        ensures
            union.spec_bits() == self.spec_bits() | other.spec_bits(),
    {
        ImportTrackOptions { bits: self.bits | other.bits }
    }

    /// Only defined options are set.
    pub fn is_valid(self) -> (valid: bool)
        ensures
            valid == (self.spec_bits() & ALL_BITS == self.spec_bits()),
    {
        let b = self.bits;
        assert(0b0000111100001111u16 & b == b & 0b0000111100001111u16) by (bit_vector);
        Self::all().contains(self)
    }
}

impl Default for ImportTrackOptions {
    fn default() -> (options: Self)
        ensures
            options.spec_bits() == 0,
    {
        Self::empty()
    }
}

/// Every combination of the defined options is valid.
pub proof fn law_defined_options_are_valid(options: u16)
    requires
        options & !ALL_BITS == 0,
    ensures
        options & ALL_BITS == options,
{
    assert(options & !ALL_BITS == 0 ==> options & ALL_BITS == options) by (bit_vector);
}

/// An option that includes another one contains it.
pub proof fn law_options_include_implied()
    ensures
        ARTWORK_DIGEST_BITS & ARTWORK_BITS == ARTWORK_BITS,
        ARTWORK_DIGEST_SHA256_BITS & ARTWORK_DIGEST_BITS == ARTWORK_DIGEST_BITS,
        MIXXX_CUSTOM_TAGS_BITS & METADATA_BITS == METADATA_BITS,
        SERATO_TAGS_BITS & METADATA_BITS == METADATA_BITS,
{
    assert(0b0000000000001010u16 & 0b0000000000000010u16 == 0b0000000000000010u16) by (bit_vector);
    assert(0b0000000100001010u16 & 0b0000000000001010u16 == 0b0000000000001010u16) by (bit_vector);
    assert(0b0000010000000001u16 & 0b0000000000000001u16 == 0b0000000000000001u16) by (bit_vector);
    assert(0b0000100000000001u16 & 0b0000000000000001u16 == 0b0000000000000001u16) by (bit_vector);
}

} // verus!
