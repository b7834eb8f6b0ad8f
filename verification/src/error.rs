//! What can go wrong when a header is read.

use vstd::prelude::*;

verus! {

/// The header layouts that carry their own size.
#[derive(Clone, Copy, Debug, PartialEq, Eq, Hash, Structural)]
pub enum HeaderVariant {
    /// Boot image header, version 1
    BootV1,
    /// Boot image header, version 2
    BootV2,
    /// Boot image header, version 3
    BootV3,
    /// Boot image header, version 4
    BootV4,
    /// Vendor boot image header, version 3
    VendorV3,
    /// Vendor boot image header, version 4
    VendorV4,
}

/// Why a byte sequence is not a header.
#[allow(inconsistent_fields)]
#[derive(Clone, Debug, PartialEq, Eq, Hash)]
pub enum Error {
    /// The bytes at `pos` are not the magic that the header starts with.
    BadMagic {
        /// Offset of the magic
        pos: u64,
        /// The magic that was asked for
        expected: [u8; 8],
        /// The bytes that stand there
        found: [u8; 8],
    },
    /// The version word at `pos` names no version that the codec reads.
    UnknownVersion {
        /// Offset of the version word
        pos: u64,
        /// The word that stands there
        value: u32,
    },
    /// The size that the header states of itself is not the size of its
    /// layout.
    HeaderSizeMismatch {
        /// The layout that the version word selects
        variant: HeaderVariant,
        /// The size of that layout
        expected: u32,
        /// The size that the header states
        found: u32,
    },
    /// The bytes end before the header does.
    ShortRead,
}

/// An [`Error`] with its byte arrays as sequences.
#[allow(inconsistent_fields)]
pub enum ErrorView {
    BadMagic { pos: u64, expected: Seq<u8>, found: Seq<u8> },
    UnknownVersion { pos: u64, value: u32 },
    HeaderSizeMismatch { variant: HeaderVariant, expected: u32, found: u32 },
    ShortRead,
}

impl View for Error {
    type V = ErrorView;

    open spec fn view(&self) -> ErrorView {
        match *self {
            Error::BadMagic { pos, expected, found } => ErrorView::BadMagic {
                pos,
                expected: expected@,
                found: found@,
            },
            Error::UnknownVersion { pos, value } => ErrorView::UnknownVersion { pos, value },
            Error::HeaderSizeMismatch { variant, expected, found } => ErrorView::HeaderSizeMismatch {
                variant,
                expected,
                found,
            },
            Error::ShortRead => ErrorView::ShortRead,
        }
    }
}

/// The size that a header of the given layout states of itself.
pub open spec fn spec_header_size(variant: HeaderVariant) -> u32 {
    match variant {
        HeaderVariant::BootV1 => 1648,
        HeaderVariant::BootV2 => 1660,
        HeaderVariant::BootV3 => 1580,
        HeaderVariant::BootV4 => 1584,
        HeaderVariant::VendorV3 => 2112,
        HeaderVariant::VendorV4 => 2128,
    }
}

/// The failure of a header of layout `variant` that states `found` as its
/// size.
pub open spec fn size_mismatch(variant: HeaderVariant, found: u32) -> ErrorView {
    ErrorView::HeaderSizeMismatch { variant, expected: spec_header_size(variant), found }
}

/// The failure of a header that starts with `found` in place of `expected`.
pub open spec fn bad_magic(expected: Seq<u8>, found: Seq<u8>) -> ErrorView {
    ErrorView::BadMagic { pos: 0, expected, found }
}

/// The failure of a header whose version word, at offset `0x28`, is `value`.
pub open spec fn unknown_version(value: u32) -> ErrorView {
    ErrorView::UnknownVersion { pos: 0x28, value }
}

impl HeaderVariant {
    /// The size that a header of this layout states of itself.
    pub fn header_size(self) -> (r: u32)
        ensures
            r == spec_header_size(self),
    {
        match self {
            HeaderVariant::BootV1 => 1648,
            HeaderVariant::BootV2 => 1660,
            HeaderVariant::BootV3 => 1580,
            HeaderVariant::BootV4 => 1584,
            HeaderVariant::VendorV3 => 2112,
            HeaderVariant::VendorV4 => 2128,
        }
    }
}

} // verus!
