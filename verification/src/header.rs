//! One type for the boot image headers of all versions.

use vstd::prelude::*;
use crate::error::{unknown_version, Error, ErrorView};
use crate::header_v0::HeaderV0;
use crate::header_v3::{HeaderV3, PAGE_SIZE};
use crate::version::OsVersionPatch;
use crate::wire::{field_at, push_bytes, read_u32, u32_at, zeros};

verus! {

/// Android boot image header for versions 0 through 4
#[derive(Clone, Debug, PartialEq, Eq, Hash)]
pub enum Header {
    /// Header for versions 0-2
    V0(HeaderV0),
    /// Header for versions 3-4
    V3(HeaderV3),
}

impl Header {
    /// The serialised header: that of the variant.
    pub open spec fn wire(&self) -> Seq<u8> {
        match self {
            Header::V0(hdr) => hdr.wire(),
            Header::V3(hdr) => hdr.wire(),
        }
    }

    /// The length of the serialised header: that of the variant.
    pub open spec fn wire_len(&self) -> nat {
        match self {
            Header::V0(hdr) => hdr.wire_len(),
            Header::V3(hdr) => hdr.wire_len(),
        }
    }

    /// The header's version number: that of the variant.
    pub open spec fn spec_header_version(&self) -> u32 {
        match self {
            Header::V0(hdr) => hdr.spec_header_version(),
            Header::V3(hdr) => hdr.spec_header_version(),
        }
    }

    /// The version word at offset `0x28` selects the variant, and the
    /// variant's fields are what stands at their offsets in `bytes`.
    pub open spec fn decoded_from(&self, bytes: Seq<u8>) -> bool {
        match self {
            Header::V0(hdr) => u32_at(bytes, 0x28) <= 2 && hdr.decoded_from(bytes),
            Header::V3(hdr) => 3 <= u32_at(bytes, 0x28) <= 4 && hdr.decoded_from(bytes),
        }
    }

    /// Why `bytes` does not start with a boot image header, if it does not.
    ///
    /// The version word at offset `0x28` is looked at first: without it the
    /// bytes are too short, and a word above 4 is an unknown version,
    /// whatever the magic is. Then the codec of that version decides.
    pub open spec fn parse_error(bytes: Seq<u8>) -> Option<ErrorView> {
        let version = u32_at(bytes, 0x28);
        if bytes.len() < 0x28 + 4 {
            Some(ErrorView::ShortRead)
        } else if version <= 2 {
            HeaderV0::read_error(bytes)
        } else if version <= 4 {
            HeaderV3::read_error(bytes)
        } else {
            Some(unknown_version(version))
        }
    }

    /// Parses an Android boot image header from the start of `bytes`.
    ///
    /// Bytes after the header are not looked at. The header's version is
    /// the version word at offset `0x28`, and the header serialises to the
    /// bytes that it was parsed from; from version 3 on, where the sixteen
    /// reserved bytes are zero.
    pub fn parse(bytes: &[u8]) -> (r: Result<Header, Error>)
        ensures
            match r {
                Ok(h) => {
                    &&& Self::parse_error(bytes@) is None
                    &&& h.decoded_from(bytes@)
                    &&& h.spec_header_version() == u32_at(bytes@, 0x28)
                    &&& h.wire_len() <= bytes@.len()
                    &&& (h is V3 ==> field_at(bytes@, 24, 16) == zeros(16)) ==> h.wire()
                        == bytes@.subrange(0, h.wire_len() as int)
                },
                Err(e) => Self::parse_error(bytes@) == Some(e@),
            },
    {
        if bytes.len() < 0x28 + 4 {
            return Err(Error::ShortRead);
        }
        let version = read_u32(bytes, 0x28);
        if version <= 2 {
            match HeaderV0::read(bytes) {
                Ok(hdr) => Ok(Header::V0(hdr)),
                Err(e) => Err(e),
            }
        } else if version <= 4 {
            match HeaderV3::read(bytes) {
                Ok(hdr) => Ok(Header::V3(hdr)),
                Err(e) => Err(e),
            }
        } else {
            Err(Error::UnknownVersion { pos: 0x28, value: version })
        }
    }

    /// Serialises the header.
    ///
    /// Note that you must write the kernel, ramdisk, etc. yourself.
    pub fn to_bytes(&self) -> (out: Vec<u8>)
        ensures
            out@ == self.wire(),
            out@.len() == self.wire_len(),
    {
        match self {
            Header::V0(hdr) => hdr.to_bytes(),
            Header::V3(hdr) => hdr.to_bytes(),
        }
    }

    /// Appends the serialised header to `out`.
    ///
    /// Note that you must write the kernel, ramdisk, etc. yourself.
    pub fn write(&self, out: &mut Vec<u8>)
        ensures
            final(out)@ == old(out)@ + self.wire(),
    {
        let bytes = self.to_bytes();
        push_bytes(out, bytes.as_slice());
    }

    /// Returns the boot image header's version number.
    #[verifier::when_used_as_spec(spec_header_version)]
    pub fn header_version(&self) -> (r: u32)
        ensures
            r == self.spec_header_version(),
            r <= 4,
    {
        match self {
            Header::V0(hdr) => hdr.header_version(),
            Header::V3(hdr) => hdr.header_version(),
        }
    }

    /// The OS version and patch level that the header holds.
    pub open spec fn spec_osversionpatch(&self) -> OsVersionPatch {
        match self {
            Header::V0(hdr) => hdr.osversionpatch,
            Header::V3(hdr) => hdr.osversionpatch,
        }
    }

    /// The kernel's size.
    pub open spec fn spec_kernel_size(&self) -> u32 {
        match self {
            Header::V0(hdr) => hdr.kernel_size,
            Header::V3(hdr) => hdr.kernel_size,
        }
    }

    /// The ramdisk's size.
    pub open spec fn spec_ramdisk_size(&self) -> u32 {
        match self {
            Header::V0(hdr) => hdr.ramdisk_size,
            Header::V3(hdr) => hdr.ramdisk_size,
        }
    }

    /// The page size: the header's own up to version 2, then 4096.
    pub open spec fn spec_page_size(&self) -> nat {
        match self {
            Header::V0(hdr) => hdr.page_size as nat,
            Header::V3(_) => 4096,
        }
    }

    /// Where the kernel starts.
    pub open spec fn spec_kernel_position(&self) -> nat {
        match self {
            Header::V0(hdr) => hdr.spec_kernel_position(),
            Header::V3(_) => HeaderV3::spec_kernel_position(),
        }
    }

    /// Where the ramdisk starts.
    pub open spec fn spec_ramdisk_position(&self) -> nat {
        match self {
            Header::V0(hdr) => hdr.spec_ramdisk_position(),
            Header::V3(hdr) => hdr.spec_ramdisk_position(),
        }
    }

    /// A header is well formed when its page size is a power of two. From
    /// version 3 on every header is.
    pub open spec fn wf(&self) -> bool {
        match self {
            Header::V0(hdr) => hdr.wf(),
            Header::V3(_) => true,
        }
    }

    /// Says whether the page size is a power of two.
    pub fn is_well_formed(&self) -> (r: bool)
        ensures
            r == self.wf(),
    {
        match self {
            Header::V0(hdr) => hdr.is_well_formed(),
            Header::V3(_) => true,
        }
    }

    /// Returns the boot image header's OS version and patch level.
    #[verifier::when_used_as_spec(spec_osversionpatch)]
    pub fn osversionpatch(&self) -> (r: OsVersionPatch)
        ensures
            r == self.spec_osversionpatch(),
    {
        match self {
            Header::V0(hdr) => hdr.osversionpatch,
            Header::V3(hdr) => hdr.osversionpatch,
        }
    }

    /// Returns the kernel's position in the boot image.
    pub fn kernel_position(&self) -> (r: u64)
        requires
            self.wf(),
        ensures
            r == self.spec_kernel_position(),
    {
        match self {
            Header::V0(hdr) => hdr.kernel_position(),
            Header::V3(_) => HeaderV3::kernel_position(),
        }
    }

    /// Returns the kernel's size.
    #[verifier::when_used_as_spec(spec_kernel_size)]
    pub fn kernel_size(&self) -> (r: u32)
        ensures
            r == self.spec_kernel_size(),
    {
        match self {
            Header::V0(hdr) => hdr.kernel_size,
            Header::V3(hdr) => hdr.kernel_size,
        }
    }

    /// Returns the ramdisk's position in the boot image.
    pub fn ramdisk_position(&self) -> (r: u64)
        requires
            self.wf(),
        ensures
            r == self.spec_ramdisk_position(),
    {
        match self {
            Header::V0(hdr) => hdr.ramdisk_position(),
            Header::V3(hdr) => hdr.ramdisk_position(),
        }
    }

    /// Returns the ramdisk's size.
    #[verifier::when_used_as_spec(spec_ramdisk_size)]
    pub fn ramdisk_size(&self) -> (r: u32)
        ensures
            r == self.spec_ramdisk_size(),
    {
        match self {
            Header::V0(hdr) => hdr.ramdisk_size,
            Header::V3(hdr) => hdr.ramdisk_size,
        }
    }

    /// Returns the page size in bytes.
    pub fn page_size(&self) -> (r: usize)
        ensures
            r == self.spec_page_size(),
    {
        match self {
            Header::V0(hdr) => hdr.page_size as usize,
            Header::V3(_) => PAGE_SIZE as usize,
        }
    }

    /// Parsing what was written gives the header back, whatever follows it,
    /// and the version word at offset `0x28` is the header's version.
    pub proof fn lemma_write_then_parse(&self, rest: Seq<u8>)
        ensures
            self.wire().len() == self.wire_len(),
            Self::parse_error(self.wire() + rest) is None,
            self.decoded_from(self.wire() + rest),
            u32_at(self.wire() + rest, 0x28) == self.spec_header_version(),
    {
        match self {
            Header::V0(hdr) => {
                hdr.lemma_write_then_read(rest);
            },
            Header::V3(hdr) => {
                hdr.lemma_write_then_read(rest);
            },
        }
    }

    /// Writing what was parsed gives the bytes back: a header that `bytes`
    /// decodes to serialises to the first bytes of `bytes`, as many as the
    /// header is long. From version 3 on this holds where the sixteen
    /// reserved bytes at offset 24 are zero; they are not kept.
    pub proof fn lemma_parse_then_write(&self, bytes: Seq<u8>)
        requires
            Self::parse_error(bytes) is None,
            self.decoded_from(bytes),
            self is V3 ==> field_at(bytes, 24, 16) == zeros(16),
        ensures
            self.wire().len() == self.wire_len(),
            self.wire_len() <= bytes.len(),
            bytes.subrange(0, self.wire_len() as int) == self.wire(),
            self.spec_header_version() == u32_at(bytes, 0x28),
    {
        match self {
            Header::V0(hdr) => {
                hdr.lemma_read_then_write(bytes);
            },
            Header::V3(hdr) => {
                hdr.lemma_read_then_write(bytes);
            },
        }
    }

    /// Two headers that the same bytes decode to are equal.
    pub proof fn lemma_decoded_unique(&self, other: &Header, bytes: Seq<u8>)
        requires
            self.decoded_from(bytes),
            other.decoded_from(bytes),
        ensures
            *self == *other,
    {
        match (self, other) {
            (Header::V0(a), Header::V0(b)) => {
                a.lemma_decoded_unique(b, bytes);
            },
            (Header::V3(a), Header::V3(b)) => {
                a.lemma_decoded_unique(b, bytes);
            },
            _ => {},
        }
    }

    /// Kernel and ramdisk start at page boundaries, each at or after the
    /// end of what comes before it and less than a page away from that
    /// end; so the kernel comes before the ramdisk. The header counts as
    /// 1660 bytes up to version 2 and as one page from version 3 on.
    pub proof fn lemma_sections_aligned(&self)
        requires
            self.wf(),
        ensures
            self.spec_page_size() > 0,
            self.spec_kernel_position() % self.spec_page_size() == 0,
            self.spec_ramdisk_position() % self.spec_page_size() == 0,
            self.spec_kernel_position() + self.spec_kernel_size() <= self.spec_ramdisk_position()
                < self.spec_kernel_position() + self.spec_kernel_size() + self.spec_page_size(),
            self.spec_kernel_position() <= self.spec_ramdisk_position(),
    {
        match self {
            Header::V0(hdr) => {
                hdr.lemma_sections_aligned();
            },
            Header::V3(hdr) => {
                hdr.lemma_sections_aligned();
            },
        }
    }
}

} // verus!
