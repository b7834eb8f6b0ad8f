//! Boot image headers of versions 3 and 4.

use vstd::prelude::*;
use vstd::arithmetic::power2::is_pow2;
use crate::error::{size_mismatch, unknown_version, Error, ErrorView, HeaderVariant};
use crate::layout::{following, lemma_following, pad, padding};
use crate::magic::{boot_magic, boot_magic_bytes, check_magic, magic_error};
use crate::version::OsVersionPatch;
use crate::wire::{
    field_at, lemma_append_keeps, lemma_append_places, lemma_join, lemma_u32_field,
    lemma_u32_le_round_trip, push_bytes, push_u32, push_zeros, read_array, read_u32, u32_at, u32_le,
    zeros,
};

verus! {

/// The page size of boot images from version 3 on.
pub const PAGE_SIZE: u32 = 4096;

/// Android boot image header versions 3 and 4
///
/// The page size is always 4096 bytes.
///
/// ## Section layout
///
/// ```text
/// +-----------------------+
/// |boot image header      |
/// |+ padding to page size |
/// +-----------------------+
/// |kernel                 |
/// |+ padding to page size |
/// +-----------------------+
/// |ramdisk                |
/// |+ padding to page size |
/// +-----------------------+
/// |boot signature (v4)    |
/// |+ padding to page size |
/// +-----------------------+
/// ```
///
/// ## Header layout
///
/// All integers are little-endian.
///
/// ```text
/// offset  width  field
///      0      8  magic "ANDROID!"
///      8      4  kernel_size
///     12      4  ramdisk_size
///     16      4  osversionpatch
///     20      4  header_size
///     24     16  reserved, written as zeros
///     40      4  header_version
///     44   1536  cmdline
///   1580      4  v4_signature_size  (v4)
/// ```
#[derive(Clone, Debug, PartialEq, Eq, Hash)]
pub struct HeaderV3 {
    /// Kernel size
    pub kernel_size: u32,
    /// Ramdisk size
    pub ramdisk_size: u32,
    /// OS version and patch level
    pub osversionpatch: OsVersionPatch,
    /// Kernel command line
    pub cmdline: Box<[u8; 1536]>,
    /// Boot signature size.
    ///
    /// This is only present in version 4 and the version will be inferred from this field.
    pub v4_signature_size: Option<u32>,
}

impl HeaderV3 {
    /// The header version: 4 with a boot signature size, else 3.
    pub open spec fn spec_header_version(&self) -> u32 {
        if self.v4_signature_size is Some {
            4
        } else {
            3
        }
    }

    /// The header's layout: that of its version.
    pub open spec fn variant(&self) -> HeaderVariant {
        if self.v4_signature_size is Some {
            HeaderVariant::BootV4
        } else {
            HeaderVariant::BootV3
        }
    }

    /// The size that the header states of itself: 1584 with a boot
    /// signature size, else 1580.
    pub open spec fn spec_header_size(&self) -> u32 {
        if self.v4_signature_size is Some {
            1584
        } else {
            1580
        }
    }

    /// The first 1580 bytes of the serialised header.
    #[verifier::opaque]
    pub open spec fn prefix_wire(&self) -> Seq<u8> {
        boot_magic() + u32_le(self.kernel_size) + u32_le(self.ramdisk_size) + u32_le(
            self.osversionpatch.0,
        ) + u32_le(self.spec_header_size()) + zeros(16) + u32_le(self.spec_header_version())
            + self.cmdline@
    }

    /// The serialised header. Version and size are computed from the
    /// presence of the boot signature size; the reserved bytes are zero.
    pub open spec fn wire(&self) -> Seq<u8> {
        match self.v4_signature_size {
            Some(size) => self.prefix_wire() + u32_le(size),
            None => self.prefix_wire(),
        }
    }

    /// The header's fields are what stands at their offsets in `bytes`.
    pub open spec fn decoded_from(&self, bytes: Seq<u8>) -> bool {
        &&& self.kernel_size == u32_at(bytes, 8)
        &&& self.ramdisk_size == u32_at(bytes, 12)
        &&& self.osversionpatch == OsVersionPatch(u32_at(bytes, 16))
        &&& self.cmdline@ == field_at(bytes, 44, 1536)
        &&& self.v4_signature_size == if u32_at(bytes, 40) == 4 {
            Some(u32_at(bytes, 1580))
        } else {
            None
        }
    }

    /// Why `bytes` does not start with a header of version 3 or 4, if it
    /// does not. The reserved bytes are not looked at.
    pub open spec fn read_error(bytes: Seq<u8>) -> Option<ErrorView> {
        let version = u32_at(bytes, 40);
        let size = u32_at(bytes, 20);
        if magic_error(bytes, boot_magic()) is Some {
            magic_error(bytes, boot_magic())
        } else if bytes.len() < 1580 {
            Some(ErrorView::ShortRead)
        } else if version != 3 && version != 4 {
            Some(unknown_version(version))
        } else if version == 4 && bytes.len() < 1584 {
            Some(ErrorView::ShortRead)
        } else if version == 4 && size != 1584 {
            Some(size_mismatch(HeaderVariant::BootV4, size))
        } else if version == 3 && size != 1580 {
            Some(size_mismatch(HeaderVariant::BootV3, size))
        } else {
            None
        }
    }

    /// Reads a header of version 3 or 4 from the start of `bytes`.
    ///
    /// Bytes after the header are not looked at. The header that comes back
    /// serialises to the bytes that it was read from, where the reserved
    /// bytes are zero.
    pub fn read(bytes: &[u8]) -> (r: Result<HeaderV3, Error>)
        ensures
            match r {
                Ok(h) => {
                    &&& Self::read_error(bytes@) is None
                    &&& h.decoded_from(bytes@)
                    &&& h.spec_header_version() == u32_at(bytes@, 40)
                    &&& h.wire_len() <= bytes@.len()
                    &&& field_at(bytes@, 24, 16) == zeros(16) ==> h.wire() == bytes@.subrange(
                        0,
                        h.wire_len() as int,
                    )
                },
                Err(e) => Self::read_error(bytes@) == Some(e@),
            },
    {
        match check_magic(bytes, boot_magic_bytes()) {
            Err(e) => {
                return Err(e);
            },
            Ok(_) => {},
        }
        if bytes.len() < 1580 {
            return Err(Error::ShortRead);
        }
        let kernel_size = read_u32(bytes, 8);
        let ramdisk_size = read_u32(bytes, 12);
        let osversionpatch = OsVersionPatch(read_u32(bytes, 16));
        let header_size = read_u32(bytes, 20);
        let header_version = read_u32(bytes, 40);
        let cmdline: [u8; 1536] = read_array::<1536>(bytes, 44);
        if header_version != 3 && header_version != 4 {
            return Err(Error::UnknownVersion { pos: 0x28, value: header_version });
        }
        let v4_signature_size = if header_version == 4 {
            if bytes.len() < 1584 {
                return Err(Error::ShortRead);
            }
            Some(read_u32(bytes, 1580))
        } else {
            None
        };
        let header = HeaderV3 {
            kernel_size,
            ramdisk_size,
            osversionpatch,
            cmdline: Box::new(cmdline),
            v4_signature_size,
        };
        if header_size != header.header_size() {
            return Err(
                Error::HeaderSizeMismatch {
                    variant: header.layout(),
                    expected: header.header_size(),
                    found: header_size,
                },
            );
        }
        proof {
            if field_at(bytes@, 24, 16) == zeros(16) {
                header.lemma_read_then_write(bytes@);
            }
        }
        Ok(header)
    }

    /// Serialises the header. Version and size are computed from the
    /// presence of the boot signature size.
    pub fn to_bytes(&self) -> (out: Vec<u8>)
        ensures
            out@ == self.wire(),
            out@.len() == self.wire_len(),
    {
        proof {
            self.lemma_wire_len();
        }
        let mut out: Vec<u8> = Vec::new();
        let magic = boot_magic_bytes();
        push_bytes(&mut out, magic.as_slice());
        assert(out@ =~= boot_magic());
        push_u32(&mut out, self.kernel_size);
        push_u32(&mut out, self.ramdisk_size);
        push_u32(&mut out, self.osversionpatch.0);
        push_u32(&mut out, self.header_size());
        push_zeros(&mut out, 16);
        push_u32(&mut out, self.header_version());
        push_bytes(&mut out, self.cmdline.as_slice());
        assert(out@ == self.prefix_wire()) by {
            reveal(HeaderV3::prefix_wire);
        }
        match self.v4_signature_size {
            Some(size) => {
                push_u32(&mut out, size);
            },
            None => {},
        }
        out
    }

    /// Appends the serialised header to `out`.
    pub fn write(&self, out: &mut Vec<u8>)
        ensures
            final(out)@ == old(out)@ + self.wire(),
    {
        let bytes = self.to_bytes();
        push_bytes(out, bytes.as_slice());
    }

    /// Returns the boot image header's version number.
    #[verifier::when_used_as_spec(spec_header_version)]
    pub fn header_version(&self) -> (r: u32)
        ensures
            r == self.spec_header_version(),
    {
        if self.v4_signature_size.is_some() {
            4
        } else {
            3
        }
    }

    /// Returns the size that the header states of itself.
    #[verifier::when_used_as_spec(spec_header_size)]
    pub fn header_size(&self) -> (r: u32)
        ensures
            r == self.spec_header_size(),
            r == crate::error::spec_header_size(self.variant()),
    {
        if self.v4_signature_size.is_some() {
            1584
        } else {
            1580
        }
    }

    /// Returns the header's layout.
    #[verifier::when_used_as_spec(variant)]
    pub fn layout(&self) -> (r: HeaderVariant)
        ensures
            r == self.variant(),
    {
        if self.v4_signature_size.is_some() {
            HeaderVariant::BootV4
        } else {
            HeaderVariant::BootV3
        }
    }

    /// Where the kernel starts: at the second page.
    pub open spec fn spec_kernel_position() -> nat {
        4096
    }

    /// Where the ramdisk starts: at the first page boundary at or after the
    /// end of the kernel.
    pub open spec fn spec_ramdisk_position(&self) -> nat {
        following(4096, Self::spec_kernel_position(), self.kernel_size as nat)
    }

    /// Where the boot signature starts: at the first page boundary at or
    /// after the end of the ramdisk.
    pub open spec fn spec_bootsig_position(&self) -> nat {
        following(4096, self.spec_ramdisk_position(), self.ramdisk_size as nat)
    }

    /// Returns the padding that follows a section of `size` bytes.
    pub fn get_padding(size: u32) -> (r: u64)
        ensures
            r == pad(4096, size as nat),
            r < 4096,
    {
        proof {
            lemma_page_size_pow2();
        }
        padding(PAGE_SIZE, size)
    }

    /// Returns the kernel's position in the boot image.
    ///
    /// Hardcoded to the page size, which is 4096.
    pub fn kernel_position() -> (r: u64)
        ensures
            r == Self::spec_kernel_position(),
    {
        PAGE_SIZE as u64
    }

    /// Returns the ramdisk's position in the boot image.
    pub fn ramdisk_position(&self) -> (r: u64)
        ensures
            r == self.spec_ramdisk_position(),
    {
        Self::kernel_position() + self.kernel_size as u64 + Self::get_padding(self.kernel_size)
    }

    /// Returns the boot signature's position in the boot image.
    pub fn bootsig_position(&self) -> (r: u64)
        ensures
            r == self.spec_bootsig_position(),
    {
        self.ramdisk_position() + self.ramdisk_size as u64 + Self::get_padding(self.ramdisk_size)
    }

    /// Every section starts at a page boundary, at or after the end of what
    /// comes before it and less than a page away from that end, so the
    /// sections come in the order header, kernel, ramdisk, boot signature.
    pub proof fn lemma_sections_aligned(&self)
        ensures
            Self::spec_kernel_position() % 4096 == 0,
            self.wire_len() <= Self::spec_kernel_position() < self.wire_len() + 4096,
            self.spec_ramdisk_position() % 4096 == 0,
            Self::spec_kernel_position() + self.kernel_size <= self.spec_ramdisk_position()
                < Self::spec_kernel_position() + self.kernel_size + 4096,
            self.spec_bootsig_position() % 4096 == 0,
            self.spec_ramdisk_position() + self.ramdisk_size <= self.spec_bootsig_position()
                < self.spec_ramdisk_position() + self.ramdisk_size + 4096,
            Self::spec_kernel_position() <= self.spec_ramdisk_position()
                <= self.spec_bootsig_position(),
    {
        lemma_following(4096, 4096, self.kernel_size as nat);
        lemma_following(4096, self.spec_ramdisk_position(), self.ramdisk_size as nat);
    }

    /// The serialised header is 1580 or 1584 bytes long, by version.
    pub open spec fn wire_len(&self) -> nat {
        self.spec_header_size() as nat
    }

    /// The serialised header has the length of its version.
    pub proof fn lemma_wire_len(&self)
        ensures
            self.wire().len() == self.wire_len(),
    {
        self.lemma_write_then_read(Seq::empty());
    }

    /// Reading what was written gives the header back, whatever follows it:
    /// the bytes are accepted, and the header is the one that they decode
    /// to.
    pub proof fn lemma_write_then_read(&self, rest: Seq<u8>)
        ensures
            self.wire().len() == self.wire_len(),
            Self::read_error(self.wire() + rest) is None,
            self.decoded_from(self.wire() + rest),
            u32_at(self.wire() + rest, 40) == self.spec_header_version(),
            u32_at(self.wire() + rest, 20) == self.spec_header_size(),
            field_at(self.wire() + rest, 24, 16) == zeros(16),
    {
        let w = self.wire() + rest;
        let empty = Seq::<u8>::empty();
        match self.v4_signature_size {
            Some(size) => {
                let tail = u32_le(size) + rest;
                assert(self.prefix_wire() + tail =~= w);
                self.lemma_prefix_fields(tail);
                lemma_u32_le_round_trip(size, empty);
                assert(w.subrange(1580, 1584) =~= u32_le(size));
            },
            None => {
                self.lemma_prefix_fields(rest);
            },
        }
    }

    /// Writing what was read gives the bytes back, where the reserved bytes
    /// are zero: a header that `bytes` decodes to serialises to the first
    /// bytes of `bytes`, as many as the header is long.
    pub proof fn lemma_read_then_write(&self, bytes: Seq<u8>)
        requires
            Self::read_error(bytes) is None,
            self.decoded_from(bytes),
            field_at(bytes, 24, 16) == zeros(16),
        ensures
            self.wire().len() == self.wire_len(),
            self.wire_len() <= bytes.len(),
            bytes.subrange(0, self.wire_len() as int) == self.wire(),
            self.spec_header_version() == u32_at(bytes, 40),
    {
        self.lemma_prefix_matches(bytes);
        match self.v4_signature_size {
            Some(size) => {
                lemma_u32_field(bytes, 1580);
                lemma_join(bytes, 0, 1580, 1584);
            },
            None => {},
        }
    }

    /// Two headers that the same bytes decode to are equal.
    pub proof fn lemma_decoded_unique(&self, other: &HeaderV3, bytes: Seq<u8>)
        requires
            self.decoded_from(bytes),
            other.decoded_from(bytes),
        ensures
            *self == *other,
    {
        assert(self.cmdline =~= other.cmdline);
    }

    /// The serialised header holds its version at offset 40 and its size at
    /// offset 20: 1580 in version 3, 1584 in version 4.
    pub proof fn lemma_version_and_size_slots(&self)
        ensures
            u32_at(self.wire(), 40) == self.spec_header_version(),
            self.v4_signature_size is None ==> u32_at(self.wire(), 20) == 1580,
            self.v4_signature_size is Some ==> u32_at(self.wire(), 20) == 1584,
    {
        let empty = Seq::<u8>::empty();
        assert(self.wire() + empty =~= self.wire());
        self.lemma_write_then_read(empty);
    }

    /// The fields that end at or before `upto` stand in `s` at their
    /// offsets, each as it is serialised.
    spec fn prefix_stands(&self, s: Seq<u8>, upto: int) -> bool {
        &&& 8 <= upto ==> s.subrange(0, 8) == boot_magic()
        &&& 12 <= upto ==> s.subrange(8, 12) == u32_le(self.kernel_size)
        &&& 16 <= upto ==> s.subrange(12, 16) == u32_le(self.ramdisk_size)
        &&& 20 <= upto ==> s.subrange(16, 20) == u32_le(self.osversionpatch.0)
        &&& 24 <= upto ==> s.subrange(20, 24) == u32_le(self.spec_header_size())
        &&& 40 <= upto ==> s.subrange(24, 40) == zeros(16)
        &&& 44 <= upto ==> s.subrange(40, 44) == u32_le(self.spec_header_version())
        &&& 1580 <= upto ==> s.subrange(44, 1580) == self.cmdline@
    }

    /// What stands in `s` stands in `s + more` too.
    proof fn lemma_stands_append(&self, s: Seq<u8>, more: Seq<u8>, upto: int)
        requires
            self.prefix_stands(s, upto),
            upto <= s.len(),
        ensures
            self.prefix_stands(s + more, upto),
    {
        if 8 <= upto {
            lemma_append_keeps(s, more, 0, 8);
        }
        if 12 <= upto {
            lemma_append_keeps(s, more, 8, 12);
        }
        if 16 <= upto {
            lemma_append_keeps(s, more, 12, 16);
        }
        if 20 <= upto {
            lemma_append_keeps(s, more, 16, 20);
        }
        if 24 <= upto {
            lemma_append_keeps(s, more, 20, 24);
        }
        if 40 <= upto {
            lemma_append_keeps(s, more, 24, 40);
        }
        if 44 <= upto {
            lemma_append_keeps(s, more, 40, 44);
        }
        if 1580 <= upto {
            lemma_append_keeps(s, more, 44, 1580);
        }
    }

    /// Every field of the first 1580 bytes stands at its offset in the
    /// serialised header, whatever follows.
    proof fn lemma_prefix_stands(&self, tail: Seq<u8>)
        ensures
            self.prefix_wire().len() == 1580,
            self.prefix_stands(self.prefix_wire() + tail, 1580),
    {
        let s0 = boot_magic();
        assert(s0.subrange(0, 8) =~= s0);
        let s1 = s0 + u32_le(self.kernel_size);
        self.lemma_stands_append(s0, u32_le(self.kernel_size), 8);
        lemma_append_places(s0, u32_le(self.kernel_size));
        let s2 = s1 + u32_le(self.ramdisk_size);
        self.lemma_stands_append(s1, u32_le(self.ramdisk_size), 12);
        lemma_append_places(s1, u32_le(self.ramdisk_size));
        let s3 = s2 + u32_le(self.osversionpatch.0);
        self.lemma_stands_append(s2, u32_le(self.osversionpatch.0), 16);
        lemma_append_places(s2, u32_le(self.osversionpatch.0));
        let s4 = s3 + u32_le(self.spec_header_size());
        self.lemma_stands_append(s3, u32_le(self.spec_header_size()), 20);
        lemma_append_places(s3, u32_le(self.spec_header_size()));
        let s5 = s4 + zeros(16);
        self.lemma_stands_append(s4, zeros(16), 24);
        lemma_append_places(s4, zeros(16));
        let s6 = s5 + u32_le(self.spec_header_version());
        self.lemma_stands_append(s5, u32_le(self.spec_header_version()), 40);
        lemma_append_places(s5, u32_le(self.spec_header_version()));
        let s7 = s6 + self.cmdline@;
        self.lemma_stands_append(s6, self.cmdline@, 44);
        lemma_append_places(s6, self.cmdline@);
        assert(self.prefix_wire() == s7) by {
            reveal(HeaderV3::prefix_wire);
        }
        self.lemma_stands_append(s7, tail, 1580);
    }

    /// Each field of the first 1580 bytes is read back from its offset
    /// in the serialised header.
    proof fn lemma_prefix_fields(&self, tail: Seq<u8>)
        ensures
            self.prefix_wire().len() == 1580,
            ({
                let w = self.prefix_wire() + tail;
                &&& field_at(w, 0, 8) == boot_magic()
                &&& u32_at(w, 8) == self.kernel_size
                &&& u32_at(w, 12) == self.ramdisk_size
                &&& u32_at(w, 16) == self.osversionpatch.0
                &&& u32_at(w, 20) == self.spec_header_size()
                &&& field_at(w, 24, 16) == zeros(16)
                &&& u32_at(w, 40) == self.spec_header_version()
                &&& field_at(w, 44, 1536) == self.cmdline@
            }),
    {
        let empty = Seq::<u8>::empty();
        self.lemma_prefix_stands(tail);
        lemma_u32_le_round_trip(self.kernel_size, empty);
        lemma_u32_le_round_trip(self.ramdisk_size, empty);
        lemma_u32_le_round_trip(self.osversionpatch.0, empty);
        lemma_u32_le_round_trip(self.spec_header_size(), empty);
        lemma_u32_le_round_trip(self.spec_header_version(), empty);
    }

    /// The first 1580 bytes of `bytes` are the serialised fields that they
    /// decode to, where the reserved bytes are zero.
    proof fn lemma_prefix_matches(&self, bytes: Seq<u8>)
        requires
            Self::read_error(bytes) is None,
            self.decoded_from(bytes),
            field_at(bytes, 24, 16) == zeros(16),
        ensures
            bytes.len() >= self.wire_len(),
            self.prefix_wire() == bytes.subrange(0, 1580),
            self.spec_header_version() == u32_at(bytes, 40),
    {
        let s0 = boot_magic();
        assert(s0 == bytes.subrange(0, 8));
        let s1 = s0 + u32_le(self.kernel_size);
        assert(s1 == bytes.subrange(0, 12)) by {
            lemma_u32_field(bytes, 8);
            lemma_join(bytes, 0, 8, 12);
        }
        let s2 = s1 + u32_le(self.ramdisk_size);
        assert(s2 == bytes.subrange(0, 16)) by {
            lemma_u32_field(bytes, 12);
            lemma_join(bytes, 0, 12, 16);
        }
        let s3 = s2 + u32_le(self.osversionpatch.0);
        assert(s3 == bytes.subrange(0, 20)) by {
            lemma_u32_field(bytes, 16);
            lemma_join(bytes, 0, 16, 20);
        }
        let s4 = s3 + u32_le(self.spec_header_size());
        assert(s4 == bytes.subrange(0, 24)) by {
            lemma_u32_field(bytes, 20);
            lemma_join(bytes, 0, 20, 24);
        }
        let s5 = s4 + zeros(16);
        assert(s5 == bytes.subrange(0, 40)) by {
            lemma_join(bytes, 0, 24, 40);
        }
        let s6 = s5 + u32_le(self.spec_header_version());
        assert(s6 == bytes.subrange(0, 44)) by {
            lemma_u32_field(bytes, 40);
            lemma_join(bytes, 0, 40, 44);
        }
        let s7 = s6 + self.cmdline@;
        assert(s7 == bytes.subrange(0, 1580)) by {
            lemma_join(bytes, 0, 44, 1580);
        }
        assert(self.prefix_wire() == s7) by {
            reveal(HeaderV3::prefix_wire);
        }
    }
}

/// 4096 is a power of two.
pub proof fn lemma_page_size_pow2()
    ensures
        is_pow2(PAGE_SIZE as int),
{
    reveal_with_fuel(is_pow2, 14);
}

} // verus!
