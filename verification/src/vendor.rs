//! Vendor boot image headers of versions 3 and 4.

use vstd::prelude::*;
use crate::error::{size_mismatch, Error, ErrorView, HeaderVariant};
use crate::magic::{check_magic, magic_error, vendor_magic, vendor_magic_bytes};
use crate::wire::{
    field_at, lemma_append_keeps, lemma_append_places, lemma_join, lemma_u32_field,
    lemma_u32_le_round_trip, lemma_u64_field, lemma_u64_le_round_trip, push_bytes, push_u32,
    push_u64, read_array, read_u32, read_u64, u32_at, u32_le, u64_at, u64_le,
};

verus! {

/// Android vendor boot image header version 3 and 4
///
/// ## Header layout
///
/// All integers are little-endian.
///
/// ```text
/// offset  width  field
///      0      8  magic "VNDRBOOT"
///      8      4  header_version
///     12      4  page_size
///     16      4  kernel_addr
///     20      4  ramdisk_addr
///     24      4  vendor_ramdisk_size
///     28   2048  cmdline
///   2076      4  tags_addr
///   2080     16  board_name
///   2096      4  header_size
///   2100      4  dtb_size
///   2104      8  dtb_addr
///   2112      4  vendor_ramdisk_table_size        (v4)
///   2116      4  vendor_ramdisk_table_entry_num   (v4)
///   2120      4  vendor_ramdisk_table_entry_size  (v4)
///   2124      4  bootconfig_size                  (v4)
/// ```
#[derive(Clone, Debug, PartialEq, Eq, Hash)]
pub struct VendorHeader {
    /// Page size in bytes
    pub page_size: u32,
    /// Kernel physical load address
    pub kernel_addr: u32,
    /// Ramdisk physical load address
    pub ramdisk_addr: u32,
    /// Vendor ramdisk size
    pub vendor_ramdisk_size: u32,
    /// Kernel command line
    pub cmdline: Box<[u8; 2048]>,
    /// Kernel tags physical load address
    pub tags_addr: u32,
    /// Board or product name
    pub board_name: [u8; 16],
    /// DTB size
    pub dtb_size: u32,
    /// DTB physical load address
    pub dtb_addr: u64,
    /// V4-specific fields.
    ///
    /// This is only present in version 4 and the version will be inferred from this field.
    pub v4: Option<VendorHeaderV4>,
}

/// V4-specific fields of the Android vendor boot image header
#[derive(Clone, Debug, PartialEq, Eq, Hash)]
pub struct VendorHeaderV4 {
    /// Size of the vendor ramdisk table
    pub vendor_ramdisk_table_size: u32,
    /// Number of entries in the vendor ramdisk table
    pub vendor_ramdisk_table_entry_num: u32,
    /// Size of one entry of the vendor ramdisk table
    pub vendor_ramdisk_table_entry_size: u32,
    /// Size of the bootconfig section
    pub bootconfig_size: u32,
}

/// The failure of a vendor header whose version word, at offset 8, is
/// `value`.
pub open spec fn unknown_vendor_version(value: u32) -> ErrorView {
    ErrorView::UnknownVersion { pos: 8, value }
}

impl VendorHeaderV4 {
    /// The sixteen bytes of the four fields.
    pub open spec fn wire(&self) -> Seq<u8> {
        u32_le(self.vendor_ramdisk_table_size) + u32_le(self.vendor_ramdisk_table_entry_num)
            + u32_le(self.vendor_ramdisk_table_entry_size) + u32_le(self.bootconfig_size)
    }

    /// The fields that `bytes` holds from offset 2112 on.
    pub open spec fn at(bytes: Seq<u8>) -> Self {
        VendorHeaderV4 {
            vendor_ramdisk_table_size: u32_at(bytes, 2112),
            vendor_ramdisk_table_entry_num: u32_at(bytes, 2116),
            vendor_ramdisk_table_entry_size: u32_at(bytes, 2120),
            bootconfig_size: u32_at(bytes, 2124),
        }
    }
}

impl VendorHeader {
    /// The header version: 4 with the fields of version 4, else 3.
    pub open spec fn spec_header_version(&self) -> u32 {
        if self.v4 is Some {
            4
        } else {
            3
        }
    }

    /// The header's layout: that of its version.
    pub open spec fn variant(&self) -> HeaderVariant {
        if self.v4 is Some {
            HeaderVariant::VendorV4
        } else {
            HeaderVariant::VendorV3
        }
    }

    /// The size that the header states of itself: 2128 with the fields of
    /// version 4, else 2112.
    pub open spec fn spec_header_size(&self) -> u32 {
        if self.v4 is Some {
            2128
        } else {
            2112
        }
    }

    /// The first 2112 bytes of the serialised header.
    #[verifier::opaque]
    pub open spec fn prefix_wire(&self) -> Seq<u8> {
        vendor_magic() + u32_le(self.spec_header_version()) + u32_le(self.page_size) + u32_le(
            self.kernel_addr,
        ) + u32_le(self.ramdisk_addr) + u32_le(self.vendor_ramdisk_size) + self.cmdline@ + u32_le(
            self.tags_addr,
        ) + self.board_name@ + u32_le(self.spec_header_size()) + u32_le(self.dtb_size) + u64_le(
            self.dtb_addr,
        )
    }

    /// The serialised header. Version and size are computed from the
    /// presence of the fields of version 4.
    pub open spec fn wire(&self) -> Seq<u8> {
        match self.v4 {
            Some(v4) => self.prefix_wire() + v4.wire(),
            None => self.prefix_wire(),
        }
    }

    /// The header's fields are what stands at their offsets in `bytes`.
    pub open spec fn decoded_from(&self, bytes: Seq<u8>) -> bool {
        &&& self.page_size == u32_at(bytes, 12)
        &&& self.kernel_addr == u32_at(bytes, 16)
        &&& self.ramdisk_addr == u32_at(bytes, 20)
        &&& self.vendor_ramdisk_size == u32_at(bytes, 24)
        &&& self.cmdline@ == field_at(bytes, 28, 2048)
        &&& self.tags_addr == u32_at(bytes, 2076)
        &&& self.board_name@ == field_at(bytes, 2080, 16)
        &&& self.dtb_size == u32_at(bytes, 2100)
        &&& self.dtb_addr == u64_at(bytes, 2104)
        &&& self.v4 == if u32_at(bytes, 8) == 4 {
            Some(VendorHeaderV4::at(bytes))
        } else {
            None
        }
    }

    /// Why `bytes` does not start with a vendor header of version 3 or 4, if
    /// it does not.
    pub open spec fn read_error(bytes: Seq<u8>) -> Option<ErrorView> {
        let version = u32_at(bytes, 8);
        let size = u32_at(bytes, 2096);
        if magic_error(bytes, vendor_magic()) is Some {
            magic_error(bytes, vendor_magic())
        } else if bytes.len() < 2112 {
            Some(ErrorView::ShortRead)
        } else if version != 3 && version != 4 {
            Some(unknown_vendor_version(version))
        } else if version == 4 && bytes.len() < 2128 {
            Some(ErrorView::ShortRead)
        } else if version == 4 && size != 2128 {
            Some(size_mismatch(HeaderVariant::VendorV4, size))
        } else if version == 3 && size != 2112 {
            Some(size_mismatch(HeaderVariant::VendorV3, size))
        } else {
            None
        }
    }

    /// Reads a vendor header of version 3 or 4 from the start of `bytes`.
    ///
    /// Bytes after the header are not looked at. The header that comes back
    /// serialises to the bytes that it was read from.
    pub fn read(bytes: &[u8]) -> (r: Result<VendorHeader, Error>)
        ensures
            match r {
                Ok(h) => {
                    &&& Self::read_error(bytes@) is None
                    &&& h.decoded_from(bytes@)
                    &&& h.spec_header_version() == u32_at(bytes@, 8)
                    &&& h.wire_len() <= bytes@.len()
                    &&& h.wire() == bytes@.subrange(0, h.wire_len() as int)
                },
                Err(e) => Self::read_error(bytes@) == Some(e@),
            },
    {
        match check_magic(bytes, vendor_magic_bytes()) {
            Err(e) => {
                return Err(e);
            },
            Ok(_) => {},
        }
        if bytes.len() < 2112 {
            return Err(Error::ShortRead);
        }
        let header_version = read_u32(bytes, 8);
        let page_size = read_u32(bytes, 12);
        let kernel_addr = read_u32(bytes, 16);
        let ramdisk_addr = read_u32(bytes, 20);
        let vendor_ramdisk_size = read_u32(bytes, 24);
        let cmdline: [u8; 2048] = read_array::<2048>(bytes, 28);
        let tags_addr = read_u32(bytes, 2076);
        let board_name: [u8; 16] = read_array::<16>(bytes, 2080);
        let header_size = read_u32(bytes, 2096);
        let dtb_size = read_u32(bytes, 2100);
        let dtb_addr = read_u64(bytes, 2104);
        if header_version != 3 && header_version != 4 {
            return Err(Error::UnknownVersion { pos: 8, value: header_version });
        }
        let v4 = if header_version == 4 {
            if bytes.len() < 2128 {
                return Err(Error::ShortRead);
            }
            Some(
                VendorHeaderV4 {
                    vendor_ramdisk_table_size: read_u32(bytes, 2112),
                    vendor_ramdisk_table_entry_num: read_u32(bytes, 2116),
                    vendor_ramdisk_table_entry_size: read_u32(bytes, 2120),
                    bootconfig_size: read_u32(bytes, 2124),
                },
            )
        } else {
            None
        };
        let header = VendorHeader {
            page_size,
            kernel_addr,
            ramdisk_addr,
            vendor_ramdisk_size,
            cmdline: Box::new(cmdline),
            tags_addr,
            board_name,
            dtb_size,
            dtb_addr,
            v4,
        };
        if header_size != header.header_size() {
            return Err(
                Error::HeaderSizeMismatch {
                    variant: header.layout(),
                    expected: header.header_size(),
                    found: header_size,
                },
            );
        }
        proof {
            header.lemma_read_then_write(bytes@);
        }
        Ok(header)
    }

    /// Serialises the header. Version and size are computed from the
    /// presence of the fields of version 4.
    pub fn to_bytes(&self) -> (out: Vec<u8>)
        ensures
            out@ == self.wire(),
            out@.len() == self.wire_len(),
    {
        proof {
            self.lemma_wire_len();
        }
        let mut out: Vec<u8> = Vec::new();
        let magic = vendor_magic_bytes();
        push_bytes(&mut out, magic.as_slice());
        assert(out@ =~= vendor_magic());
        push_u32(&mut out, self.header_version());
        push_u32(&mut out, self.page_size);
        push_u32(&mut out, self.kernel_addr);
        push_u32(&mut out, self.ramdisk_addr);
        push_u32(&mut out, self.vendor_ramdisk_size);
        push_bytes(&mut out, self.cmdline.as_slice());
        push_u32(&mut out, self.tags_addr);
        push_bytes(&mut out, self.board_name.as_slice());
        push_u32(&mut out, self.header_size());
        push_u32(&mut out, self.dtb_size);
        push_u64(&mut out, self.dtb_addr);
        assert(out@ == self.prefix_wire()) by {
            reveal(VendorHeader::prefix_wire);
        }
        match &self.v4 {
            Some(v4) => {
                push_u32(&mut out, v4.vendor_ramdisk_table_size);
                push_u32(&mut out, v4.vendor_ramdisk_table_entry_num);
                push_u32(&mut out, v4.vendor_ramdisk_table_entry_size);
                push_u32(&mut out, v4.bootconfig_size);
                assert(out@ =~= self.prefix_wire() + v4.wire());
            },
            None => {},
        }
        out
    }

    /// Appends the serialised header to `out`.
    pub fn write(&self, out: &mut Vec<u8>)
        ensures
            final(out)@ == old(out)@ + self.wire(),
    {
        let bytes = self.to_bytes();
        push_bytes(out, bytes.as_slice());
    }

    /// Returns the vendor boot image header's version number.
    #[verifier::when_used_as_spec(spec_header_version)]
    pub fn header_version(&self) -> (r: u32)
        ensures
            r == self.spec_header_version(),
    {
        if self.v4.is_some() {
            4
        } else {
            3
        }
    }

    /// Returns the size that the header states of itself.
    #[verifier::when_used_as_spec(spec_header_size)]
    pub fn header_size(&self) -> (r: u32)
        ensures
            r == self.spec_header_size(),
            r == crate::error::spec_header_size(self.variant()),
    {
        if self.v4.is_some() {
            2128
        } else {
            2112
        }
    }

    /// Returns the header's layout.
    #[verifier::when_used_as_spec(variant)]
    pub fn layout(&self) -> (r: HeaderVariant)
        ensures
            r == self.variant(),
    {
        if self.v4.is_some() {
            HeaderVariant::VendorV4
        } else {
            HeaderVariant::VendorV3
        }
    }

    /// The serialised header is 2112 or 2128 bytes long, by version.
    pub open spec fn wire_len(&self) -> nat {
        self.spec_header_size() as nat
    }

    /// The serialised header has the length of its version.
    pub proof fn lemma_wire_len(&self)
        ensures
            self.wire().len() == self.wire_len(),
    {
        self.lemma_write_then_read(Seq::empty());
    }

    /// Reading what was written gives the header back, whatever follows it:
    /// the bytes are accepted, and the header is the one that they decode
    /// to.
    pub proof fn lemma_write_then_read(&self, rest: Seq<u8>)
        ensures
            self.wire().len() == self.wire_len(),
            Self::read_error(self.wire() + rest) is None,
            self.decoded_from(self.wire() + rest),
            u32_at(self.wire() + rest, 8) == self.spec_header_version(),
            u32_at(self.wire() + rest, 2096) == self.spec_header_size(),
    {
        let w = self.wire() + rest;
        let empty = Seq::<u8>::empty();
        match self.v4 {
            Some(v4) => {
                let tail = v4.wire() + rest;
                assert(self.prefix_wire() + tail =~= w);
                self.lemma_prefix_fields(tail);
                lemma_u32_le_round_trip(v4.vendor_ramdisk_table_size, empty);
                lemma_u32_le_round_trip(v4.vendor_ramdisk_table_entry_num, empty);
                lemma_u32_le_round_trip(v4.vendor_ramdisk_table_entry_size, empty);
                lemma_u32_le_round_trip(v4.bootconfig_size, empty);
                assert(w.subrange(2112, 2116) =~= u32_le(v4.vendor_ramdisk_table_size));
                assert(w.subrange(2116, 2120) =~= u32_le(v4.vendor_ramdisk_table_entry_num));
                assert(w.subrange(2120, 2124) =~= u32_le(v4.vendor_ramdisk_table_entry_size));
                assert(w.subrange(2124, 2128) =~= u32_le(v4.bootconfig_size));
            },
            None => {
                self.lemma_prefix_fields(rest);
            },
        }
    }

    /// Writing what was read gives the bytes back: a header that `bytes`
    /// decodes to serialises to the first bytes of `bytes`, as many as the
    /// header is long.
    pub proof fn lemma_read_then_write(&self, bytes: Seq<u8>)
        requires
            Self::read_error(bytes) is None,
            self.decoded_from(bytes),
        ensures
            self.wire().len() == self.wire_len(),
            self.wire_len() <= bytes.len(),
            bytes.subrange(0, self.wire_len() as int) == self.wire(),
            self.spec_header_version() == u32_at(bytes, 8),
    {
        self.lemma_prefix_matches(bytes);
        match self.v4 {
            Some(v4) => {
                lemma_u32_field(bytes, 2112);
                lemma_u32_field(bytes, 2116);
                lemma_u32_field(bytes, 2120);
                lemma_u32_field(bytes, 2124);
                lemma_join(bytes, 2112, 2116, 2120);
                lemma_join(bytes, 2112, 2120, 2124);
                lemma_join(bytes, 2112, 2124, 2128);
                lemma_join(bytes, 0, 2112, 2128);
            },
            None => {},
        }
    }

    /// Two headers that the same bytes decode to are equal.
    pub proof fn lemma_decoded_unique(&self, other: &VendorHeader, bytes: Seq<u8>)
        requires
            self.decoded_from(bytes),
            other.decoded_from(bytes),
        ensures
            *self == *other,
    {
        assert(self.cmdline =~= other.cmdline);
        assert(self.board_name =~= other.board_name);
    }

    /// The serialised header holds its version at offset 8 and its size at
    /// offset 2096: 2112 in version 3, 2128 in version 4.
    pub proof fn lemma_version_and_size_slots(&self)
        ensures
            u32_at(self.wire(), 8) == self.spec_header_version(),
            self.v4 is None ==> u32_at(self.wire(), 2096) == 2112,
            self.v4 is Some ==> u32_at(self.wire(), 2096) == 2128,
    {
        let empty = Seq::<u8>::empty();
        assert(self.wire() + empty =~= self.wire());
        self.lemma_write_then_read(empty);
    }

    /// The fields that end at or before `upto` stand in `s` at their
    /// offsets, each as it is serialised.
    spec fn prefix_stands(&self, s: Seq<u8>, upto: int) -> bool {
        &&& 8 <= upto ==> s.subrange(0, 8) == vendor_magic()
        &&& 12 <= upto ==> s.subrange(8, 12) == u32_le(self.spec_header_version())
        &&& 16 <= upto ==> s.subrange(12, 16) == u32_le(self.page_size)
        &&& 20 <= upto ==> s.subrange(16, 20) == u32_le(self.kernel_addr)
        &&& 24 <= upto ==> s.subrange(20, 24) == u32_le(self.ramdisk_addr)
        &&& 28 <= upto ==> s.subrange(24, 28) == u32_le(self.vendor_ramdisk_size)
        &&& 2076 <= upto ==> s.subrange(28, 2076) == self.cmdline@
        &&& 2080 <= upto ==> s.subrange(2076, 2080) == u32_le(self.tags_addr)
        &&& 2096 <= upto ==> s.subrange(2080, 2096) == self.board_name@
        &&& 2100 <= upto ==> s.subrange(2096, 2100) == u32_le(self.spec_header_size())
        &&& 2104 <= upto ==> s.subrange(2100, 2104) == u32_le(self.dtb_size)
        &&& 2112 <= upto ==> s.subrange(2104, 2112) == u64_le(self.dtb_addr)
    }

    /// What stands in `s` stands in `s + more` too.
    proof fn lemma_stands_append(&self, s: Seq<u8>, more: Seq<u8>, upto: int)
        requires
            self.prefix_stands(s, upto),
            upto <= s.len(),
        ensures
            self.prefix_stands(s + more, upto),
    {
        if 8 <= upto {
            lemma_append_keeps(s, more, 0, 8);
        }
        if 12 <= upto {
            lemma_append_keeps(s, more, 8, 12);
        }
        if 16 <= upto {
            lemma_append_keeps(s, more, 12, 16);
        }
        if 20 <= upto {
            lemma_append_keeps(s, more, 16, 20);
        }
        if 24 <= upto {
            lemma_append_keeps(s, more, 20, 24);
        }
        if 28 <= upto {
            lemma_append_keeps(s, more, 24, 28);
        }
        if 2076 <= upto {
            lemma_append_keeps(s, more, 28, 2076);
        }
        if 2080 <= upto {
            lemma_append_keeps(s, more, 2076, 2080);
        }
        if 2096 <= upto {
            lemma_append_keeps(s, more, 2080, 2096);
        }
        if 2100 <= upto {
            lemma_append_keeps(s, more, 2096, 2100);
        }
        if 2104 <= upto {
            lemma_append_keeps(s, more, 2100, 2104);
        }
        if 2112 <= upto {
            lemma_append_keeps(s, more, 2104, 2112);
        }
    }

    /// Every field of the first 2112 bytes stands at its offset in the
    /// serialised header, whatever follows.
    proof fn lemma_prefix_stands(&self, tail: Seq<u8>)
        ensures
            self.prefix_wire().len() == 2112,
            self.prefix_stands(self.prefix_wire() + tail, 2112),
    {
        let s0 = vendor_magic();
        assert(s0.subrange(0, 8) =~= s0);
        let s1 = s0 + u32_le(self.spec_header_version());
        self.lemma_stands_append(s0, u32_le(self.spec_header_version()), 8);
        lemma_append_places(s0, u32_le(self.spec_header_version()));
        let s2 = s1 + u32_le(self.page_size);
        self.lemma_stands_append(s1, u32_le(self.page_size), 12);
        lemma_append_places(s1, u32_le(self.page_size));
        let s3 = s2 + u32_le(self.kernel_addr);
        self.lemma_stands_append(s2, u32_le(self.kernel_addr), 16);
        lemma_append_places(s2, u32_le(self.kernel_addr));
        let s4 = s3 + u32_le(self.ramdisk_addr);
        self.lemma_stands_append(s3, u32_le(self.ramdisk_addr), 20);
        lemma_append_places(s3, u32_le(self.ramdisk_addr));
        let s5 = s4 + u32_le(self.vendor_ramdisk_size);
        self.lemma_stands_append(s4, u32_le(self.vendor_ramdisk_size), 24);
        lemma_append_places(s4, u32_le(self.vendor_ramdisk_size));
        let s6 = s5 + self.cmdline@;
        self.lemma_stands_append(s5, self.cmdline@, 28);
        lemma_append_places(s5, self.cmdline@);
        let s7 = s6 + u32_le(self.tags_addr);
        self.lemma_stands_append(s6, u32_le(self.tags_addr), 2076);
        lemma_append_places(s6, u32_le(self.tags_addr));
        let s8 = s7 + self.board_name@;
        self.lemma_stands_append(s7, self.board_name@, 2080);
        lemma_append_places(s7, self.board_name@);
        let s9 = s8 + u32_le(self.spec_header_size());
        self.lemma_stands_append(s8, u32_le(self.spec_header_size()), 2096);
        lemma_append_places(s8, u32_le(self.spec_header_size()));
        let s10 = s9 + u32_le(self.dtb_size);
        self.lemma_stands_append(s9, u32_le(self.dtb_size), 2100);
        lemma_append_places(s9, u32_le(self.dtb_size));
        let s11 = s10 + u64_le(self.dtb_addr);
        self.lemma_stands_append(s10, u64_le(self.dtb_addr), 2104);
        lemma_append_places(s10, u64_le(self.dtb_addr));
        assert(self.prefix_wire() == s11) by {
            reveal(VendorHeader::prefix_wire);
        }
        self.lemma_stands_append(s11, tail, 2112);
    }

    /// Each field of the first 2112 bytes is read back from its offset
    /// in the serialised header.
    proof fn lemma_prefix_fields(&self, tail: Seq<u8>)
        ensures
            self.prefix_wire().len() == 2112,
            ({
                let w = self.prefix_wire() + tail;
                &&& field_at(w, 0, 8) == vendor_magic()
                &&& u32_at(w, 8) == self.spec_header_version()
                &&& u32_at(w, 12) == self.page_size
                &&& u32_at(w, 16) == self.kernel_addr
                &&& u32_at(w, 20) == self.ramdisk_addr
                &&& u32_at(w, 24) == self.vendor_ramdisk_size
                &&& field_at(w, 28, 2048) == self.cmdline@
                &&& u32_at(w, 2076) == self.tags_addr
                &&& field_at(w, 2080, 16) == self.board_name@
                &&& u32_at(w, 2096) == self.spec_header_size()
                &&& u32_at(w, 2100) == self.dtb_size
                &&& u64_at(w, 2104) == self.dtb_addr
            }),
    {
        let empty = Seq::<u8>::empty();
        self.lemma_prefix_stands(tail);
        lemma_u32_le_round_trip(self.spec_header_version(), empty);
        lemma_u32_le_round_trip(self.page_size, empty);
        lemma_u32_le_round_trip(self.kernel_addr, empty);
        lemma_u32_le_round_trip(self.ramdisk_addr, empty);
        lemma_u32_le_round_trip(self.vendor_ramdisk_size, empty);
        lemma_u32_le_round_trip(self.tags_addr, empty);
        lemma_u32_le_round_trip(self.spec_header_size(), empty);
        lemma_u32_le_round_trip(self.dtb_size, empty);
        lemma_u64_le_round_trip(self.dtb_addr, empty);
    }

    /// The first 2112 bytes of `bytes` are the serialised fields that they
    /// decode to.
    proof fn lemma_prefix_matches(&self, bytes: Seq<u8>)
        requires
            Self::read_error(bytes) is None,
            self.decoded_from(bytes),
        ensures
            bytes.len() >= self.wire_len(),
            self.prefix_wire() == bytes.subrange(0, 2112),
            self.spec_header_version() == u32_at(bytes, 8),
    {
        let s0 = vendor_magic();
        assert(s0 == bytes.subrange(0, 8));
        let s1 = s0 + u32_le(self.spec_header_version());
        assert(s1 == bytes.subrange(0, 12)) by {
            lemma_u32_field(bytes, 8);
            lemma_join(bytes, 0, 8, 12);
        }
        let s2 = s1 + u32_le(self.page_size);
        assert(s2 == bytes.subrange(0, 16)) by {
            lemma_u32_field(bytes, 12);
            lemma_join(bytes, 0, 12, 16);
        }
        let s3 = s2 + u32_le(self.kernel_addr);
        assert(s3 == bytes.subrange(0, 20)) by {
            lemma_u32_field(bytes, 16);
            lemma_join(bytes, 0, 16, 20);
        }
        let s4 = s3 + u32_le(self.ramdisk_addr);
        assert(s4 == bytes.subrange(0, 24)) by {
            lemma_u32_field(bytes, 20);
            lemma_join(bytes, 0, 20, 24);
        }
        let s5 = s4 + u32_le(self.vendor_ramdisk_size);
        assert(s5 == bytes.subrange(0, 28)) by {
            lemma_u32_field(bytes, 24);
            lemma_join(bytes, 0, 24, 28);
        }
        let s6 = s5 + self.cmdline@;
        assert(s6 == bytes.subrange(0, 2076)) by {
            lemma_join(bytes, 0, 28, 2076);
        }
        let s7 = s6 + u32_le(self.tags_addr);
        assert(s7 == bytes.subrange(0, 2080)) by {
            lemma_u32_field(bytes, 2076);
            lemma_join(bytes, 0, 2076, 2080);
        }
        let s8 = s7 + self.board_name@;
        assert(s8 == bytes.subrange(0, 2096)) by {
            lemma_join(bytes, 0, 2080, 2096);
        }
        let s9 = s8 + u32_le(self.spec_header_size());
        assert(s9 == bytes.subrange(0, 2100)) by {
            lemma_u32_field(bytes, 2096);
            lemma_join(bytes, 0, 2096, 2100);
        }
        let s10 = s9 + u32_le(self.dtb_size);
        assert(s10 == bytes.subrange(0, 2104)) by {
            lemma_u32_field(bytes, 2100);
            lemma_join(bytes, 0, 2100, 2104);
        }
        let s11 = s10 + u64_le(self.dtb_addr);
        assert(s11 == bytes.subrange(0, 2112)) by {
            lemma_u64_field(bytes, 2104);
            lemma_join(bytes, 0, 2104, 2112);
        }
        assert(self.prefix_wire() == s11) by {
            reveal(VendorHeader::prefix_wire);
        }
    }
}

} // verus!
