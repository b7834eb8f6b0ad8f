//! Boot image headers of versions 0, 1 and 2.

use vstd::arithmetic::div_mod::lemma_small_mod;
use vstd::arithmetic::power2::is_pow2;
use vstd::prelude::*;
use crate::error::{size_mismatch, unknown_version, Error, ErrorView, HeaderVariant};
use crate::layout::{
    following, lemma_following, lemma_pad, lemma_padded_size_positive, next_position, pad, padding,
};
use crate::magic::{boot_magic, boot_magic_bytes, check_magic, magic_error};
use crate::version::OsVersionPatch;
use crate::wire::{
    field_at, lemma_append_keeps, lemma_append_places, lemma_join, lemma_u32_field,
    lemma_u32_le_round_trip, lemma_u64_le_round_trip, push_bytes, push_u32, push_u64, read_array,
    read_u32, read_u64, u32_at, u32_le, u64_at, u64_le,
};

verus! {

/// Android boot image header versions 0, 1 and 2
///
/// ## Section layout
///
/// ```text
/// +-------------------------+
/// |boot image header        |
/// |+ padding to page size   |
/// +-------------------------+
/// |kernel                   |
/// |+ padding to page size   |
/// +-------------------------+
/// |ramdisk                  |
/// |+ padding to page size   |
/// +-------------------------+
/// |second stage bootloader  |
/// |+ padding to page size   |
/// +-------------------------+
/// |recovery dtbo/acpio (v1+)|
/// |+ padding to page size   |
/// +-------------------------+
/// |dtb (v2)                 |
/// |+ padding to page size   |
/// +-------------------------+
/// ```
///
/// ## Header layout
///
/// All integers are little-endian.
///
/// ```text
/// offset  width  field
///      0      8  magic "ANDROID!"
///      8      4  kernel_size
///     12      4  kernel_addr
///     16      4  ramdisk_size
///     20      4  ramdisk_addr
///     24      4  second_bootloader_size
///     28      4  second_bootloader_addr
///     32      4  tags_addr
///     36      4  page_size
///     40      4  header_version
///     44      4  osversionpatch
///     48     16  board_name
///     64    512  cmdline_part_1
///    576     32  hash_digest
///    608   1024  cmdline_part_2
///   1632      4  recovery_dtbo_size  (v1, v2)
///   1636      8  recovery_dtbo_addr  (v1, v2)
///   1644      4  header_size         (v1, v2)
///   1648      4  dtb_size            (v2)
///   1652      8  dtb_addr            (v2)
/// ```
#[derive(Clone, Debug, PartialEq, Eq, Hash)]
pub struct HeaderV0 {
    /// Kernel size
    pub kernel_size: u32,
    /// Kernel physical load address
    pub kernel_addr: u32,
    /// Ramdisk size
    pub ramdisk_size: u32,
    /// Ramdisk physical load address
    pub ramdisk_addr: u32,
    /// Second bootloader size
    pub second_bootloader_size: u32,
    /// Second bootloader physical load address
    pub second_bootloader_addr: u32,
    /// Kernel tags physical load address
    pub tags_addr: u32,
    /// Page size in bytes
    pub page_size: u32,
    /// OS version and patch level
    pub osversionpatch: OsVersionPatch,
    /// Board or product name
    pub board_name: [u8; 16],
    /// Kernel command line, part 1
    pub cmdline_part_1: Box<[u8; 512]>,
    /// Hash digest
    pub hash_digest: [u8; 32],
    /// Kernel command line, part 2
    pub cmdline_part_2: Box<[u8; 1024]>,
    /// Version-specific part of the boot image header.
    pub versioned: HeaderV0Versioned,
}

/// Version-specific part of boot image headers v0-v2
#[derive(Clone, Copy, Debug, PartialEq, Eq, Hash, Structural)]
pub enum HeaderV0Versioned {
    /// V0-specific fields
    V0,
    /// V1-specific fields
    V1 {
        /// Recovery DTBO/ACPIO size
        recovery_dtbo_size: u32,
        /// Recovery DTBO/ACPIO physical load address
        recovery_dtbo_addr: u64,
    },
    /// V2-specific fields
    V2 {
        /// Recovery DTBO/ACPIO size
        recovery_dtbo_size: u32,
        /// Recovery DTBO/ACPIO physical load address
        recovery_dtbo_addr: u64,
        /// DTB size
        dtb_size: u32,
        /// DTB physical load address
        dtb_addr: u64,
    },
}

impl HeaderV0Versioned {
    /// The header version that this part belongs to.
    pub open spec fn spec_header_version(self) -> u32 {
        match self {
            HeaderV0Versioned::V0 => 0,
            HeaderV0Versioned::V1 { .. } => 1,
            HeaderV0Versioned::V2 { .. } => 2,
        }
    }

    /// The bytes of this part, as they follow the second command line.
    pub open spec fn wire(self) -> Seq<u8> {
        match self {
            HeaderV0Versioned::V0 => Seq::empty(),
            HeaderV0Versioned::V1 { recovery_dtbo_size, recovery_dtbo_addr } => u32_le(
                recovery_dtbo_size,
            ) + u64_le(recovery_dtbo_addr) + u32_le(1648),
            HeaderV0Versioned::V2 { recovery_dtbo_size, recovery_dtbo_addr, dtb_size, dtb_addr } =>
                u32_le(recovery_dtbo_size) + u64_le(recovery_dtbo_addr) + u32_le(1660) + u32_le(
                    dtb_size,
                ) + u64_le(dtb_addr),
        }
    }

    /// The part that `bytes` holds from offset 1632 on, where the version
    /// word is `version`.
    pub open spec fn at(bytes: Seq<u8>, version: u32) -> Self {
        if version == 1 {
            HeaderV0Versioned::V1 {
                recovery_dtbo_size: u32_at(bytes, 1632),
                recovery_dtbo_addr: u64_at(bytes, 1636),
            }
        } else if version == 2 {
            HeaderV0Versioned::V2 {
                recovery_dtbo_size: u32_at(bytes, 1632),
                recovery_dtbo_addr: u64_at(bytes, 1636),
                dtb_size: u32_at(bytes, 1648),
                dtb_addr: u64_at(bytes, 1652),
            }
        } else {
            HeaderV0Versioned::V0
        }
    }

    /// Why `bytes` holds no such part from offset 1632 on, if it holds none.
    pub open spec fn read_error(bytes: Seq<u8>, version: u32) -> Option<ErrorView> {
        if version == 0 {
            None
        } else if version == 1 {
            if bytes.len() < 1648 {
                Some(ErrorView::ShortRead)
            } else if u32_at(bytes, 1644) != 1648 {
                Some(size_mismatch(HeaderVariant::BootV1, u32_at(bytes, 1644)))
            } else {
                None
            }
        } else if version == 2 {
            if bytes.len() < 1648 {
                Some(ErrorView::ShortRead)
            } else if u32_at(bytes, 1644) != 1660 {
                Some(size_mismatch(HeaderVariant::BootV2, u32_at(bytes, 1644)))
            } else if bytes.len() < 1660 {
                Some(ErrorView::ShortRead)
            } else {
                None
            }
        } else {
            Some(unknown_version(version))
        }
    }

    /// Reads the version-specific part of a header whose version word is
    /// `version`. `bytes` is the whole header: the part stands at offset
    /// 1632.
    pub fn read(bytes: &[u8], version: u32) -> (r: Result<Self, Error>)
        ensures
            match r {
                Ok(v) => Self::read_error(bytes@, version) is None && v == Self::at(
                    bytes@,
                    version,
                ),
                Err(e) => Self::read_error(bytes@, version) == Some(e@),
            },
    {
        if version == 0 {
            return Ok(HeaderV0Versioned::V0);
        }
        if version != 1 && version != 2 {
            return Err(Error::UnknownVersion { pos: 0x28, value: version });
        }
        if bytes.len() < 1648 {
            return Err(Error::ShortRead);
        }
        let recovery_dtbo_size = read_u32(bytes, 1632);
        let recovery_dtbo_addr = read_u64(bytes, 1636);
        let header_size = read_u32(bytes, 1644);
        if version == 1 {
            if header_size != 1648 {
                return Err(
                    Error::HeaderSizeMismatch {
                        variant: HeaderVariant::BootV1,
                        expected: 1648,
                        found: header_size,
                    },
                );
            }
            return Ok(HeaderV0Versioned::V1 { recovery_dtbo_size, recovery_dtbo_addr });
        }
        if header_size != 1660 {
            return Err(
                Error::HeaderSizeMismatch {
                    variant: HeaderVariant::BootV2,
                    expected: 1660,
                    found: header_size,
                },
            );
        }
        if bytes.len() < 1660 {
            return Err(Error::ShortRead);
        }
        let dtb_size = read_u32(bytes, 1648);
        let dtb_addr = read_u64(bytes, 1652);
        Ok(HeaderV0Versioned::V2 { recovery_dtbo_size, recovery_dtbo_addr, dtb_size, dtb_addr })
    }

    /// Appends the bytes of this part, with the header's size recomputed.
    pub fn write(&self, out: &mut Vec<u8>)
        ensures
            final(out)@ == old(out)@ + self.wire(),
    {
        match *self {
            HeaderV0Versioned::V0 => {
                assert(out@ =~= old(out)@ + self.wire());
            },
            HeaderV0Versioned::V1 { recovery_dtbo_size, recovery_dtbo_addr } => {
                push_u32(out, recovery_dtbo_size);
                push_u64(out, recovery_dtbo_addr);
                push_u32(out, 1648);
                assert(out@ =~= old(out)@ + self.wire());
            },
            HeaderV0Versioned::V2 { recovery_dtbo_size, recovery_dtbo_addr, dtb_size, dtb_addr } => {
                push_u32(out, recovery_dtbo_size);
                push_u64(out, recovery_dtbo_addr);
                push_u32(out, 1660);
                push_u32(out, dtb_size);
                push_u64(out, dtb_addr);
                assert(out@ =~= old(out)@ + self.wire());
            },
        }
    }
}

impl HeaderV0 {
    /// The header version: the tag of the version-specific part.
    pub open spec fn spec_header_version(&self) -> u32 {
        self.versioned.spec_header_version()
    }

    /// The first 1632 bytes of the serialised header: magic and the fields
    /// that all three versions share.
    #[verifier::opaque]
    pub open spec fn prefix_wire(&self) -> Seq<u8> {
        boot_magic() + u32_le(self.kernel_size) + u32_le(self.kernel_addr) + u32_le(
            self.ramdisk_size,
        ) + u32_le(self.ramdisk_addr) + u32_le(self.second_bootloader_size) + u32_le(
            self.second_bootloader_addr,
        ) + u32_le(self.tags_addr) + u32_le(self.page_size) + u32_le(self.spec_header_version())
            + u32_le(self.osversionpatch.0) + self.board_name@ + self.cmdline_part_1@
            + self.hash_digest@ + self.cmdline_part_2@
    }

    /// The serialised header. Version and size are those of the
    /// version-specific part that the header holds.
    pub open spec fn wire(&self) -> Seq<u8> {
        self.prefix_wire() + self.versioned.wire()
    }

    /// The header's fields are what stands at their offsets in `bytes`.
    pub open spec fn decoded_from(&self, bytes: Seq<u8>) -> bool {
        &&& self.kernel_size == u32_at(bytes, 8)
        &&& self.kernel_addr == u32_at(bytes, 12)
        &&& self.ramdisk_size == u32_at(bytes, 16)
        &&& self.ramdisk_addr == u32_at(bytes, 20)
        &&& self.second_bootloader_size == u32_at(bytes, 24)
        &&& self.second_bootloader_addr == u32_at(bytes, 28)
        &&& self.tags_addr == u32_at(bytes, 32)
        &&& self.page_size == u32_at(bytes, 36)
        &&& self.osversionpatch == OsVersionPatch(u32_at(bytes, 44))
        &&& self.board_name@ == field_at(bytes, 48, 16)
        &&& self.cmdline_part_1@ == field_at(bytes, 64, 512)
        &&& self.hash_digest@ == field_at(bytes, 576, 32)
        &&& self.cmdline_part_2@ == field_at(bytes, 608, 1024)
        &&& self.versioned == HeaderV0Versioned::at(bytes, u32_at(bytes, 40))
    }

    /// Why `bytes` does not start with a header of version 0, 1 or 2, if it
    /// does not. The checks come in the order of the fields.
    pub open spec fn read_error(bytes: Seq<u8>) -> Option<ErrorView> {
        if magic_error(bytes, boot_magic()) is Some {
            magic_error(bytes, boot_magic())
        } else if bytes.len() < 1632 {
            Some(ErrorView::ShortRead)
        } else {
            HeaderV0Versioned::read_error(bytes, u32_at(bytes, 40))
        }
    }

    /// Reads a header of version 0, 1 or 2 from the start of `bytes`.
    ///
    /// Bytes after the header are not looked at. The header that comes back
    /// serialises to the bytes that it was read from.
    pub fn read(bytes: &[u8]) -> (r: Result<HeaderV0, Error>)
        ensures
            match r {
                Ok(h) => {
                    &&& Self::read_error(bytes@) is None
                    &&& h.decoded_from(bytes@)
                    &&& h.spec_header_version() == u32_at(bytes@, 40)
                    &&& h.wire_len() <= bytes@.len()
                    &&& h.wire() == bytes@.subrange(0, h.wire_len() as int)
                },
                Err(e) => Self::read_error(bytes@) == Some(e@),
            },
    {
        match check_magic(bytes, boot_magic_bytes()) {
            Err(e) => {
                return Err(e);
            },
            Ok(_) => {},
        }
        if bytes.len() < 1632 {
            return Err(Error::ShortRead);
        }
        let kernel_size = read_u32(bytes, 8);
        let kernel_addr = read_u32(bytes, 12);
        let ramdisk_size = read_u32(bytes, 16);
        let ramdisk_addr = read_u32(bytes, 20);
        let second_bootloader_size = read_u32(bytes, 24);
        let second_bootloader_addr = read_u32(bytes, 28);
        let tags_addr = read_u32(bytes, 32);
        let page_size = read_u32(bytes, 36);
        let header_version = read_u32(bytes, 40);
        let osversionpatch = OsVersionPatch(read_u32(bytes, 44));
        let board_name: [u8; 16] = read_array::<16>(bytes, 48);
        let cmdline_part_1: [u8; 512] = read_array::<512>(bytes, 64);
        let hash_digest: [u8; 32] = read_array::<32>(bytes, 576);
        let cmdline_part_2: [u8; 1024] = read_array::<1024>(bytes, 608);
        match HeaderV0Versioned::read(bytes, header_version) {
            Err(e) => Err(e),
            Ok(versioned) => {
                let header = HeaderV0 {
                    kernel_size,
                    kernel_addr,
                    ramdisk_size,
                    ramdisk_addr,
                    second_bootloader_size,
                    second_bootloader_addr,
                    tags_addr,
                    page_size,
                    osversionpatch,
                    board_name,
                    cmdline_part_1: Box::new(cmdline_part_1),
                    hash_digest,
                    cmdline_part_2: Box::new(cmdline_part_2),
                    versioned,
                };
                proof {
                    header.lemma_read_then_write(bytes@);
                }
                Ok(header)
            },
        }
    }

    /// Serialises the header. Version and size are computed from the
    /// version-specific part that the header holds.
    pub fn to_bytes(&self) -> (out: Vec<u8>)
        ensures
            out@ == self.wire(),
            out@.len() == self.wire_len(),
    {
        proof {
            self.lemma_wire_len();
        }
        let mut out: Vec<u8> = Vec::new();
        let magic = boot_magic_bytes();
        push_bytes(&mut out, magic.as_slice());
        assert(out@ =~= boot_magic());
        push_u32(&mut out, self.kernel_size);
        push_u32(&mut out, self.kernel_addr);
        push_u32(&mut out, self.ramdisk_size);
        push_u32(&mut out, self.ramdisk_addr);
        push_u32(&mut out, self.second_bootloader_size);
        push_u32(&mut out, self.second_bootloader_addr);
        push_u32(&mut out, self.tags_addr);
        push_u32(&mut out, self.page_size);
        push_u32(&mut out, self.header_version());
        push_u32(&mut out, self.osversionpatch.0);
        push_bytes(&mut out, self.board_name.as_slice());
        push_bytes(&mut out, self.cmdline_part_1.as_slice());
        push_bytes(&mut out, self.hash_digest.as_slice());
        push_bytes(&mut out, self.cmdline_part_2.as_slice());
        assert(out@ == self.prefix_wire()) by {
            reveal(HeaderV0::prefix_wire);
        }
        self.versioned.write(&mut out);
        out
    }

    /// Appends the serialised header to `out`.
    pub fn write(&self, out: &mut Vec<u8>)
        ensures
            final(out)@ == old(out)@ + self.wire(),
    {
        let bytes = self.to_bytes();
        push_bytes(out, bytes.as_slice());
    }

    /// Returns the boot image header's version number.
    #[verifier::when_used_as_spec(spec_header_version)]
    pub fn header_version(&self) -> (r: u32)
        ensures
            r == self.spec_header_version(),
            r <= 2,
    {
        match self.versioned {
            HeaderV0Versioned::V0 => 0,
            HeaderV0Versioned::V1 { .. } => 1,
            HeaderV0Versioned::V2 { .. } => 2,
        }
    }

    /// A header is well formed when its page size is a power of two. The
    /// section layout is defined for such headers.
    pub open spec fn wf(&self) -> bool {
        is_pow2(self.page_size as int)
    }

    /// Where the kernel starts: at the first page boundary at or after byte
    /// 1660, the size of the largest header of this family.
    pub open spec fn spec_kernel_position(&self) -> nat {
        following(self.page_size as nat, 0, 1660)
    }

    /// Where the ramdisk starts: at the first page boundary at or after the
    /// end of the kernel.
    pub open spec fn spec_ramdisk_position(&self) -> nat {
        following(self.page_size as nat, self.spec_kernel_position(), self.kernel_size as nat)
    }

    /// Where the second stage bootloader starts: at the first page boundary
    /// at or after the end of the ramdisk.
    pub open spec fn spec_second_bootloader_position(&self) -> nat {
        following(self.page_size as nat, self.spec_ramdisk_position(), self.ramdisk_size as nat)
    }

    /// Where the recovery DTBO starts: at the first page boundary at or
    /// after the end of the second stage bootloader.
    pub open spec fn spec_recovery_dtbo_position(&self) -> nat {
        following(
            self.page_size as nat,
            self.spec_second_bootloader_position(),
            self.second_bootloader_size as nat,
        )
    }

    /// Where the DTB starts, in a header of version 2: the recovery DTBO's
    /// size, padded, after the position of the second stage bootloader.
    pub open spec fn spec_dtb_position(&self) -> Option<nat> {
        match self.versioned {
            HeaderV0Versioned::V2 { recovery_dtbo_size, .. } => Some(
                following(
                    self.page_size as nat,
                    self.spec_second_bootloader_position(),
                    recovery_dtbo_size as nat,
                ),
            ),
            _ => None,
        }
    }

    /// Says whether the page size is a power of two.
    pub fn is_well_formed(&self) -> (r: bool)
        ensures
            r == self.wf(),
    {
        let mut n: u32 = self.page_size;
        proof {
            reveal(is_pow2);
        }
        while n > 1 && n % 2 == 0
            invariant
                is_pow2(n as int) == is_pow2(self.page_size as int),
            decreases n,
        {
            proof {
                reveal(is_pow2);
            }
            n = n / 2;
        }
        proof {
            reveal(is_pow2);
        }
        n == 1
    }

    /// Returns the padding that follows a section of `size` bytes.
    pub fn get_padding(&self, size: u32) -> (r: u64)
        requires
            self.wf(),
        ensures
            r == pad(self.page_size as nat, size as nat),
            r < self.page_size,
    {
        padding(self.page_size, size)
    }

    /// Returns the kernel's position in the boot image.
    pub fn kernel_position(&self) -> (r: u64)
        requires
            self.wf(),
        ensures
            r == self.spec_kernel_position(),
    {
        1660 + self.get_padding(1660)
    }

    /// Returns the ramdisk's position in the boot image.
    pub fn ramdisk_position(&self) -> (r: u64)
        requires
            self.wf(),
        ensures
            r == self.spec_ramdisk_position(),
    {
        proof {
            self.lemma_sections_aligned();
        }
        next_position(self.page_size, self.kernel_position(), self.kernel_size)
    }

    /// Returns the second stage bootloader's position in the boot image.
    pub fn second_bootloader_position(&self) -> (r: u64)
        requires
            self.wf(),
        ensures
            r == self.spec_second_bootloader_position(),
    {
        proof {
            self.lemma_sections_aligned();
        }
        next_position(self.page_size, self.ramdisk_position(), self.ramdisk_size)
    }

    /// Returns the recovery DTBO's position in the boot image.
    pub fn recovery_dtbo_position(&self) -> (r: u64)
        requires
            self.wf(),
        ensures
            r == self.spec_recovery_dtbo_position(),
    {
        proof {
            self.lemma_sections_aligned();
        }
        next_position(
            self.page_size,
            self.second_bootloader_position(),
            self.second_bootloader_size,
        )
    }

    /// Returns the DTB's position in the boot image.
    ///
    /// This returns `None` below version 2, where there is no DTB.
    pub fn dtb_position(&self) -> (r: Option<u64>)
        requires
            self.wf(),
        ensures
            r is Some <==> self.versioned is V2,
            match r {
                Some(p) => self.spec_dtb_position() == Some(p as nat),
                None => self.spec_dtb_position() is None,
            },
    {
        proof {
            self.lemma_sections_aligned();
        }
        match self.versioned {
            HeaderV0Versioned::V2 { recovery_dtbo_size, .. } => Some(
                next_position(
                    self.page_size,
                    self.second_bootloader_position(),
                    recovery_dtbo_size,
                ),
            ),
            _ => None,
        }
    }

    /// Every section starts at a page boundary, at or after the end of the
    /// section before it and less than a page away from that end. The
    /// header counts as a section of 1660 bytes at offset 0.
    ///
    /// The DTB starts at a page boundary too. It follows the end of the
    /// recovery DTBO in that way exactly when there is no second stage
    /// bootloader.
    pub proof fn lemma_sections_aligned(&self)
        requires
            self.wf(),
        ensures
            self.page_size > 0,
            self.spec_kernel_position() % (self.page_size as nat) == 0,
            1660 <= self.spec_kernel_position() < 1660 + self.page_size,
            self.wire_len() <= self.spec_kernel_position(),
            self.spec_ramdisk_position() % (self.page_size as nat) == 0,
            self.spec_kernel_position() + self.kernel_size <= self.spec_ramdisk_position()
                < self.spec_kernel_position() + self.kernel_size + self.page_size,
            self.spec_second_bootloader_position() % (self.page_size as nat) == 0,
            self.spec_ramdisk_position() + self.ramdisk_size
                <= self.spec_second_bootloader_position() < self.spec_ramdisk_position()
                + self.ramdisk_size + self.page_size,
            self.spec_recovery_dtbo_position() % (self.page_size as nat) == 0,
            self.spec_second_bootloader_position() + self.second_bootloader_size
                <= self.spec_recovery_dtbo_position() < self.spec_second_bootloader_position()
                + self.second_bootloader_size + self.page_size,
            self.versioned matches HeaderV0Versioned::V2 { recovery_dtbo_size, .. } ==> {
                let dtb = self.spec_dtb_position()->0;
                let dtbo_end = self.spec_recovery_dtbo_position() + recovery_dtbo_size;
                &&& dtb % (self.page_size as nat) == 0
                &&& self.second_bootloader_size == 0 <==> dtbo_end <= dtb < dtbo_end
                    + self.page_size
            },
    {
        reveal(is_pow2);
        let p = self.page_size as nat;
        lemma_small_mod(0, p);
        lemma_following(p, 0, 1660);
        lemma_following(p, self.spec_kernel_position(), self.kernel_size as nat);
        lemma_following(p, self.spec_ramdisk_position(), self.ramdisk_size as nat);
        lemma_following(
            p,
            self.spec_second_bootloader_position(),
            self.second_bootloader_size as nat,
        );
        lemma_pad(p, self.second_bootloader_size as nat);
        match self.versioned {
            HeaderV0Versioned::V2 { recovery_dtbo_size, .. } => {
                lemma_following(
                    p,
                    self.spec_second_bootloader_position(),
                    recovery_dtbo_size as nat,
                );
                lemma_pad(p, recovery_dtbo_size as nat);
                if self.second_bootloader_size != 0 {
                    lemma_padded_size_positive(p, self.second_bootloader_size as nat);
                }
            },
            _ => {},
        }
    }

    /// The sections come in the order kernel, ramdisk, second stage
    /// bootloader, recovery DTBO. The DTB comes after the position of the
    /// second stage bootloader; it comes after that of the recovery DTBO
    /// exactly when the second stage bootloader takes no more pages than
    /// the recovery DTBO.
    pub proof fn lemma_layout_monotone(&self)
        requires
            self.wf(),
        ensures
            self.spec_kernel_position() <= self.spec_ramdisk_position()
                <= self.spec_second_bootloader_position() <= self.spec_recovery_dtbo_position(),
            self.versioned matches HeaderV0Versioned::V2 { recovery_dtbo_size, .. } ==> {
                let dtb = self.spec_dtb_position()->0;
                &&& self.spec_second_bootloader_position() <= dtb
                &&& self.spec_recovery_dtbo_position() <= dtb <==> following(
                    self.page_size as nat,
                    0,
                    self.second_bootloader_size as nat,
                ) <= following(self.page_size as nat, 0, recovery_dtbo_size as nat)
            },
    {
        self.lemma_sections_aligned();
    }

    /// The serialised header is 1632, 1648 or 1660 bytes long, by version.
    pub open spec fn wire_len(&self) -> nat {
        match self.versioned {
            HeaderV0Versioned::V0 => 1632,
            HeaderV0Versioned::V1 { .. } => 1648,
            HeaderV0Versioned::V2 { .. } => 1660,
        }
    }

    /// The serialised header has the length of its version.
    pub proof fn lemma_wire_len(&self)
        ensures
            self.wire().len() == self.wire_len(),
    {
        self.lemma_write_then_read(Seq::empty());
    }

    /// Reading what was written gives the header back, whatever follows it:
    /// the bytes are accepted, and the header is the one that they decode
    /// to.
    pub proof fn lemma_write_then_read(&self, rest: Seq<u8>)
        ensures
            self.wire().len() == self.wire_len(),
            Self::read_error(self.wire() + rest) is None,
            self.decoded_from(self.wire() + rest),
            u32_at(self.wire() + rest, 40) == self.spec_header_version(),
    {
        let w = self.wire() + rest;
        let tail = self.versioned.wire() + rest;
        assert(self.prefix_wire() + tail =~= w);
        self.lemma_prefix_fields(tail);
        self.lemma_versioned_fields(rest);
    }

    /// The fields that end at or before `upto` stand in `s` at their
    /// offsets, each as it is serialised.
    spec fn prefix_stands(&self, s: Seq<u8>, upto: int) -> bool {
        &&& 8 <= upto ==> s.subrange(0, 8) == boot_magic()
        &&& 12 <= upto ==> s.subrange(8, 12) == u32_le(self.kernel_size)
        &&& 16 <= upto ==> s.subrange(12, 16) == u32_le(self.kernel_addr)
        &&& 20 <= upto ==> s.subrange(16, 20) == u32_le(self.ramdisk_size)
        &&& 24 <= upto ==> s.subrange(20, 24) == u32_le(self.ramdisk_addr)
        &&& 28 <= upto ==> s.subrange(24, 28) == u32_le(self.second_bootloader_size)
        &&& 32 <= upto ==> s.subrange(28, 32) == u32_le(self.second_bootloader_addr)
        &&& 36 <= upto ==> s.subrange(32, 36) == u32_le(self.tags_addr)
        &&& 40 <= upto ==> s.subrange(36, 40) == u32_le(self.page_size)
        &&& 44 <= upto ==> s.subrange(40, 44) == u32_le(self.spec_header_version())
        &&& 48 <= upto ==> s.subrange(44, 48) == u32_le(self.osversionpatch.0)
        &&& 64 <= upto ==> s.subrange(48, 64) == self.board_name@
        &&& 576 <= upto ==> s.subrange(64, 576) == self.cmdline_part_1@
        &&& 608 <= upto ==> s.subrange(576, 608) == self.hash_digest@
        &&& 1632 <= upto ==> s.subrange(608, 1632) == self.cmdline_part_2@
    }

    /// What stands in `s` stands in `s + more` too.
    proof fn lemma_stands_append(&self, s: Seq<u8>, more: Seq<u8>, upto: int)
        requires
            self.prefix_stands(s, upto),
            upto <= s.len(),
        ensures
            self.prefix_stands(s + more, upto),
    {
        if 8 <= upto {
            lemma_append_keeps(s, more, 0, 8);
        }
        if 12 <= upto {
            lemma_append_keeps(s, more, 8, 12);
        }
        if 16 <= upto {
            lemma_append_keeps(s, more, 12, 16);
        }
        if 20 <= upto {
            lemma_append_keeps(s, more, 16, 20);
        }
        if 24 <= upto {
            lemma_append_keeps(s, more, 20, 24);
        }
        if 28 <= upto {
            lemma_append_keeps(s, more, 24, 28);
        }
        if 32 <= upto {
            lemma_append_keeps(s, more, 28, 32);
        }
        if 36 <= upto {
            lemma_append_keeps(s, more, 32, 36);
        }
        if 40 <= upto {
            lemma_append_keeps(s, more, 36, 40);
        }
        if 44 <= upto {
            lemma_append_keeps(s, more, 40, 44);
        }
        if 48 <= upto {
            lemma_append_keeps(s, more, 44, 48);
        }
        if 64 <= upto {
            lemma_append_keeps(s, more, 48, 64);
        }
        if 576 <= upto {
            lemma_append_keeps(s, more, 64, 576);
        }
        if 608 <= upto {
            lemma_append_keeps(s, more, 576, 608);
        }
        if 1632 <= upto {
            lemma_append_keeps(s, more, 608, 1632);
        }
    }

    /// Every field of the first 1632 bytes stands at its offset in the
    /// serialised header, whatever follows.
    proof fn lemma_prefix_stands(&self, tail: Seq<u8>)
        ensures
            self.prefix_wire().len() == 1632,
            self.prefix_stands(self.prefix_wire() + tail, 1632),
    {
        let s0 = boot_magic();
        assert(s0.subrange(0, 8) =~= s0);
        let s1 = s0 + u32_le(self.kernel_size);
        self.lemma_stands_append(s0, u32_le(self.kernel_size), 8);
        lemma_append_places(s0, u32_le(self.kernel_size));
        let s2 = s1 + u32_le(self.kernel_addr);
        self.lemma_stands_append(s1, u32_le(self.kernel_addr), 12);
        lemma_append_places(s1, u32_le(self.kernel_addr));
        let s3 = s2 + u32_le(self.ramdisk_size);
        self.lemma_stands_append(s2, u32_le(self.ramdisk_size), 16);
        lemma_append_places(s2, u32_le(self.ramdisk_size));
        let s4 = s3 + u32_le(self.ramdisk_addr);
        self.lemma_stands_append(s3, u32_le(self.ramdisk_addr), 20);
        lemma_append_places(s3, u32_le(self.ramdisk_addr));
        let s5 = s4 + u32_le(self.second_bootloader_size);
        self.lemma_stands_append(s4, u32_le(self.second_bootloader_size), 24);
        lemma_append_places(s4, u32_le(self.second_bootloader_size));
        let s6 = s5 + u32_le(self.second_bootloader_addr);
        self.lemma_stands_append(s5, u32_le(self.second_bootloader_addr), 28);
        lemma_append_places(s5, u32_le(self.second_bootloader_addr));
        let s7 = s6 + u32_le(self.tags_addr);
        self.lemma_stands_append(s6, u32_le(self.tags_addr), 32);
        lemma_append_places(s6, u32_le(self.tags_addr));
        let s8 = s7 + u32_le(self.page_size);
        self.lemma_stands_append(s7, u32_le(self.page_size), 36);
        lemma_append_places(s7, u32_le(self.page_size));
        let s9 = s8 + u32_le(self.spec_header_version());
        self.lemma_stands_append(s8, u32_le(self.spec_header_version()), 40);
        lemma_append_places(s8, u32_le(self.spec_header_version()));
        let s10 = s9 + u32_le(self.osversionpatch.0);
        self.lemma_stands_append(s9, u32_le(self.osversionpatch.0), 44);
        lemma_append_places(s9, u32_le(self.osversionpatch.0));
        let s11 = s10 + self.board_name@;
        self.lemma_stands_append(s10, self.board_name@, 48);
        lemma_append_places(s10, self.board_name@);
        let s12 = s11 + self.cmdline_part_1@;
        self.lemma_stands_append(s11, self.cmdline_part_1@, 64);
        lemma_append_places(s11, self.cmdline_part_1@);
        let s13 = s12 + self.hash_digest@;
        self.lemma_stands_append(s12, self.hash_digest@, 576);
        lemma_append_places(s12, self.hash_digest@);
        let s14 = s13 + self.cmdline_part_2@;
        self.lemma_stands_append(s13, self.cmdline_part_2@, 608);
        lemma_append_places(s13, self.cmdline_part_2@);
        assert(self.prefix_wire() == s14) by {
            reveal(HeaderV0::prefix_wire);
        }
        self.lemma_stands_append(s14, tail, 1632);
    }

    /// Each field of the first 1632 bytes is read back from its offset
    /// in the serialised header.
    proof fn lemma_prefix_fields(&self, tail: Seq<u8>)
        ensures
            self.prefix_wire().len() == 1632,
            ({
                let w = self.prefix_wire() + tail;
                &&& field_at(w, 0, 8) == boot_magic()
                &&& u32_at(w, 8) == self.kernel_size
                &&& u32_at(w, 12) == self.kernel_addr
                &&& u32_at(w, 16) == self.ramdisk_size
                &&& u32_at(w, 20) == self.ramdisk_addr
                &&& u32_at(w, 24) == self.second_bootloader_size
                &&& u32_at(w, 28) == self.second_bootloader_addr
                &&& u32_at(w, 32) == self.tags_addr
                &&& u32_at(w, 36) == self.page_size
                &&& u32_at(w, 40) == self.spec_header_version()
                &&& u32_at(w, 44) == self.osversionpatch.0
                &&& field_at(w, 48, 16) == self.board_name@
                &&& field_at(w, 64, 512) == self.cmdline_part_1@
                &&& field_at(w, 576, 32) == self.hash_digest@
                &&& field_at(w, 608, 1024) == self.cmdline_part_2@
            }),
    {
        let empty = Seq::<u8>::empty();
        self.lemma_prefix_stands(tail);
        lemma_u32_le_round_trip(self.kernel_size, empty);
        lemma_u32_le_round_trip(self.kernel_addr, empty);
        lemma_u32_le_round_trip(self.ramdisk_size, empty);
        lemma_u32_le_round_trip(self.ramdisk_addr, empty);
        lemma_u32_le_round_trip(self.second_bootloader_size, empty);
        lemma_u32_le_round_trip(self.second_bootloader_addr, empty);
        lemma_u32_le_round_trip(self.tags_addr, empty);
        lemma_u32_le_round_trip(self.page_size, empty);
        lemma_u32_le_round_trip(self.spec_header_version(), empty);
        lemma_u32_le_round_trip(self.osversionpatch.0, empty);
    }

    /// The version-specific part stands at offset 1632 of the serialised
    /// header and is accepted there.
    proof fn lemma_versioned_fields(&self, rest: Seq<u8>)
        ensures
            self.wire().len() == self.wire_len(),
            HeaderV0Versioned::read_error(self.wire() + rest, self.spec_header_version()) is None,
            HeaderV0Versioned::at(self.wire() + rest, self.spec_header_version())
                == self.versioned,
    {
        let w = self.wire() + rest;
        let empty = Seq::<u8>::empty();
        self.lemma_prefix_fields(empty);
        match self.versioned {
            HeaderV0Versioned::V0 => {},
            HeaderV0Versioned::V1 { recovery_dtbo_size, recovery_dtbo_addr } => {
                lemma_u32_le_round_trip(recovery_dtbo_size, empty);
                lemma_u64_le_round_trip(recovery_dtbo_addr, empty);
                lemma_u32_le_round_trip(1648, empty);
                assert(w.subrange(1632, 1636) =~= u32_le(recovery_dtbo_size));
                assert(w.subrange(1636, 1644) =~= u64_le(recovery_dtbo_addr));
                assert(w.subrange(1644, 1648) =~= u32_le(1648));
            },
            HeaderV0Versioned::V2 { recovery_dtbo_size, recovery_dtbo_addr, dtb_size, dtb_addr } => {
                lemma_u32_le_round_trip(recovery_dtbo_size, empty);
                lemma_u64_le_round_trip(recovery_dtbo_addr, empty);
                lemma_u32_le_round_trip(1660, empty);
                lemma_u32_le_round_trip(dtb_size, empty);
                lemma_u64_le_round_trip(dtb_addr, empty);
                assert(w.subrange(1632, 1636) =~= u32_le(recovery_dtbo_size));
                assert(w.subrange(1636, 1644) =~= u64_le(recovery_dtbo_addr));
                assert(w.subrange(1644, 1648) =~= u32_le(1660));
                assert(w.subrange(1648, 1652) =~= u32_le(dtb_size));
                assert(w.subrange(1652, 1660) =~= u64_le(dtb_addr));
            },
        }
    }

    /// Writing what was read gives the bytes back: a header that `bytes`
    /// decodes to serialises to the first bytes of `bytes`, as many as the
    /// header is long.
    pub proof fn lemma_read_then_write(&self, bytes: Seq<u8>)
        requires
            Self::read_error(bytes) is None,
            self.decoded_from(bytes),
        ensures
            self.wire().len() == self.wire_len(),
            self.wire_len() <= bytes.len(),
            bytes.subrange(0, self.wire_len() as int) == self.wire(),
            self.spec_header_version() == u32_at(bytes, 40),
    {
        self.lemma_prefix_matches(bytes);
        self.lemma_versioned_matches(bytes);
        let len = self.wire_len() as int;
        assert(bytes.subrange(0, len) =~= bytes.subrange(0, 1632) + bytes.subrange(1632, len));
    }

    /// Two headers that the same bytes decode to are equal.
    pub proof fn lemma_decoded_unique(&self, other: &HeaderV0, bytes: Seq<u8>)
        requires
            self.decoded_from(bytes),
            other.decoded_from(bytes),
        ensures
            *self == *other,
    {
        assert(self.board_name =~= other.board_name);
        assert(self.cmdline_part_1 =~= other.cmdline_part_1);
        assert(self.hash_digest =~= other.hash_digest);
        assert(self.cmdline_part_2 =~= other.cmdline_part_2);
    }

    /// The serialised header holds its version at offset 40 and, from
    /// version 1 on, its size at offset 1644: 1648 in version 1, 1660 in
    /// version 2.
    pub proof fn lemma_version_and_size_slots(&self)
        ensures
            u32_at(self.wire(), 40) == self.spec_header_version(),
            self.versioned is V1 ==> u32_at(self.wire(), 1644) == 1648,
            self.versioned is V2 ==> u32_at(self.wire(), 1644) == 1660,
    {
        let empty = Seq::<u8>::empty();
        assert(self.wire() + empty =~= self.wire());
        self.lemma_write_then_read(empty);
    }

    /// The first 1632 bytes of `bytes` are the serialised fields that they
    /// decode to.
    proof fn lemma_prefix_matches(&self, bytes: Seq<u8>)
        requires
            Self::read_error(bytes) is None,
            self.decoded_from(bytes),
        ensures
            bytes.len() >= 1632,
            self.prefix_wire() == bytes.subrange(0, 1632),
            self.spec_header_version() == u32_at(bytes, 40),
    {
        let s0 = boot_magic();
        assert(s0 == bytes.subrange(0, 8));
        let s1 = s0 + u32_le(self.kernel_size);
        assert(s1 == bytes.subrange(0, 12)) by {
            lemma_u32_field(bytes, 8);
            lemma_join(bytes, 0, 8, 12);
        }
        let s2 = s1 + u32_le(self.kernel_addr);
        assert(s2 == bytes.subrange(0, 16)) by {
            lemma_u32_field(bytes, 12);
            lemma_join(bytes, 0, 12, 16);
        }
        let s3 = s2 + u32_le(self.ramdisk_size);
        assert(s3 == bytes.subrange(0, 20)) by {
            lemma_u32_field(bytes, 16);
            lemma_join(bytes, 0, 16, 20);
        }
        let s4 = s3 + u32_le(self.ramdisk_addr);
        assert(s4 == bytes.subrange(0, 24)) by {
            lemma_u32_field(bytes, 20);
            lemma_join(bytes, 0, 20, 24);
        }
        let s5 = s4 + u32_le(self.second_bootloader_size);
        assert(s5 == bytes.subrange(0, 28)) by {
            lemma_u32_field(bytes, 24);
            lemma_join(bytes, 0, 24, 28);
        }
        let s6 = s5 + u32_le(self.second_bootloader_addr);
        assert(s6 == bytes.subrange(0, 32)) by {
            lemma_u32_field(bytes, 28);
            lemma_join(bytes, 0, 28, 32);
        }
        let s7 = s6 + u32_le(self.tags_addr);
        assert(s7 == bytes.subrange(0, 36)) by {
            lemma_u32_field(bytes, 32);
            lemma_join(bytes, 0, 32, 36);
        }
        let s8 = s7 + u32_le(self.page_size);
        assert(s8 == bytes.subrange(0, 40)) by {
            lemma_u32_field(bytes, 36);
            lemma_join(bytes, 0, 36, 40);
        }
        let s9 = s8 + u32_le(self.spec_header_version());
        assert(s9 == bytes.subrange(0, 44)) by {
            lemma_u32_field(bytes, 40);
            lemma_join(bytes, 0, 40, 44);
        }
        let s10 = s9 + u32_le(self.osversionpatch.0);
        assert(s10 == bytes.subrange(0, 48)) by {
            lemma_u32_field(bytes, 44);
            lemma_join(bytes, 0, 44, 48);
        }
        let s11 = s10 + self.board_name@;
        assert(s11 == bytes.subrange(0, 64)) by {
            lemma_join(bytes, 0, 48, 64);
        }
        let s12 = s11 + self.cmdline_part_1@;
        assert(s12 == bytes.subrange(0, 576)) by {
            lemma_join(bytes, 0, 64, 576);
        }
        let s13 = s12 + self.hash_digest@;
        assert(s13 == bytes.subrange(0, 608)) by {
            lemma_join(bytes, 0, 576, 608);
        }
        let s14 = s13 + self.cmdline_part_2@;
        assert(s14 == bytes.subrange(0, 1632)) by {
            lemma_join(bytes, 0, 608, 1632);
        }
        assert(self.prefix_wire() == s14) by {
            reveal(HeaderV0::prefix_wire);
        }
    }

    /// The bytes from offset 1632 to the header's end are the serialised
    /// version-specific part that they decode to.
    proof fn lemma_versioned_matches(&self, bytes: Seq<u8>)
        requires
            Self::read_error(bytes) is None,
            self.decoded_from(bytes),
        ensures
            self.wire_len() <= bytes.len(),
            self.versioned.wire() == bytes.subrange(1632, self.wire_len() as int),
    {
        match self.versioned {
            HeaderV0Versioned::V0 => {
                assert(self.versioned.wire() =~= bytes.subrange(1632, 1632));
            },
            HeaderV0Versioned::V1 { .. } => {
                lemma_u32_le_round_trip(0, bytes.subrange(1632, 1636));
                lemma_u64_le_round_trip(0, bytes.subrange(1636, 1644));
                lemma_u32_le_round_trip(0, bytes.subrange(1644, 1648));
                assert(self.versioned.wire() =~= bytes.subrange(1632, 1648));
            },
            HeaderV0Versioned::V2 { .. } => {
                lemma_u32_le_round_trip(0, bytes.subrange(1632, 1636));
                lemma_u64_le_round_trip(0, bytes.subrange(1636, 1644));
                lemma_u32_le_round_trip(0, bytes.subrange(1644, 1648));
                lemma_u32_le_round_trip(0, bytes.subrange(1648, 1652));
                lemma_u64_le_round_trip(0, bytes.subrange(1652, 1660));
                assert(self.versioned.wire() =~= bytes.subrange(1632, 1660));
            },
        }
    }
}

} // verus!
