//! What to take out of a boot image: the sections that its header
//! describes, each with the name of the file that it goes to.

use vstd::prelude::*;
use crate::header::Header;
use crate::header_v0::{HeaderV0, HeaderV0Versioned};
use crate::header_v3::HeaderV3;

verus! {

/// The sections of a boot image.
#[derive(Clone, Copy, Debug, PartialEq, Eq, Hash, Structural)]
pub enum SectionKind {
    /// The kernel
    Kernel,
    /// The ramdisk
    Ramdisk,
    /// The second stage bootloader
    Second,
    /// The recovery DTBO or ACPIO
    RecoveryDtbo,
    /// The device tree blob
    Dtb,
    /// The boot signature
    BootSignature,
}

/// A section of a boot image: `size` bytes from offset `position` on.
#[derive(Clone, Copy, Debug, PartialEq, Eq, Hash, Structural)]
pub struct Section {
    /// Which section this is
    pub kind: SectionKind,
    /// Offset of its first byte in the image
    pub position: u64,
    /// Its size in bytes
    pub size: u32,
}

impl SectionKind {
    /// The name of the file that the section is unpacked to.
    pub open spec fn spec_file_name(self) -> Seq<char> {
        match self {
            SectionKind::Kernel => "kernel"@,
            SectionKind::Ramdisk => "ramdisk"@,
            SectionKind::Second => "second"@,
            SectionKind::RecoveryDtbo => "recovery_dtbo"@,
            SectionKind::Dtb => "dtb"@,
            SectionKind::BootSignature => "boot_signature"@,
        }
    }

    /// Returns the name of the file that the section is unpacked to.
    pub fn file_name(self) -> (name: &'static str)
        ensures
            name@ == self.spec_file_name(),
    {
        match self {
            SectionKind::Kernel => "kernel",
            SectionKind::Ramdisk => "ramdisk",
            SectionKind::Second => "second",
            SectionKind::RecoveryDtbo => "recovery_dtbo",
            SectionKind::Dtb => "dtb",
            SectionKind::BootSignature => "boot_signature",
        }
    }
}

/// `section`, if it is not empty.
pub open spec fn if_present(section: Section) -> Seq<Section> {
    if section.size != 0 {
        seq![section]
    } else {
        Seq::empty()
    }
}

impl HeaderV0 {
    /// The recovery DTBO's size, from version 1 on.
    pub open spec fn spec_recovery_dtbo_size(&self) -> Option<u32> {
        match self.versioned {
            HeaderV0Versioned::V0 => None,
            HeaderV0Versioned::V1 { recovery_dtbo_size, .. } => Some(recovery_dtbo_size),
            HeaderV0Versioned::V2 { recovery_dtbo_size, .. } => Some(recovery_dtbo_size),
        }
    }

    /// The DTB's size, in version 2.
    pub open spec fn spec_dtb_size(&self) -> Option<u32> {
        match self.versioned {
            HeaderV0Versioned::V2 { dtb_size, .. } => Some(dtb_size),
            _ => None,
        }
    }

    /// The sections that follow kernel and ramdisk, in the order of the
    /// image: second stage bootloader, recovery DTBO from version 1 on, DTB
    /// in version 2, each only if it is not empty.
    pub open spec fn spec_more_sections(&self) -> Seq<Section> {
        if_present(
            Section {
                kind: SectionKind::Second,
                position: self.spec_second_bootloader_position() as u64,
                size: self.second_bootloader_size,
            },
        ) + (match self.spec_recovery_dtbo_size() {
            Some(size) => if_present(
                Section {
                    kind: SectionKind::RecoveryDtbo,
                    position: self.spec_recovery_dtbo_position() as u64,
                    size,
                },
            ),
            None => Seq::empty(),
        }) + (match self.spec_dtb_size() {
            Some(size) => if_present(
                Section {
                    kind: SectionKind::Dtb,
                    position: self.spec_dtb_position()->0 as u64,
                    size,
                },
            ),
            None => Seq::empty(),
        })
    }

    /// Returns the recovery DTBO's size, from version 1 on.
    pub fn recovery_dtbo_size(&self) -> (r: Option<u32>)
        ensures
            r == self.spec_recovery_dtbo_size(),
    {
        match self.versioned {
            HeaderV0Versioned::V0 => None,
            HeaderV0Versioned::V1 { recovery_dtbo_size, .. } => Some(recovery_dtbo_size),
            HeaderV0Versioned::V2 { recovery_dtbo_size, .. } => Some(recovery_dtbo_size),
        }
    }

    /// Returns the DTB's size, in version 2.
    pub fn dtb_size(&self) -> (r: Option<u32>)
        ensures
            r == self.spec_dtb_size(),
    {
        match self.versioned {
            HeaderV0Versioned::V2 { dtb_size, .. } => Some(dtb_size),
            _ => None,
        }
    }

    /// Appends the sections that follow kernel and ramdisk.
    fn push_more_sections(&self, out: &mut Vec<Section>)
        requires
            self.wf(),
        ensures
            final(out)@ == old(out)@ + self.spec_more_sections(),
    {
        if self.second_bootloader_size != 0 {
            out.push(
                Section {
                    kind: SectionKind::Second,
                    position: self.second_bootloader_position(),
                    size: self.second_bootloader_size,
                },
            );
        }
        match self.recovery_dtbo_size() {
            Some(size) => {
                if size != 0 {
                    out.push(
                        Section {
                            kind: SectionKind::RecoveryDtbo,
                            position: self.recovery_dtbo_position(),
                            size,
                        },
                    );
                }
            },
            None => {},
        }
        match self.versioned {
            HeaderV0Versioned::V2 { dtb_size, .. } => {
                if dtb_size != 0 {
                    match self.dtb_position() {
                        Some(position) => {
                            out.push(Section { kind: SectionKind::Dtb, position, size: dtb_size });
                        },
                        None => {},
                    }
                }
            },
            _ => {},
        }
        assert(out@ =~= old(out)@ + self.spec_more_sections());
    }
}

impl HeaderV3 {
    /// The boot signature, where the header gives it a size other than
    /// zero.
    pub open spec fn spec_more_sections(&self) -> Seq<Section> {
        match self.v4_signature_size {
            Some(size) => if_present(
                Section {
                    kind: SectionKind::BootSignature,
                    position: self.spec_bootsig_position() as u64,
                    size,
                },
            ),
            None => Seq::empty(),
        }
    }

    /// Appends the boot signature, where there is one.
    fn push_more_sections(&self, out: &mut Vec<Section>)
        ensures
            final(out)@ == old(out)@ + self.spec_more_sections(),
    {
        match self.v4_signature_size {
            Some(size) => {
                if size != 0 {
                    out.push(
                        Section {
                            kind: SectionKind::BootSignature,
                            position: self.bootsig_position(),
                            size,
                        },
                    );
                }
            },
            None => {},
        }
        assert(out@ =~= old(out)@ + self.spec_more_sections());
    }
}

impl Header {
    /// The sections to unpack, in the order of the image: kernel and
    /// ramdisk in any case, then those that the header gives a size other
    /// than zero.
    pub open spec fn spec_sections(&self) -> Seq<Section> {
        seq![
            Section {
                kind: SectionKind::Kernel,
                position: self.spec_kernel_position() as u64,
                size: self.spec_kernel_size(),
            },
            Section {
                kind: SectionKind::Ramdisk,
                position: self.spec_ramdisk_position() as u64,
                size: self.spec_ramdisk_size(),
            },
        ] + (match self {
            Header::V0(hdr) => hdr.spec_more_sections(),
            Header::V3(hdr) => hdr.spec_more_sections(),
        })
    }

    /// Returns the sections to unpack, in the order of the image.
    pub fn sections(&self) -> (r: Vec<Section>)
        requires
            self.wf(),
        ensures
            r@ == self.spec_sections(),
    {
        let mut out: Vec<Section> = Vec::new();
        out.push(
            Section {
                kind: SectionKind::Kernel,
                position: self.kernel_position(),
                size: self.kernel_size(),
            },
        );
        out.push(
            Section {
                kind: SectionKind::Ramdisk,
                position: self.ramdisk_position(),
                size: self.ramdisk_size(),
            },
        );
        match self {
            Header::V0(hdr) => hdr.push_more_sections(&mut out),
            Header::V3(hdr) => hdr.push_more_sections(&mut out),
        }
        assert(out@ =~= self.spec_sections());
        out
    }

    /// Every section to unpack starts at a page boundary, and the first two
    /// are kernel and ramdisk, with the sizes that the header gives them.
    pub proof fn lemma_sections_page_aligned(&self)
        requires
            self.wf(),
        ensures
            self.spec_sections().len() >= 2,
            self.spec_sections()[0].kind == SectionKind::Kernel,
            self.spec_sections()[0].size == self.spec_kernel_size(),
            self.spec_sections()[1].kind == SectionKind::Ramdisk,
            self.spec_sections()[1].size == self.spec_ramdisk_size(),
            forall|i: int|
                0 <= i < self.spec_sections().len() ==> (
                #[trigger] self.spec_sections()[i]).position as nat % self.spec_page_size() == 0,
            forall|i: int|
                2 <= i < self.spec_sections().len() ==> (#[trigger] self.spec_sections()[i]).size
                    != 0,
    {
        match self {
            Header::V0(hdr) => {
                hdr.lemma_sections_aligned();
            },
            Header::V3(hdr) => {
                hdr.lemma_sections_aligned();
            },
        }
    }
}

} // verus!
