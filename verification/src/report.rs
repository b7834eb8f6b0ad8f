//! What to say of a boot image: a summary for people, and the arguments
//! that make `mkbootimg` build the image again.

use vstd::prelude::*;
use vstd::string::*;
use crate::header::Header;
use crate::header_v0::{HeaderV0, HeaderV0Versioned};
use crate::header_v3::HeaderV3;
use crate::quote::{quote_null_bytestring, shell_quoted};
use crate::text::{
    arg, bytes_of, decimal, hex_literal, line, push_arg, push_decimal, push_decimal_line,
    push_hex_arg, push_hex_line, push_line, push_str, take_until_null, until_nul,
};
use crate::wire::push_bytes;

verus! {

impl HeaderV0Versioned {
    /// The lines of the summary that speak of the version-specific fields.
    pub open spec fn spec_info(self) -> Seq<u8> {
        match self {
            HeaderV0Versioned::V0 => Seq::empty(),
            HeaderV0Versioned::V1 { recovery_dtbo_size, recovery_dtbo_addr } => line(
                "recovery dtbo size: "@,
                decimal(recovery_dtbo_size as nat),
            ) + line("recovery dtbo offset: "@, hex_literal(recovery_dtbo_addr as nat, 16)) + line(
                "boot header size: "@,
                decimal(1648),
            ),
            HeaderV0Versioned::V2 { recovery_dtbo_size, recovery_dtbo_addr, dtb_size, dtb_addr } =>
                line("recovery dtbo size: "@, decimal(recovery_dtbo_size as nat)) + line(
                    "recovery dtbo offset: "@,
                    hex_literal(recovery_dtbo_addr as nat, 16),
                ) + line("boot header size: "@, decimal(1660)) + line(
                    "dtb size: "@,
                    decimal(dtb_size as nat),
                ) + line("dtb address: "@, hex_literal(dtb_addr as nat, 16)),
        }
    }

    /// Appends the lines of the summary that speak of the version-specific
    /// fields.
    fn write_info(&self, out: &mut Vec<u8>)
        ensures
            final(out)@ == old(out)@ + self.spec_info(),
    {
        proof {
            reveal_strlit("recovery dtbo size: ");
            reveal_strlit("recovery dtbo offset: ");
            reveal_strlit("boot header size: ");
            reveal_strlit("dtb size: ");
            reveal_strlit("dtb address: ");
        }
        let mut buf: Vec<u8> = Vec::new();
        match *self {
            HeaderV0Versioned::V0 => {},
            HeaderV0Versioned::V1 { recovery_dtbo_size, recovery_dtbo_addr } => {
                push_decimal_line(&mut buf, "recovery dtbo size: ", recovery_dtbo_size as u64);
                assert(buf@ =~= line("recovery dtbo size: "@, decimal(recovery_dtbo_size as nat)));
                push_hex_line(&mut buf, "recovery dtbo offset: ", recovery_dtbo_addr, 16);
                push_decimal_line(&mut buf, "boot header size: ", 1648);
            },
            HeaderV0Versioned::V2 { recovery_dtbo_size, recovery_dtbo_addr, dtb_size, dtb_addr } => {
                push_decimal_line(&mut buf, "recovery dtbo size: ", recovery_dtbo_size as u64);
                assert(buf@ =~= line("recovery dtbo size: "@, decimal(recovery_dtbo_size as nat)));
                push_hex_line(&mut buf, "recovery dtbo offset: ", recovery_dtbo_addr, 16);
                push_decimal_line(&mut buf, "boot header size: ", 1660);
                push_decimal_line(&mut buf, "dtb size: ", dtb_size as u64);
                push_hex_line(&mut buf, "dtb address: ", dtb_addr, 16);
            },
        }
        push_bytes(out, buf.as_slice());
    }
}

impl HeaderV0 {
    /// The lines of the summary that speak of sizes and load addresses.
    pub open spec fn spec_info_sizes(&self) -> Seq<u8> {
        line("kernel_size: "@, decimal(self.kernel_size as nat)) + line(
            "kernel load address: "@,
            hex_literal(self.kernel_addr as nat, 8),
        ) + line("ramdisk size: "@, decimal(self.ramdisk_size as nat)) + line(
            "ramdisk load address: "@,
            hex_literal(self.ramdisk_addr as nat, 8),
        ) + line("second bootloader size: "@, decimal(self.second_bootloader_size as nat)) + line(
            "second bootloader load address: "@,
            hex_literal(self.second_bootloader_addr as nat, 8),
        ) + line("kernel tags load address: "@, hex_literal(self.tags_addr as nat, 8)) + line(
            "page size: "@,
            decimal(self.page_size as nat),
        )
    }

    /// The lines of the summary that speak of names and command lines, each
    /// read as a NUL-terminated byte string, and of the version-specific
    /// fields.
    pub open spec fn spec_info_names(&self) -> Seq<u8> {
        line("product name: "@, until_nul(self.board_name@)) + line(
            "command line args: "@,
            until_nul(self.cmdline_part_1@),
        ) + line("additional command line args: "@, until_nul(self.cmdline_part_2@))
            + self.versioned.spec_info()
    }

    /// Appends the lines of the summary that speak of sizes and load
    /// addresses.
    fn write_info_sizes(&self, out: &mut Vec<u8>)
        ensures
            final(out)@ == old(out)@ + self.spec_info_sizes(),
    {
        proof {
            reveal_strlit("kernel_size: ");
            reveal_strlit("kernel load address: ");
            reveal_strlit("ramdisk size: ");
            reveal_strlit("ramdisk load address: ");
            reveal_strlit("second bootloader size: ");
            reveal_strlit("second bootloader load address: ");
            reveal_strlit("kernel tags load address: ");
            reveal_strlit("page size: ");
        }
        let mut buf: Vec<u8> = Vec::new();
        push_decimal_line(&mut buf, "kernel_size: ", self.kernel_size as u64);
        assert(buf@ =~= line("kernel_size: "@, decimal(self.kernel_size as nat)));
        push_hex_line(&mut buf, "kernel load address: ", self.kernel_addr as u64, 8);
        push_decimal_line(&mut buf, "ramdisk size: ", self.ramdisk_size as u64);
        push_hex_line(&mut buf, "ramdisk load address: ", self.ramdisk_addr as u64, 8);
        push_decimal_line(&mut buf, "second bootloader size: ", self.second_bootloader_size as u64);
        push_hex_line(
            &mut buf,
            "second bootloader load address: ",
            self.second_bootloader_addr as u64,
            8,
        );
        push_hex_line(&mut buf, "kernel tags load address: ", self.tags_addr as u64, 8);
        push_decimal_line(&mut buf, "page size: ", self.page_size as u64);
        push_bytes(out, buf.as_slice());
    }

    /// Appends the lines of the summary that speak of names and command
    /// lines and of the version-specific fields.
    fn write_info_names(&self, out: &mut Vec<u8>)
        ensures
            final(out)@ == old(out)@ + self.spec_info_names(),
    {
        proof {
            reveal_strlit("product name: ");
            reveal_strlit("command line args: ");
            reveal_strlit("additional command line args: ");
        }
        let mut buf: Vec<u8> = Vec::new();
        push_line(&mut buf, "product name: ", take_until_null(self.board_name.as_slice()));
        assert(buf@ =~= line("product name: "@, until_nul(self.board_name@)));
        push_line(&mut buf, "command line args: ", take_until_null(self.cmdline_part_1.as_slice()));
        push_line(
            &mut buf,
            "additional command line args: ",
            take_until_null(self.cmdline_part_2.as_slice()),
        );
        self.versioned.write_info(&mut buf);
        push_bytes(out, buf.as_slice());
    }
}

impl HeaderV3 {
    /// The lines of the summary that speak of sizes.
    pub open spec fn spec_info_sizes(&self) -> Seq<u8> {
        line("kernel_size: "@, decimal(self.kernel_size as nat)) + line(
            "ramdisk size: "@,
            decimal(self.ramdisk_size as nat),
        )
    }

    /// The lines of the summary that speak of the command line, read as a
    /// NUL-terminated byte string, and of the boot signature.
    pub open spec fn spec_info_names(&self) -> Seq<u8> {
        line("command line args: "@, until_nul(self.cmdline@)) + (match self.v4_signature_size {
            Some(size) => line("boot.img signature size: "@, decimal(size as nat)),
            None => Seq::empty(),
        })
    }

    /// Appends the lines of the summary that speak of sizes.
    fn write_info_sizes(&self, out: &mut Vec<u8>)
        ensures
            final(out)@ == old(out)@ + self.spec_info_sizes(),
    {
        proof {
            reveal_strlit("kernel_size: ");
            reveal_strlit("ramdisk size: ");
        }
        push_decimal_line(out, "kernel_size: ", self.kernel_size as u64);
        push_decimal_line(out, "ramdisk size: ", self.ramdisk_size as u64);
        assert(out@ =~= old(out)@ + self.spec_info_sizes());
    }

    /// Appends the lines of the summary that speak of the command line and
    /// of the boot signature.
    fn write_info_names(&self, out: &mut Vec<u8>)
        ensures
            final(out)@ == old(out)@ + self.spec_info_names(),
    {
        proof {
            reveal_strlit("command line args: ");
            reveal_strlit("boot.img signature size: ");
        }
        push_line(out, "command line args: ", take_until_null(self.cmdline.as_slice()));
        match self.v4_signature_size {
            Some(size) => {
                push_decimal_line(out, "boot.img signature size: ", size as u64);
            },
            None => {},
        }
        assert(out@ =~= old(out)@ + self.spec_info_names());
    }
}

impl Header {
    /// The summary of the header for people: one labelled field a line,
    /// sizes in decimal, addresses in hexadecimal, names and command lines
    /// up to their first zero byte.
    pub open spec fn spec_info(&self) -> Seq<u8> {
        line("boot magic: "@, bytes_of("ANDROID!"@)) + (match self {
            Header::V0(hdr) => hdr.spec_info_sizes(),
            Header::V3(hdr) => hdr.spec_info_sizes(),
        }) + line("os version: "@, self.spec_osversionpatch().version().text()) + line(
            "os patch level: "@,
            self.spec_osversionpatch().patch().text(),
        ) + line("boot image header version: "@, decimal(self.spec_header_version() as nat)) + (
        match self {
            Header::V0(hdr) => hdr.spec_info_names(),
            Header::V3(hdr) => hdr.spec_info_names(),
        })
    }

    /// Returns the summary of the header for people.
    pub fn info(&self) -> (out: Vec<u8>)
        ensures
            out@ == self.spec_info(),
    {
        proof {
            reveal_strlit("boot magic: ");
            reveal_strlit("ANDROID!");
            reveal_strlit("os version: ");
            reveal_strlit("os patch level: ");
            reveal_strlit("boot image header version: ");
        }
        let mut out: Vec<u8> = Vec::new();
        let mut magic: Vec<u8> = Vec::new();
        push_str(&mut magic, "ANDROID!");
        assert(magic@ =~= bytes_of("ANDROID!"@));
        push_line(&mut out, "boot magic: ", magic.as_slice());
        assert(out@ =~= line("boot magic: "@, bytes_of("ANDROID!"@)));
        match self {
            Header::V0(hdr) => hdr.write_info_sizes(&mut out),
            Header::V3(hdr) => hdr.write_info_sizes(&mut out),
        }
        let mut version: Vec<u8> = Vec::new();
        self.osversionpatch().version().write_text(&mut version);
        assert(version@ =~= self.spec_osversionpatch().version().text());
        push_line(&mut out, "os version: ", version.as_slice());
        let mut patch: Vec<u8> = Vec::new();
        self.osversionpatch().patch().write_text(&mut patch);
        assert(patch@ =~= self.spec_osversionpatch().patch().text());
        push_line(&mut out, "os patch level: ", patch.as_slice());
        push_decimal_line(&mut out, "boot image header version: ", self.header_version() as u64);
        match self {
            Header::V0(hdr) => hdr.write_info_names(&mut out),
            Header::V3(hdr) => hdr.write_info_names(&mut out),
        }
        out
    }
}

/// The paths of the files that the sections were unpacked to, as bytes.
#[derive(Clone, Debug, PartialEq, Eq, Hash)]
pub struct OutputPaths {
    /// Path of the kernel
    pub kernel: Vec<u8>,
    /// Path of the ramdisk
    pub ramdisk: Vec<u8>,
    /// Path of the second stage bootloader
    pub second: Vec<u8>,
    /// Path of the recovery DTBO
    pub recovery_dtbo: Vec<u8>,
    /// Path of the DTB
    pub dtb: Vec<u8>,
}

/// What stands between two arguments: a zero byte or a space.
pub open spec fn separator(null: bool) -> u8 {
    if null {
        0
    } else {
        32
    }
}

/// What ends the arguments: a zero byte or a line feed.
pub open spec fn terminator(null: bool) -> u8 {
    if null {
        0
    } else {
        10
    }
}

/// A NUL-terminated byte string as one argument: as it is where arguments
/// end in a zero byte, else quoted for the shell.
pub open spec fn spec_word(bytes: Seq<u8>, null: bool) -> Seq<u8> {
    if null {
        until_nul(bytes)
    } else {
        shell_quoted(until_nul(bytes))
    }
}

/// Reads `bytes` as a NUL-terminated byte string and returns it as one
/// argument: as it is where arguments end in a zero byte, else quoted for
/// the shell.
pub fn word(bytes: &[u8], null: bool) -> (r: Vec<u8>)
    ensures
        r@ == spec_word(bytes@, null),
{
    if null {
        let mut out: Vec<u8> = Vec::new();
        push_bytes(&mut out, take_until_null(bytes));
        assert(out@ =~= until_nul(bytes@));
        out
    } else {
        quote_null_bytestring(bytes)
    }
}

impl HeaderV0 {
    /// The command line: both parts, one after the other.
    pub open spec fn spec_cmdline(&self) -> Seq<u8> {
        self.cmdline_part_1@ + self.cmdline_part_2@
    }

    /// Returns the command line: both parts, one after the other.
    pub fn cmdline(&self) -> (r: Vec<u8>)
        ensures
            r@ == self.spec_cmdline(),
    {
        let mut out: Vec<u8> = Vec::new();
        push_bytes(&mut out, self.cmdline_part_1.as_slice());
        assert(out@ =~= self.cmdline_part_1@);
        push_bytes(&mut out, self.cmdline_part_2.as_slice());
        out
    }

    /// The arguments that name the files of the sections after kernel and
    /// ramdisk, each only if the section is not empty.
    pub open spec fn spec_file_args(&self, paths: &OutputPaths, sep: u8) -> Seq<u8> {
        (if self.second_bootloader_size != 0 {
            arg(sep, "--second"@, paths.second@)
        } else {
            Seq::empty()
        }) + (if self.spec_recovery_dtbo_size() is Some && self.spec_recovery_dtbo_size()->0 != 0 {
            arg(sep, "--recovery_dtbo"@, paths.recovery_dtbo@)
        } else {
            Seq::empty()
        }) + (if self.spec_dtb_size() is Some && self.spec_dtb_size()->0 != 0 {
            arg(sep, "--dtb"@, paths.dtb@)
        } else {
            Seq::empty()
        })
    }

    /// The arguments that give page size and load addresses. The addresses
    /// are given as offsets from a base of zero.
    pub open spec fn spec_offset_args(&self, sep: u8) -> Seq<u8> {
        arg(sep, "--pagesize"@, hex_literal(self.page_size as nat, 8)) + arg(
            sep,
            "--base"@,
            hex_literal(0, 8),
        ) + arg(sep, "--kernel_offset"@, hex_literal(self.kernel_addr as nat, 8)) + arg(
            sep,
            "--ramdisk_offset"@,
            hex_literal(self.ramdisk_addr as nat, 8),
        ) + arg(sep, "--second_offset"@, hex_literal(self.second_bootloader_addr as nat, 8)) + arg(
            sep,
            "--tags_offset"@,
            hex_literal(self.tags_addr as nat, 8),
        ) + (match self.versioned {
            HeaderV0Versioned::V2 { dtb_addr, .. } => arg(
                sep,
                "--dtb_offset"@,
                hex_literal(dtb_addr as nat, 16),
            ),
            _ => Seq::empty(),
        })
    }

    /// The arguments that a header up to version 2 adds to those of every
    /// header, with `board` and `cmdline` as the values of the last two.
    pub open spec fn spec_more_args(
        &self,
        paths: &OutputPaths,
        sep: u8,
        board: Seq<u8>,
        cmdline: Seq<u8>,
    ) -> Seq<u8> {
        self.spec_file_args(paths, sep) + self.spec_offset_args(sep) + arg(sep, "--board"@, board)
            + arg(sep, "--cmdline"@, cmdline)
    }

    /// Appends the arguments that name the files of the sections after
    /// kernel and ramdisk.
    fn write_file_args(&self, out: &mut Vec<u8>, paths: &OutputPaths, sep: u8)
        ensures
            final(out)@ == old(out)@ + self.spec_file_args(paths, sep),
    {
        proof {
            reveal_strlit("--second");
            reveal_strlit("--recovery_dtbo");
            reveal_strlit("--dtb");
        }
        if self.second_bootloader_size != 0 {
            push_arg(out, sep, "--second", paths.second.as_slice());
        }
        match self.recovery_dtbo_size() {
            Some(size) => {
                if size != 0 {
                    push_arg(out, sep, "--recovery_dtbo", paths.recovery_dtbo.as_slice());
                }
            },
            None => {},
        }
        match self.dtb_size() {
            Some(size) => {
                if size != 0 {
                    push_arg(out, sep, "--dtb", paths.dtb.as_slice());
                }
            },
            None => {},
        }
        assert(out@ =~= old(out)@ + self.spec_file_args(paths, sep));
    }

    /// Appends the arguments that give page size and load addresses.
    fn write_offset_args(&self, out: &mut Vec<u8>, sep: u8)
        ensures
            final(out)@ == old(out)@ + self.spec_offset_args(sep),
    {
        proof {
            reveal_strlit("--pagesize");
            reveal_strlit("--base");
            reveal_strlit("--kernel_offset");
            reveal_strlit("--ramdisk_offset");
            reveal_strlit("--second_offset");
            reveal_strlit("--tags_offset");
            reveal_strlit("--dtb_offset");
        }
        let mut buf: Vec<u8> = Vec::new();
        push_hex_arg(&mut buf, sep, "--pagesize", self.page_size as u64, 8);
        assert(buf@ =~= arg(sep, "--pagesize"@, hex_literal(self.page_size as nat, 8)));
        push_hex_arg(&mut buf, sep, "--base", 0, 8);
        push_hex_arg(&mut buf, sep, "--kernel_offset", self.kernel_addr as u64, 8);
        push_hex_arg(&mut buf, sep, "--ramdisk_offset", self.ramdisk_addr as u64, 8);
        push_hex_arg(&mut buf, sep, "--second_offset", self.second_bootloader_addr as u64, 8);
        push_hex_arg(&mut buf, sep, "--tags_offset", self.tags_addr as u64, 8);
        match self.versioned {
            HeaderV0Versioned::V2 { dtb_addr, .. } => {
                push_hex_arg(&mut buf, sep, "--dtb_offset", dtb_addr, 16);
            },
            _ => {
                assert(buf@ =~= buf@ + Seq::<u8>::empty());
            },
        }
        push_bytes(out, buf.as_slice());
    }

    /// Appends the arguments that a header up to version 2 adds to those of
    /// every header, with `board` and `cmdline` as the values of the last
    /// two.
    fn write_more_args(
        &self,
        out: &mut Vec<u8>,
        paths: &OutputPaths,
        sep: u8,
        board: &[u8],
        cmdline: &[u8],
    )
        ensures
            final(out)@ == old(out)@ + self.spec_more_args(paths, sep, board@, cmdline@),
    {
        proof {
            reveal_strlit("--board");
            reveal_strlit("--cmdline");
        }
        let mut buf: Vec<u8> = Vec::new();
        self.write_file_args(&mut buf, paths, sep);
        assert(buf@ =~= self.spec_file_args(paths, sep));
        self.write_offset_args(&mut buf, sep);
        push_arg(&mut buf, sep, "--board", board);
        push_arg(&mut buf, sep, "--cmdline", cmdline);
        push_bytes(out, buf.as_slice());
    }
}

impl Header {
    /// The arguments that every header gives: its version, OS version and
    /// patch level, and the files of kernel and ramdisk.
    pub open spec fn spec_common_args(&self, paths: &OutputPaths, sep: u8) -> Seq<u8> {
        bytes_of("--header_version"@) + seq![sep] + decimal(self.spec_header_version() as nat)
            + arg(sep, "--os_version"@, self.spec_osversionpatch().version().text()) + arg(
            sep,
            "--os_patch_level"@,
            self.spec_osversionpatch().patch().text(),
        ) + arg(sep, "--kernel"@, paths.kernel@) + arg(sep, "--ramdisk"@, paths.ramdisk@)
    }

    /// The arguments for `mkbootimg`, with `board` and `cmdline` as the
    /// values of `--board` and `--cmdline`, which only a header up to
    /// version 2 gives. Between two arguments stands a separator, after the
    /// last a terminator.
    pub open spec fn spec_mkbootimg_args_with(
        &self,
        paths: &OutputPaths,
        null: bool,
        board: Seq<u8>,
        cmdline: Seq<u8>,
    ) -> Seq<u8> {
        self.spec_common_args(paths, separator(null)) + (match self {
            Header::V0(hdr) => hdr.spec_more_args(paths, separator(null), board, cmdline),
            Header::V3(_) => Seq::empty(),
        }) + seq![terminator(null)]
    }

    /// The arguments that make `mkbootimg` build the image again from the
    /// unpacked files. Board name and command line are read as
    /// NUL-terminated byte strings and, unless arguments end in a zero
    /// byte, quoted for the shell.
    pub open spec fn spec_mkbootimg_args(&self, paths: &OutputPaths, null: bool) -> Seq<u8> {
        match self {
            Header::V0(hdr) => self.spec_mkbootimg_args_with(
                paths,
                null,
                spec_word(hdr.board_name@, null),
                spec_word(hdr.spec_cmdline(), null),
            ),
            Header::V3(_) => self.spec_mkbootimg_args_with(
                paths,
                null,
                Seq::empty(),
                Seq::empty(),
            ),
        }
    }

    /// Appends the arguments that every header gives.
    fn write_common_args(&self, out: &mut Vec<u8>, paths: &OutputPaths, sep: u8)
        ensures
            final(out)@ == old(out)@ + self.spec_common_args(paths, sep),
    {
        proof {
            reveal_strlit("--header_version");
            reveal_strlit("--os_version");
            reveal_strlit("--os_patch_level");
            reveal_strlit("--kernel");
            reveal_strlit("--ramdisk");
        }
        let mut buf: Vec<u8> = Vec::new();
        push_str(&mut buf, "--header_version");
        assert(buf@ =~= bytes_of("--header_version"@));
        buf.push(sep);
        push_decimal(&mut buf, self.header_version() as u64);
        assert(buf@ == bytes_of("--header_version"@) + seq![sep] + decimal(
            self.spec_header_version() as nat,
        ));
        let mut version: Vec<u8> = Vec::new();
        self.osversionpatch().version().write_text(&mut version);
        assert(version@ =~= self.spec_osversionpatch().version().text());
        push_arg(&mut buf, sep, "--os_version", version.as_slice());
        let mut patch: Vec<u8> = Vec::new();
        self.osversionpatch().patch().write_text(&mut patch);
        assert(patch@ =~= self.spec_osversionpatch().patch().text());
        push_arg(&mut buf, sep, "--os_patch_level", patch.as_slice());
        push_arg(&mut buf, sep, "--kernel", paths.kernel.as_slice());
        push_arg(&mut buf, sep, "--ramdisk", paths.ramdisk.as_slice());
        push_bytes(out, buf.as_slice());
    }

    /// Returns the arguments for `mkbootimg`, with `board` and `cmdline` as
    /// the values of `--board` and `--cmdline`.
    pub fn mkbootimg_args_with(
        &self,
        paths: &OutputPaths,
        null: bool,
        board: &[u8],
        cmdline: &[u8],
    ) -> (out: Vec<u8>)
        ensures
            out@ == self.spec_mkbootimg_args_with(paths, null, board@, cmdline@),
    {
        let sep: u8 = if null {
            0
        } else {
            32
        };
        let mut out: Vec<u8> = Vec::new();
        self.write_common_args(&mut out, paths, sep);
        assert(out@ =~= self.spec_common_args(paths, sep));
        match self {
            Header::V0(hdr) => {
                hdr.write_more_args(&mut out, paths, sep, board, cmdline);
            },
            Header::V3(_) => {
                assert(out@ =~= out@ + Seq::<u8>::empty());
            },
        }
        out.push(if null {
            0
        } else {
            10
        });
        out
    }

    /// Returns the arguments that make `mkbootimg` build the image again
    /// from the unpacked files.
    pub fn mkbootimg_args(&self, paths: &OutputPaths, null: bool) -> (out: Vec<u8>)
        ensures
            out@ == self.spec_mkbootimg_args(paths, null),
    {
        match self {
            Header::V0(hdr) => {
                let board = word(hdr.board_name.as_slice(), null);
                let cmdline = word(hdr.cmdline().as_slice(), null);
                self.mkbootimg_args_with(paths, null, board.as_slice(), cmdline.as_slice())
            },
            Header::V3(_) => {
                let empty: Vec<u8> = Vec::new();
                self.mkbootimg_args_with(paths, null, empty.as_slice(), empty.as_slice())
            },
        }
    }
}

} // verus!
