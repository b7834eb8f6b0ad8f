use abootimg_oxide::report::{word, OutputPaths};
use abootimg_oxide::{
    Header, HeaderV0, HeaderV0Versioned, HeaderV3, OsVersionPatch, Section, SectionKind,
};

fn boot_v2() -> HeaderV0 {
    let mut board_name = [0u8; 16];
    board_name[..4].copy_from_slice(b"name");
    let mut cmdline_part_1 = Box::new([0u8; 512]);
    cmdline_part_1[..5].copy_from_slice(b"a=b c");
    let mut cmdline_part_2 = Box::new([0u8; 1024]);
    cmdline_part_2[0] = b'd';
    HeaderV0 {
        kernel_size: 5000,
        kernel_addr: 0x8000,
        ramdisk_size: 4096,
        ramdisk_addr: 0x0100_0000,
        second_bootloader_size: 1,
        second_bootloader_addr: 0x00f0_0000,
        tags_addr: 0x100,
        page_size: 4096,
        osversionpatch: OsVersionPatch(402653574),
        board_name,
        cmdline_part_1,
        hash_digest: [0x5a; 32],
        cmdline_part_2,
        versioned: HeaderV0Versioned::V2 {
            recovery_dtbo_size: 100,
            recovery_dtbo_addr: 0x0123_4567_89ab_cdef,
            dtb_size: 8192,
            dtb_addr: 0xfedc_ba98_7654_3210,
        },
    }
}

fn boot_v3(v4_signature_size: Option<u32>) -> HeaderV3 {
    let mut cmdline = Box::new([0u8; 1536]);
    cmdline[..7].copy_from_slice(b"quiet x");
    HeaderV3 {
        kernel_size: 0x20_0000,
        ramdisk_size: 0x10_0001,
        osversionpatch: OsVersionPatch(402653574),
        cmdline,
        v4_signature_size,
    }
}

fn out_paths() -> OutputPaths {
    OutputPaths {
        kernel: b"out/kernel".to_vec(),
        ramdisk: b"out/ramdisk".to_vec(),
        second: b"out/second".to_vec(),
        recovery_dtbo: b"out/recovery_dtbo".to_vec(),
        dtb: b"out/dtb".to_vec(),
    }
}

#[test]
fn sections_of_a_v2_image() {
    let hdr = Header::V0(boot_v2());
    assert_eq!(
        hdr.sections(),
        vec![
            Section { kind: SectionKind::Kernel, position: 4096, size: 5000 },
            Section { kind: SectionKind::Ramdisk, position: 12288, size: 4096 },
            Section { kind: SectionKind::Second, position: 16384, size: 1 },
            Section { kind: SectionKind::RecoveryDtbo, position: 20480, size: 100 },
            Section { kind: SectionKind::Dtb, position: 20480, size: 8192 },
        ]
    );
}

#[test]
fn empty_sections_are_left_out() {
    let mut v0 = boot_v2();
    v0.kernel_size = 0;
    v0.ramdisk_size = 0;
    v0.second_bootloader_size = 0;
    v0.versioned = HeaderV0Versioned::V2 {
        recovery_dtbo_size: 0,
        recovery_dtbo_addr: 0,
        dtb_size: 1,
        dtb_addr: 0,
    };
    assert_eq!(
        Header::V0(v0.clone()).sections(),
        vec![
            Section { kind: SectionKind::Kernel, position: 4096, size: 0 },
            Section { kind: SectionKind::Ramdisk, position: 4096, size: 0 },
            Section { kind: SectionKind::Dtb, position: 4096, size: 1 },
        ]
    );
    v0.versioned = HeaderV0Versioned::V1 { recovery_dtbo_size: 7, recovery_dtbo_addr: 0 };
    assert_eq!(v0.recovery_dtbo_size(), Some(7));
    assert_eq!(v0.dtb_size(), None);
    assert_eq!(
        Header::V0(v0.clone()).sections(),
        vec![
            Section { kind: SectionKind::Kernel, position: 4096, size: 0 },
            Section { kind: SectionKind::Ramdisk, position: 4096, size: 0 },
            Section { kind: SectionKind::RecoveryDtbo, position: 4096, size: 7 },
        ]
    );
    v0.versioned = HeaderV0Versioned::V0;
    assert_eq!(v0.recovery_dtbo_size(), None);
    assert_eq!(Header::V0(v0).sections().len(), 2);
}

#[test]
fn sections_of_v3_and_v4_images() {
    let kernel = Section { kind: SectionKind::Kernel, position: 4096, size: 0x20_0000 };
    let ramdisk =
        Section { kind: SectionKind::Ramdisk, position: 4096 + 0x20_0000, size: 0x10_0001 };
    assert_eq!(Header::V3(boot_v3(None)).sections(), vec![kernel, ramdisk]);
    assert_eq!(Header::V3(boot_v3(Some(0))).sections(), vec![kernel, ramdisk]);
    assert_eq!(
        Header::V3(boot_v3(Some(0x800))).sections(),
        vec![
            kernel,
            ramdisk,
            Section {
                kind: SectionKind::BootSignature,
                position: 4096 + 0x20_0000 + 0x10_1000,
                size: 0x800
            },
        ]
    );
}

#[test]
fn file_names() {
    assert_eq!(SectionKind::Kernel.file_name(), "kernel");
    assert_eq!(SectionKind::Ramdisk.file_name(), "ramdisk");
    assert_eq!(SectionKind::Second.file_name(), "second");
    assert_eq!(SectionKind::RecoveryDtbo.file_name(), "recovery_dtbo");
    assert_eq!(SectionKind::Dtb.file_name(), "dtb");
    assert_eq!(SectionKind::BootSignature.file_name(), "boot_signature");
}

#[test]
fn info_of_a_v2_image() {
    let expected = "boot magic: ANDROID!\n\
        kernel_size: 5000\n\
        kernel load address: 0x00008000\n\
        ramdisk size: 4096\n\
        ramdisk load address: 0x01000000\n\
        second bootloader size: 1\n\
        second bootloader load address: 0x00f00000\n\
        kernel tags load address: 0x00000100\n\
        page size: 4096\n\
        os version: 12.0.0\n\
        os patch level: 2024-06\n\
        boot image header version: 2\n\
        product name: name\n\
        command line args: a=b c\n\
        additional command line args: d\n\
        recovery dtbo size: 100\n\
        recovery dtbo offset: 0x0123456789abcdef\n\
        boot header size: 1660\n\
        dtb size: 8192\n\
        dtb address: 0xfedcba9876543210\n";
    assert_eq!(String::from_utf8(Header::V0(boot_v2()).info()).unwrap(), expected);
}

#[test]
fn info_of_v0_and_v1_images() {
    let mut v0 = boot_v2();
    v0.versioned = HeaderV0Versioned::V1 { recovery_dtbo_size: 0, recovery_dtbo_addr: 0x10 };
    let text = String::from_utf8(Header::V0(v0.clone()).info()).unwrap();
    assert!(text.ends_with(
        "additional command line args: d\n\
        recovery dtbo size: 0\n\
        recovery dtbo offset: 0x0000000000000010\n\
        boot header size: 1648\n"
    ));
    assert!(text.contains("boot image header version: 1\n"));
    v0.versioned = HeaderV0Versioned::V0;
    let text = String::from_utf8(Header::V0(v0).info()).unwrap();
    assert!(text.ends_with("command line args: a=b c\nadditional command line args: d\n"));
    assert!(text.contains("boot image header version: 0\n"));
}

#[test]
fn info_of_v3_and_v4_images() {
    let head = "boot magic: ANDROID!\n\
        kernel_size: 2097152\n\
        ramdisk size: 1048577\n\
        os version: 12.0.0\n\
        os patch level: 2024-06\n";
    assert_eq!(
        String::from_utf8(Header::V3(boot_v3(None)).info()).unwrap(),
        format!("{head}boot image header version: 3\ncommand line args: quiet x\n")
    );
    assert_eq!(
        String::from_utf8(Header::V3(boot_v3(Some(0))).info()).unwrap(),
        format!(
            "{head}boot image header version: 4\ncommand line args: quiet x\n\
            boot.img signature size: 0\n"
        )
    );
}

#[test]
fn info_keeps_bytes_that_are_no_text() {
    let mut v0 = boot_v2();
    v0.board_name = [0xff; 16];
    v0.versioned = HeaderV0Versioned::V0;
    let info = Header::V0(v0).info();
    let at = info.windows(14).position(|w| w == b"product name: ").unwrap();
    assert_eq!(&info[at + 14..at + 14 + 17], &[[0xffu8; 16].as_slice(), b"\n"].concat()[..]);
}

#[test]
fn mkbootimg_arguments_of_a_v2_image() {
    let hdr = Header::V0(boot_v2());
    let expected = "--header_version 2 --os_version 12.0.0 --os_patch_level 2024-06 \
        --kernel out/kernel --ramdisk out/ramdisk --second out/second \
        --recovery_dtbo out/recovery_dtbo --dtb out/dtb --pagesize 0x00001000 \
        --base 0x00000000 --kernel_offset 0x00008000 --ramdisk_offset 0x01000000 \
        --second_offset 0x00f00000 --tags_offset 0x00000100 --dtb_offset 0xfedcba9876543210 \
        --board name --cmdline 'a=b c'\n";
    assert_eq!(String::from_utf8(hdr.mkbootimg_args(&out_paths(), false)).unwrap(), expected);
    let with_nul = expected.replace(' ', "\0").replace('\n', "\0").replace("'a=b\0c'", "a=b c");
    assert_eq!(String::from_utf8(hdr.mkbootimg_args(&out_paths(), true)).unwrap(), with_nul);
}

#[test]
fn mkbootimg_arguments_take_the_words_they_are_given() {
    let hdr = Header::V0(boot_v2());
    let args = hdr.mkbootimg_args_with(&out_paths(), false, b"BOARD", b"CMD LINE");
    assert!(args.ends_with(b" --board BOARD --cmdline CMD LINE\n"));
    let args = hdr.mkbootimg_args_with(&out_paths(), true, b"", b"");
    assert!(args.ends_with(b"\0--board\0\0--cmdline\0\0"));
}

#[test]
fn mkbootimg_arguments_leave_out_empty_sections() {
    let mut v0 = boot_v2();
    v0.second_bootloader_size = 0;
    v0.versioned = HeaderV0Versioned::V1 { recovery_dtbo_size: 0, recovery_dtbo_addr: 0 };
    v0.board_name = [0; 16];
    let expected = "--header_version 1 --os_version 12.0.0 --os_patch_level 2024-06 \
        --kernel out/kernel --ramdisk out/ramdisk --pagesize 0x00001000 \
        --base 0x00000000 --kernel_offset 0x00008000 --ramdisk_offset 0x01000000 \
        --second_offset 0x00f00000 --tags_offset 0x00000100 --board '' --cmdline 'a=b c'\n";
    assert_eq!(
        String::from_utf8(Header::V0(v0).mkbootimg_args(&out_paths(), false)).unwrap(),
        expected
    );
}

#[test]
fn mkbootimg_arguments_of_v3_and_v4_images() {
    assert_eq!(
        Header::V3(boot_v3(None)).mkbootimg_args(&out_paths(), false),
        b"--header_version 3 --os_version 12.0.0 --os_patch_level 2024-06 \
        --kernel out/kernel --ramdisk out/ramdisk\n"
            .to_vec()
    );
    assert_eq!(
        Header::V3(boot_v3(Some(1))).mkbootimg_args(&out_paths(), true),
        b"--header_version\x004\0--os_version\x0012.0.0\0--os_patch_level\x002024-06\0\
        --kernel\0out/kernel\0--ramdisk\0out/ramdisk\0"
            .to_vec()
    );
}

#[test]
fn command_line_is_both_parts() {
    let mut v0 = boot_v2();
    v0.cmdline_part_1 = Box::new([b'x'; 512]);
    let cmdline = v0.cmdline();
    assert_eq!(cmdline.len(), 1536);
    assert_eq!(&cmdline[..512], &[b'x'; 512][..]);
    assert_eq!(cmdline[512], b'd');
    assert_eq!(word(&cmdline, true), [[b'x'; 512].as_slice(), b"d"].concat());
    assert_eq!(word(b"two words\0", false), b"'two words'".to_vec());
    assert_eq!(word(b"two words\0", true), b"two words".to_vec());
}
