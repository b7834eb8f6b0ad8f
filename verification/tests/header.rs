use abootimg_oxide::{
    Error, Header, HeaderV0, HeaderV0Versioned, HeaderV3, HeaderVariant, OsVersionPatch,
};

fn put_u32(bytes: &mut [u8], at: usize, value: u32) {
    bytes[at..at + 4].copy_from_slice(&value.to_le_bytes());
}

fn put_u64(bytes: &mut [u8], at: usize, value: u64) {
    bytes[at..at + 8].copy_from_slice(&value.to_le_bytes());
}

fn v2_image() -> Vec<u8> {
    let mut bytes = vec![0u8; 4096];
    bytes[..8].copy_from_slice(b"ANDROID!");
    put_u32(&mut bytes, 8, 0x0080_0000);
    put_u32(&mut bytes, 12, 0x1000_8000);
    put_u32(&mut bytes, 16, 0x0012_3456);
    put_u32(&mut bytes, 20, 0x1100_0000);
    put_u32(&mut bytes, 24, 0);
    put_u32(&mut bytes, 28, 0x10f0_0000);
    put_u32(&mut bytes, 32, 0x1000_0100);
    put_u32(&mut bytes, 36, 2048);
    put_u32(&mut bytes, 40, 2);
    put_u32(&mut bytes, 44, 402653574);
    bytes[48..53].copy_from_slice(b"board");
    bytes[64..76].copy_from_slice(b"console=tty0");
    bytes[576] = 0xaa;
    bytes[607] = 0xbb;
    bytes[608..613].copy_from_slice(b"quiet");
    put_u32(&mut bytes, 1632, 0x2000);
    put_u64(&mut bytes, 1636, 0x1_0000_0000);
    put_u32(&mut bytes, 1644, 1660);
    put_u32(&mut bytes, 1648, 0x1000);
    put_u64(&mut bytes, 1652, 0x1f0_0000);
    bytes
}

fn v3_image(version: u32) -> Vec<u8> {
    let mut bytes = vec![0u8; 4096];
    bytes[..8].copy_from_slice(b"ANDROID!");
    put_u32(&mut bytes, 8, 0x20_0000);
    put_u32(&mut bytes, 12, 0x10_0000);
    put_u32(&mut bytes, 16, 402653574);
    put_u32(&mut bytes, 20, if version == 4 { 1584 } else { 1580 });
    put_u32(&mut bytes, 40, version);
    bytes[44..56].copy_from_slice(b"console=tty0");
    if version == 4 {
        put_u32(&mut bytes, 1580, 0x1000);
    }
    bytes
}

fn sample_v2() -> HeaderV0 {
    let mut board_name = [0u8; 16];
    board_name[..4].copy_from_slice(b"name");
    let mut cmdline_part_1 = Box::new([0u8; 512]);
    cmdline_part_1[..3].copy_from_slice(b"a=b");
    let mut cmdline_part_2 = Box::new([0u8; 1024]);
    cmdline_part_2[1023] = 7;
    HeaderV0 {
        kernel_size: 5000,
        kernel_addr: 0x8000,
        ramdisk_size: 4096,
        ramdisk_addr: 0x0100_0000,
        second_bootloader_size: 1,
        second_bootloader_addr: 0x00f0_0000,
        tags_addr: 0x100,
        page_size: 4096,
        osversionpatch: OsVersionPatch(402653574),
        board_name,
        cmdline_part_1,
        hash_digest: [0x5a; 32],
        cmdline_part_2,
        versioned: HeaderV0Versioned::V2 {
            recovery_dtbo_size: 100,
            recovery_dtbo_addr: 0x0123_4567_89ab_cdef,
            dtb_size: 8192,
            dtb_addr: 0xfedc_ba98_7654_3210,
        },
    }
}

#[test]
fn parse_v2_image_with_page_size_2048() {
    let bytes = v2_image();
    let hdr = Header::parse(&bytes).unwrap();
    assert!(matches!(hdr, Header::V0(_)));
    assert_eq!(hdr.header_version(), 2);
    assert!(hdr.is_well_formed());
    assert_eq!(hdr.kernel_position(), 2048);
    assert_eq!(hdr.kernel_size(), 0x0080_0000);
    assert_eq!(hdr.page_size(), 2048);
    assert_eq!(hdr.osversionpatch(), OsVersionPatch(402653574));
    let Header::V0(v0) = hdr else { panic!("not a v0 header") };
    assert!(v0.dtb_position().is_some());
    assert_eq!(
        v0.versioned,
        HeaderV0Versioned::V2 {
            recovery_dtbo_size: 0x2000,
            recovery_dtbo_addr: 0x1_0000_0000,
            dtb_size: 0x1000,
            dtb_addr: 0x1f0_0000,
        }
    );
    assert_eq!(v0.kernel_addr, 0x1000_8000);
    assert_eq!(v0.ramdisk_size, 0x0012_3456);
    assert_eq!(v0.ramdisk_addr, 0x1100_0000);
    assert_eq!(v0.second_bootloader_addr, 0x10f0_0000);
    assert_eq!(v0.tags_addr, 0x1000_0100);
    assert_eq!(&v0.board_name[..6], b"board\0");
    assert_eq!(&v0.cmdline_part_1[..13], b"console=tty0\0");
    assert_eq!(v0.hash_digest[0], 0xaa);
    assert_eq!(v0.hash_digest[31], 0xbb);
    assert_eq!(&v0.cmdline_part_2[..6], b"quiet\0");
}

#[test]
fn v2_layout_positions() {
    let Header::V0(v0) = Header::parse(&v2_image()).unwrap() else { panic!("not a v0 header") };
    assert_eq!(v0.get_padding(1660), 388);
    assert_eq!(v0.get_padding(0), 0);
    assert_eq!(v0.get_padding(2048), 0);
    assert_eq!(v0.get_padding(2049), 2047);
    assert_eq!(v0.kernel_position(), 2048);
    assert_eq!(v0.ramdisk_position(), 2048 + 0x0080_0000);
    // 0x123456 rounds up to 0x123800
    assert_eq!(v0.second_bootloader_position(), 2048 + 0x0080_0000 + 0x0012_3800);
    assert_eq!(v0.recovery_dtbo_position(), 2048 + 0x0080_0000 + 0x0012_3800);
    assert_eq!(v0.dtb_position(), Some(2048 + 0x0080_0000 + 0x0012_3800 + 0x2000));
}

#[test]
fn parse_v3_image() {
    let bytes = v3_image(3);
    let hdr = Header::parse(&bytes).unwrap();
    assert!(matches!(hdr, Header::V3(_)));
    assert_eq!(hdr.header_version(), 3);
    assert_eq!(hdr.kernel_position(), 4096);
    assert_eq!(hdr.ramdisk_position(), 4096 + 0x20_0000);
    assert_eq!(hdr.page_size(), 4096);
    assert_eq!(hdr.kernel_size(), 0x20_0000);
    assert_eq!(hdr.ramdisk_size(), 0x10_0000);
    let Header::V3(v3) = hdr else { panic!("not a v3 header") };
    assert_eq!(v3.v4_signature_size, None);
    assert_eq!(v3.bootsig_position(), 4096 + 0x20_0000 + 0x10_0000);
    assert_eq!(&v3.cmdline[..13], b"console=tty0\0");
}

#[test]
fn parse_v4_image() {
    let bytes = v3_image(4);
    let hdr = Header::parse(&bytes).unwrap();
    assert_eq!(hdr.header_version(), 4);
    let ramdisk_position = hdr.ramdisk_position();
    let Header::V3(v3) = hdr else { panic!("not a v3 header") };
    assert_eq!(v3.v4_signature_size, Some(0x1000));
    assert_eq!(v3.bootsig_position(), ramdisk_position + 0x10_0000);
}

#[test]
fn reject_unknown_version() {
    let mut bytes = v2_image();
    put_u32(&mut bytes, 0x28, 5);
    assert_eq!(Header::parse(&bytes), Err(Error::UnknownVersion { pos: 0x28, value: 5 }));
    // the version word is looked at before the magic
    bytes[..8].copy_from_slice(b"BADMAGIC");
    assert_eq!(Header::parse(&bytes), Err(Error::UnknownVersion { pos: 0x28, value: 5 }));
}

#[test]
fn reject_bad_magic() {
    for image in [v2_image(), v3_image(3), v3_image(4)] {
        let mut bytes = image;
        bytes[..8].copy_from_slice(b"BADMAGIC");
        assert_eq!(
            Header::parse(&bytes),
            Err(Error::BadMagic { pos: 0, expected: *b"ANDROID!", found: *b"BADMAGIC" })
        );
    }
}

#[test]
fn write_recomputes_version_and_size() {
    let hdr = Header::V0(sample_v2());
    let mut bytes = Vec::new();
    hdr.write(&mut bytes);
    assert_eq!(bytes.len(), 1660);
    assert_eq!(&bytes[0x28..0x2c], &2u32.to_le_bytes());
    assert_eq!(&bytes[1644..1648], &1660u32.to_le_bytes());
    assert_eq!(Header::parse(&bytes), Ok(hdr));
}

#[test]
fn write_appends_to_the_sink() {
    let hdr = sample_v2();
    let mut bytes = vec![1, 2, 3];
    hdr.write(&mut bytes);
    assert_eq!(bytes.len(), 3 + 1660);
    assert_eq!(&bytes[..3], &[1, 2, 3]);
    assert_eq!(&bytes[3..], &hdr.to_bytes()[..]);
    assert_eq!(&bytes[3..11], b"ANDROID!");
}

#[test]
fn round_trip_of_parsed_images() {
    let bytes = v2_image();
    let hdr = Header::parse(&bytes).unwrap();
    assert_eq!(hdr.to_bytes(), bytes[..1660].to_vec());
    for version in [3, 4] {
        let bytes = v3_image(version);
        let hdr = Header::parse(&bytes).unwrap();
        let len = if version == 4 { 1584 } else { 1580 };
        assert_eq!(hdr.to_bytes(), bytes[..len].to_vec());
    }
}

#[test]
fn v0_and_v1_round_trip() {
    let mut bytes = v2_image();
    put_u32(&mut bytes, 40, 0);
    let hdr = HeaderV0::read(&bytes).unwrap();
    assert_eq!(hdr.versioned, HeaderV0Versioned::V0);
    assert_eq!(hdr.header_version(), 0);
    assert_eq!(hdr.dtb_position(), None);
    assert_eq!(hdr.to_bytes(), bytes[..1632].to_vec());

    put_u32(&mut bytes, 40, 1);
    put_u32(&mut bytes, 1644, 1648);
    let hdr = HeaderV0::read(&bytes).unwrap();
    assert_eq!(
        hdr.versioned,
        HeaderV0Versioned::V1 { recovery_dtbo_size: 0x2000, recovery_dtbo_addr: 0x1_0000_0000 }
    );
    assert_eq!(hdr.header_version(), 1);
    assert_eq!(hdr.dtb_position(), None);
    assert_eq!(hdr.to_bytes(), bytes[..1648].to_vec());
    assert_eq!(&hdr.to_bytes()[1644..1648], &1648u32.to_le_bytes());
}

#[test]
fn header_size_mismatch() {
    let mut bytes = v2_image();
    put_u32(&mut bytes, 1644, 1648);
    assert_eq!(
        Header::parse(&bytes),
        Err(Error::HeaderSizeMismatch {
            variant: HeaderVariant::BootV2,
            expected: 1660,
            found: 1648
        })
    );
    put_u32(&mut bytes, 40, 1);
    put_u32(&mut bytes, 1644, 1660);
    assert_eq!(
        Header::parse(&bytes),
        Err(Error::HeaderSizeMismatch {
            variant: HeaderVariant::BootV1,
            expected: 1648,
            found: 1660
        })
    );
    let mut bytes = v3_image(3);
    put_u32(&mut bytes, 20, 1584);
    assert_eq!(
        Header::parse(&bytes),
        Err(Error::HeaderSizeMismatch {
            variant: HeaderVariant::BootV3,
            expected: 1580,
            found: 1584
        })
    );
    let mut bytes = v3_image(4);
    put_u32(&mut bytes, 20, 1580);
    assert_eq!(
        Header::parse(&bytes),
        Err(Error::HeaderSizeMismatch {
            variant: HeaderVariant::BootV4,
            expected: 1584,
            found: 1580
        })
    );
}

#[test]
fn short_reads() {
    let bytes = v2_image();
    assert_eq!(Header::parse(&bytes[..0]), Err(Error::ShortRead));
    assert_eq!(Header::parse(&bytes[..43]), Err(Error::ShortRead));
    assert_eq!(Header::parse(&bytes[..44]), Err(Error::ShortRead));
    assert_eq!(Header::parse(&bytes[..1631]), Err(Error::ShortRead));
    assert_eq!(Header::parse(&bytes[..1659]), Err(Error::ShortRead));
    assert!(Header::parse(&bytes[..1660]).is_ok());
    assert_eq!(HeaderV0::read(&bytes[..7]), Err(Error::ShortRead));
    let bytes = v3_image(4);
    assert_eq!(Header::parse(&bytes[..1579]), Err(Error::ShortRead));
    assert_eq!(Header::parse(&bytes[..1583]), Err(Error::ShortRead));
    assert!(Header::parse(&bytes[..1584]).is_ok());
    let bytes = v3_image(3);
    assert!(Header::parse(&bytes[..1580]).is_ok());
}

#[test]
fn v3_codec_rejects_other_versions() {
    let mut bytes = v3_image(3);
    put_u32(&mut bytes, 40, 2);
    assert_eq!(HeaderV3::read(&bytes), Err(Error::UnknownVersion { pos: 0x28, value: 2 }));
    let bytes = v3_image(3);
    assert_eq!(HeaderV0::read(&bytes), Err(Error::UnknownVersion { pos: 0x28, value: 3 }));
}

#[test]
fn v3_reserved_bytes_are_written_as_zeros() {
    let mut bytes = v3_image(3);
    bytes[24] = 0xff;
    bytes[39] = 0x01;
    let hdr = HeaderV3::read(&bytes).unwrap();
    let out = hdr.to_bytes();
    assert_eq!(&out[24..40], &[0u8; 16]);
    assert_eq!(&out[..24], &bytes[..24]);
    assert_eq!(&out[40..], &bytes[40..1580]);
    assert_eq!(hdr.header_size(), 1580);
    assert_eq!(&out[20..24], &1580u32.to_le_bytes());
}

#[test]
fn well_formedness_is_a_power_of_two_page_size() {
    let mut hdr = sample_v2();
    for shift in 0..32 {
        hdr.page_size = 1 << shift;
        assert!(hdr.is_well_formed());
    }
    for page_size in [0u32, 3, 6, 12, 4095, 4097, u32::MAX, 0x8000_0001] {
        hdr.page_size = page_size;
        assert!(!hdr.is_well_formed());
    }
    assert!(Header::V3(HeaderV3::read(&v3_image(3)).unwrap()).is_well_formed());
}

#[test]
fn sections_are_page_aligned_and_ordered() {
    let mut hdr = sample_v2();
    for page_size in [1u32, 2048, 4096, 16384, 0x8000_0000] {
        for sizes in [(0u32, 0u32, 0u32), (1, 1, 1), (4096, 4097, 5), (u32::MAX, u32::MAX, u32::MAX)] {
            hdr.page_size = page_size;
            hdr.kernel_size = sizes.0;
            hdr.ramdisk_size = sizes.1;
            hdr.second_bootloader_size = sizes.2;
            let page = page_size as u64;
            let kernel = hdr.kernel_position();
            let ramdisk = hdr.ramdisk_position();
            let second = hdr.second_bootloader_position();
            let dtbo = hdr.recovery_dtbo_position();
            for position in [kernel, ramdisk, second, dtbo, hdr.dtb_position().unwrap()] {
                assert_eq!(position % page, 0);
            }
            assert!(1660 <= kernel && kernel < 1660 + page);
            assert!(kernel + sizes.0 as u64 <= ramdisk && ramdisk < kernel + sizes.0 as u64 + page);
            assert!(ramdisk + sizes.1 as u64 <= second && second < ramdisk + sizes.1 as u64 + page);
            assert!(second + sizes.2 as u64 <= dtbo && dtbo < second + sizes.2 as u64 + page);
        }
    }
}

#[test]
fn kernel_position_uses_the_largest_header_size() {
    let mut hdr = sample_v2();
    hdr.versioned = HeaderV0Versioned::V0;
    hdr.page_size = 2048;
    assert_eq!(hdr.kernel_position(), 2048);
    hdr.page_size = 1024;
    assert_eq!(hdr.kernel_position(), 2048);
    hdr.page_size = 512;
    assert_eq!(hdr.kernel_position(), 2048);
    hdr.page_size = 4;
    assert_eq!(hdr.kernel_position(), 1660);
    hdr.page_size = 8;
    assert_eq!(hdr.kernel_position(), 1664);
}

#[test]
fn v3_padding() {
    assert_eq!(HeaderV3::get_padding(0), 0);
    assert_eq!(HeaderV3::get_padding(1), 4095);
    assert_eq!(HeaderV3::get_padding(4096), 0);
    assert_eq!(HeaderV3::get_padding(u32::MAX), 1);
    assert_eq!(HeaderV3::kernel_position(), 4096);
}

#[test]
fn version_agrees_with_the_word_at_0x28() {
    for version in 0u32..=2 {
        let mut bytes = v2_image();
        put_u32(&mut bytes, 0x28, version);
        put_u32(&mut bytes, 1644, if version == 1 { 1648 } else { 1660 });
        let hdr = Header::parse(&bytes).unwrap();
        assert_eq!(hdr.header_version(), version);
        assert_eq!(&hdr.to_bytes()[0x28..0x2c], &version.to_le_bytes());
    }
    for version in 3u32..=4 {
        let hdr = Header::parse(&v3_image(version)).unwrap();
        assert_eq!(hdr.header_version(), version);
        assert_eq!(&hdr.to_bytes()[0x28..0x2c], &version.to_le_bytes());
    }
    for version in [5u32, 6, 255, 0x100, u32::MAX] {
        let mut bytes = v3_image(3);
        put_u32(&mut bytes, 0x28, version);
        assert_eq!(Header::parse(&bytes), Err(Error::UnknownVersion { pos: 0x28, value: version }));
    }
}

#[test]
fn header_size_slots() {
    let mut hdr = sample_v2();
    assert_eq!(&hdr.to_bytes()[1644..1648], &1660u32.to_le_bytes());
    hdr.versioned = HeaderV0Versioned::V1 { recovery_dtbo_size: 1, recovery_dtbo_addr: 2 };
    assert_eq!(&hdr.to_bytes()[1644..1648], &1648u32.to_le_bytes());
    let v3 = HeaderV3::read(&v3_image(3)).unwrap();
    assert_eq!(&v3.to_bytes()[20..24], &1580u32.to_le_bytes());
    let v4 = HeaderV3::read(&v3_image(4)).unwrap();
    assert_eq!(&v4.to_bytes()[20..24], &1584u32.to_le_bytes());
}

#[test]
fn v3_sections_are_page_aligned_and_ordered() {
    let mut hdr = HeaderV3::read(&v3_image(4)).unwrap();
    for sizes in [(0u32, 0u32), (1, 1), (4096, 4097), (4095, 8192), (u32::MAX, u32::MAX)] {
        hdr.kernel_size = sizes.0;
        hdr.ramdisk_size = sizes.1;
        let kernel = HeaderV3::kernel_position();
        let ramdisk = hdr.ramdisk_position();
        let bootsig = hdr.bootsig_position();
        for position in [kernel, ramdisk, bootsig] {
            assert_eq!(position % 4096, 0);
        }
        assert!(kernel + sizes.0 as u64 <= ramdisk && ramdisk < kernel + sizes.0 as u64 + 4096);
        assert!(ramdisk + sizes.1 as u64 <= bootsig && bootsig < ramdisk + sizes.1 as u64 + 4096);
        assert!(kernel <= ramdisk && ramdisk <= bootsig);
    }
}

#[test]
fn dtb_follows_the_recovery_dtbo_without_a_second_bootloader() {
    let mut hdr = sample_v2();
    hdr.page_size = 2048;
    hdr.second_bootloader_size = 0;
    let dtbo_end = hdr.recovery_dtbo_position() + 100;
    let dtb = hdr.dtb_position().unwrap();
    assert_eq!(hdr.recovery_dtbo_position(), hdr.second_bootloader_position());
    assert!(dtbo_end <= dtb && dtb < dtbo_end + 2048);
    assert_eq!(dtb % 2048, 0);
    // the position of the DTB does not count the second stage bootloader
    hdr.second_bootloader_size = 5000;
    assert_eq!(hdr.dtb_position().unwrap(), dtb);
    assert_eq!(hdr.recovery_dtbo_position(), hdr.second_bootloader_position() + 6144);
    assert!(hdr.dtb_position().unwrap() < hdr.recovery_dtbo_position());
    assert!(hdr.second_bootloader_position() <= hdr.dtb_position().unwrap());
}

#[test]
fn parsed_headers_are_plain_values() {
    let bytes = v2_image();
    let hdr = Header::parse(&bytes).unwrap();
    let copy = hdr.clone();
    assert_eq!(hdr, copy);
    let mut other = bytes.clone();
    other[48] = b'B';
    assert_ne!(Header::parse(&other).unwrap(), hdr);
}
