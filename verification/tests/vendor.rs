use abootimg_oxide::{Error, HeaderVariant, VendorHeader, VendorHeaderV4};

fn set_u32(bytes: &mut [u8], at: usize, value: u32) {
    bytes[at..at + 4].copy_from_slice(&value.to_le_bytes());
}

fn vendor_image(version: u32) -> Vec<u8> {
    let mut bytes = vec![0u8; 4096];
    bytes[..8].copy_from_slice(b"VNDRBOOT");
    set_u32(&mut bytes, 8, version);
    set_u32(&mut bytes, 12, 4096);
    set_u32(&mut bytes, 16, 0x1000_8000);
    set_u32(&mut bytes, 20, 0x1100_0000);
    set_u32(&mut bytes, 24, 0x0034_5678);
    bytes[28..35].copy_from_slice(b"cmdline");
    bytes[2075] = b'!';
    set_u32(&mut bytes, 2076, 0x1000_0100);
    bytes[2080..2086].copy_from_slice(b"vendor");
    set_u32(&mut bytes, 2096, if version == 4 { 2128 } else { 2112 });
    set_u32(&mut bytes, 2100, 0x4000);
    bytes[2104..2112].copy_from_slice(&0x0000_0001_01f0_0000u64.to_le_bytes());
    if version == 4 {
        set_u32(&mut bytes, 2112, 108);
        set_u32(&mut bytes, 2116, 1);
        set_u32(&mut bytes, 2120, 108);
        set_u32(&mut bytes, 2124, 0x200);
    }
    bytes
}

#[test]
fn read_vendor_v3() {
    let bytes = vendor_image(3);
    let hdr = VendorHeader::read(&bytes).unwrap();
    assert_eq!(hdr.header_version(), 3);
    assert_eq!(hdr.header_size(), 2112);
    assert_eq!(hdr.layout(), HeaderVariant::VendorV3);
    assert_eq!(hdr.page_size, 4096);
    assert_eq!(hdr.kernel_addr, 0x1000_8000);
    assert_eq!(hdr.ramdisk_addr, 0x1100_0000);
    assert_eq!(hdr.vendor_ramdisk_size, 0x0034_5678);
    assert_eq!(&hdr.cmdline[..8], b"cmdline\0");
    assert_eq!(hdr.cmdline[2047], b'!');
    assert_eq!(hdr.tags_addr, 0x1000_0100);
    assert_eq!(&hdr.board_name[..7], b"vendor\0");
    assert_eq!(hdr.dtb_size, 0x4000);
    assert_eq!(hdr.dtb_addr, 0x0000_0001_01f0_0000);
    assert_eq!(hdr.v4, None);
    assert_eq!(hdr.to_bytes(), bytes[..2112].to_vec());
}

#[test]
fn read_vendor_v4() {
    let bytes = vendor_image(4);
    let hdr = VendorHeader::read(&bytes).unwrap();
    assert_eq!(hdr.header_version(), 4);
    assert_eq!(hdr.header_size(), 2128);
    assert_eq!(hdr.layout(), HeaderVariant::VendorV4);
    assert_eq!(
        hdr.v4,
        Some(VendorHeaderV4 {
            vendor_ramdisk_table_size: 108,
            vendor_ramdisk_table_entry_num: 1,
            vendor_ramdisk_table_entry_size: 108,
            bootconfig_size: 0x200,
        })
    );
    assert_eq!(hdr.to_bytes(), bytes[..2128].to_vec());
    let mut out = vec![0xee];
    hdr.write(&mut out);
    assert_eq!(out[0], 0xee);
    assert_eq!(&out[1..], &bytes[..2128]);
}

#[test]
fn vendor_write_recomputes_version_and_size() {
    let mut hdr = VendorHeader::read(&vendor_image(3)).unwrap();
    hdr.v4 = Some(VendorHeaderV4 {
        vendor_ramdisk_table_size: 1,
        vendor_ramdisk_table_entry_num: 2,
        vendor_ramdisk_table_entry_size: 3,
        bootconfig_size: 4,
    });
    let bytes = hdr.to_bytes();
    assert_eq!(bytes.len(), 2128);
    assert_eq!(&bytes[8..12], &4u32.to_le_bytes());
    assert_eq!(&bytes[2096..2100], &2128u32.to_le_bytes());
    assert_eq!(&bytes[2112..2128], &[1, 0, 0, 0, 2, 0, 0, 0, 3, 0, 0, 0, 4, 0, 0, 0]);
    assert_eq!(VendorHeader::read(&bytes), Ok(hdr.clone()));
    hdr.v4 = None;
    let bytes = hdr.to_bytes();
    assert_eq!(bytes.len(), 2112);
    assert_eq!(&bytes[8..12], &3u32.to_le_bytes());
    assert_eq!(&bytes[2096..2100], &2112u32.to_le_bytes());
    assert_eq!(VendorHeader::read(&bytes), Ok(hdr));
}

#[test]
fn vendor_errors() {
    let bytes = vendor_image(4);
    assert_eq!(VendorHeader::read(&bytes[..7]), Err(Error::ShortRead));
    assert_eq!(VendorHeader::read(&bytes[..2111]), Err(Error::ShortRead));
    assert_eq!(VendorHeader::read(&bytes[..2127]), Err(Error::ShortRead));
    assert!(VendorHeader::read(&bytes[..2128]).is_ok());

    let mut bad = bytes.clone();
    bad[..8].copy_from_slice(b"ANDROID!");
    assert_eq!(
        VendorHeader::read(&bad),
        Err(Error::BadMagic { pos: 0, expected: *b"VNDRBOOT", found: *b"ANDROID!" })
    );

    let mut bad = bytes.clone();
    set_u32(&mut bad, 8, 5);
    assert_eq!(VendorHeader::read(&bad), Err(Error::UnknownVersion { pos: 8, value: 5 }));

    let mut bad = bytes.clone();
    set_u32(&mut bad, 2096, 2112);
    assert_eq!(
        VendorHeader::read(&bad),
        Err(Error::HeaderSizeMismatch {
            variant: HeaderVariant::VendorV4,
            expected: 2128,
            found: 2112
        })
    );

    let mut bad = vendor_image(3);
    set_u32(&mut bad, 2096, 2128);
    assert_eq!(
        VendorHeader::read(&bad),
        Err(Error::HeaderSizeMismatch {
            variant: HeaderVariant::VendorV3,
            expected: 2112,
            found: 2128
        })
    );
}

#[test]
fn header_sizes_by_layout() {
    assert_eq!(HeaderVariant::BootV1.header_size(), 1648);
    assert_eq!(HeaderVariant::BootV2.header_size(), 1660);
    assert_eq!(HeaderVariant::BootV3.header_size(), 1580);
    assert_eq!(HeaderVariant::BootV4.header_size(), 1584);
    assert_eq!(HeaderVariant::VendorV3.header_size(), 2112);
    assert_eq!(HeaderVariant::VendorV4.header_size(), 2128);
}
