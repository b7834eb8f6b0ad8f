use abootimg_oxide::quote::quote_null_bytestring;
use abootimg_oxide::text::{
    append_decimal, append_decimal2, push_arg, push_decimal, push_decimal2, push_decimal_line,
    push_hex, push_hex_arg, push_hex_line, push_hex_literal, push_line, push_str, take_until_null,
};
use abootimg_oxide::wire::{
    push_bytes, push_u32, push_u64, push_zeros, read_array, read_u32, read_u64,
};

#[test]
fn take_until_null_stops_at_the_first_zero() {
    assert_eq!(take_until_null(b"abc\0def\0"), b"abc");
    assert_eq!(take_until_null(b"abc"), b"abc");
    assert_eq!(take_until_null(b"\0abc"), b"");
    assert_eq!(take_until_null(b""), b"");
    assert_eq!(take_until_null(b"a\0"), b"a");
    assert_eq!(take_until_null(&[0xff, 0x80, 0, 1]), &[0xff, 0x80]);
}

#[test]
fn quoting_for_the_shell() {
    assert_eq!(quote_null_bytestring(b"a b\0junk"), b"'a b'".to_vec());
    assert_eq!(quote_null_bytestring(b"plain"), b"plain".to_vec());
    assert_eq!(quote_null_bytestring(b""), b"''".to_vec());
    assert_eq!(quote_null_bytestring(b"\0rest"), b"''".to_vec());
    assert_eq!(quote_null_bytestring(b"it's"), b"\"it's\"".to_vec());
    assert_eq!(quote_null_bytestring(b"console=ttyS0,115200"), b"'console=ttyS0,115200'".to_vec());
    assert_eq!(quote_null_bytestring(b"a\x80b c"), b"'a\x80b c'".to_vec());
}

#[test]
fn decimal_digits() {
    let mut out = Vec::new();
    for n in [0u64, 7, 10, 99, 100, 1648, 4294967295, u64::MAX] {
        push_decimal(&mut out, n);
        out.push(b' ');
    }
    assert_eq!(out, b"0 7 10 99 100 1648 4294967295 18446744073709551615 ".to_vec());
    let mut out = Vec::new();
    for n in [0u64, 6, 9, 10, 12, 123] {
        push_decimal2(&mut out, n);
        out.push(b' ');
    }
    assert_eq!(out, b"00 06 09 10 12 123 ".to_vec());
    let mut s = String::from(">");
    append_decimal(&mut s, 2024);
    s.push('-');
    append_decimal2(&mut s, 6);
    s.push('-');
    append_decimal2(&mut s, 31);
    assert_eq!(s, ">2024-06-31");
}

#[test]
fn hexadecimal_digits() {
    let mut out = Vec::new();
    push_hex(&mut out, 0x1f, 8);
    out.push(b' ');
    push_hex(&mut out, 0xdead_beef, 8);
    out.push(b' ');
    push_hex(&mut out, 0x1_2345_6789, 8);
    out.push(b' ');
    push_hex(&mut out, 0xabc, 0);
    out.push(b' ');
    push_hex(&mut out, u64::MAX, 16);
    out.push(b' ');
    push_hex_literal(&mut out, 0x0123_4567_89ab_cdef, 16);
    assert_eq!(out, b"0000001f deadbeef 23456789  ffffffffffffffff 0x0123456789abcdef".to_vec());
}

#[test]
fn lines_and_arguments() {
    let mut out = Vec::new();
    push_str(&mut out, "text");
    push_line(&mut out, "name: ", b"v\xffw");
    push_decimal_line(&mut out, "size: ", 42);
    push_hex_line(&mut out, "addr: ", 0x8000, 8);
    push_arg(&mut out, b' ', "--key", b"value");
    push_hex_arg(&mut out, 0, "--base", 0, 8);
    assert_eq!(
        out,
        b"textname: v\xffw\nsize: 42\naddr: 0x00008000\n --key value\0--base\x000x00000000".to_vec()
    );
}

#[test]
fn little_endian_fields() {
    let bytes = [0xffu8, 0x01, 0x02, 0x03, 0x04, 0x05, 0x06, 0x07, 0x08, 0xaa];
    assert_eq!(read_u32(&bytes, 0), 0x0302_01ff);
    assert_eq!(read_u32(&bytes, 1), 0x0403_0201);
    assert_eq!(read_u32(&bytes, 6), 0xaa08_0706);
    assert_eq!(read_u64(&bytes, 1), 0x0807_0605_0403_0201);
    assert_eq!(read_u64(&bytes, 2), 0xaa08_0706_0504_0302);
    assert_eq!(read_array::<3>(&bytes, 7), [0x07, 0x08, 0xaa]);
    assert_eq!(read_array::<0>(&bytes, 10), [0u8; 0]);
    let mut out = vec![9];
    push_u32(&mut out, 0x0403_0201);
    push_u64(&mut out, 0x0807_0605_0403_02ff);
    push_u32(&mut out, u32::MAX);
    push_u64(&mut out, u64::MAX);
    push_zeros(&mut out, 3);
    push_bytes(&mut out, b"xy");
    let mut expected = vec![9, 1, 2, 3, 4, 0xff, 2, 3, 4, 5, 6, 7, 8];
    expected.extend_from_slice(&[0xff; 12]);
    expected.extend_from_slice(&[0, 0, 0, b'x', b'y']);
    assert_eq!(out, expected);
    for value in [0u32, 1, 1648, 0x8000_0000, u32::MAX] {
        let mut out = Vec::new();
        push_u32(&mut out, value);
        assert_eq!(out, value.to_le_bytes().to_vec());
        assert_eq!(read_u32(&out, 0), value);
    }
    for value in [0u64, 1, 0x1_0000_0000, 0x8000_0000_0000_0000, u64::MAX] {
        let mut out = Vec::new();
        push_u64(&mut out, value);
        assert_eq!(out, value.to_le_bytes().to_vec());
        assert_eq!(read_u64(&out, 0), value);
    }
}
