//! The eight bytes that a header starts with.

use vstd::prelude::*;
use crate::error::{bad_magic, Error, ErrorView};
use crate::wire::{field_at, read_array};

verus! {

/// `ANDROID!`, the magic of boot and recovery images.
pub open spec fn boot_magic() -> Seq<u8> {
    seq![0x41u8, 0x4e, 0x44, 0x52, 0x4f, 0x49, 0x44, 0x21]
}

/// `VNDRBOOT`, the magic of vendor boot images.
pub open spec fn vendor_magic() -> Seq<u8> {
    seq![0x56u8, 0x4e, 0x44, 0x52, 0x42, 0x4f, 0x4f, 0x54]
}

/// `ANDROID!`
pub fn boot_magic_bytes() -> (m: [u8; 8])
    ensures
        m@ == boot_magic(),
{
    let m: [u8; 8] = [0x41, 0x4e, 0x44, 0x52, 0x4f, 0x49, 0x44, 0x21];
    assert(m@ =~= boot_magic());
    m
}

/// `VNDRBOOT`
pub fn vendor_magic_bytes() -> (m: [u8; 8])
    ensures
        m@ == vendor_magic(),
{
    let m: [u8; 8] = [0x56, 0x4e, 0x44, 0x52, 0x42, 0x4f, 0x4f, 0x54];
    assert(m@ =~= vendor_magic());
    m
}

/// What the first eight bytes make of a header that must start with
/// `expected`: nothing if they are `expected`, else the failure.
pub open spec fn magic_error(bytes: Seq<u8>, expected: Seq<u8>) -> Option<ErrorView> {
    if bytes.len() < 8 {
        Some(ErrorView::ShortRead)
    } else if field_at(bytes, 0, 8) != expected {
        Some(bad_magic(expected, field_at(bytes, 0, 8)))
    } else {
        None
    }
}

/// Checks that `bytes` starts with the magic `expected`.
pub fn check_magic(bytes: &[u8], expected: [u8; 8]) -> (r: Result<(), Error>)
    ensures
        match r {
            Ok(_) => magic_error(bytes@, expected@) is None,
            Err(e) => magic_error(bytes@, expected@) == Some(e@),
        },
{
    if bytes.len() < 8 {
        return Err(Error::ShortRead);
    }
    let found: [u8; 8] = read_array::<8>(bytes, 0);
    let mut i: usize = 0;
    let mut same = true;
    while i < 8
        invariant
            i <= 8,
            same <==> forall|j: int| 0 <= j < i ==> found@[j] == expected@[j],
        decreases 8 - i,
    {
        if found[i] != expected[i] {
            same = false;
        }
        i = i + 1;
    }
    if same {
        assert(found@ =~= expected@);
        Ok(())
    } else {
        Err(Error::BadMagic { pos: 0, expected, found })
    }
}

} // verus!
