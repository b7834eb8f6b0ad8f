//! Little-endian integers and fixed-width byte fields, as they stand in a
//! header.

use vstd::prelude::*;

verus! {

/// The value of four bytes read as a little-endian integer.
pub open spec fn le_u32(b: Seq<u8>) -> u32
    recommends
        b.len() == 4,
{
    (b[0] + b[1] * 0x100 + b[2] * 0x1_0000 + b[3] * 0x100_0000) as u32
}

/// The four bytes of `x`, least significant first.
pub open spec fn u32_le(x: u32) -> Seq<u8> {
    seq![
        (x % 0x100) as u8,
        (x / 0x100 % 0x100) as u8,
        (x / 0x1_0000 % 0x100) as u8,
        (x / 0x100_0000) as u8,
    ]
}

/// The value of eight bytes read as a little-endian integer.
pub open spec fn le_u64(b: Seq<u8>) -> u64
    recommends
        b.len() == 8,
{
    (le_u32(b.subrange(0, 4)) + le_u32(b.subrange(4, 8)) * 0x1_0000_0000) as u64
}

/// The eight bytes of `x`, least significant first.
pub open spec fn u64_le(x: u64) -> Seq<u8> {
    u32_le((x % 0x1_0000_0000) as u32) + u32_le((x / 0x1_0000_0000) as u32)
}

/// The little-endian 32-bit integer that stands at offset `at`.
pub open spec fn u32_at(bytes: Seq<u8>, at: int) -> u32
    recommends
        0 <= at,
        at + 4 <= bytes.len(),
{
    le_u32(bytes.subrange(at, at + 4))
}

/// The little-endian 64-bit integer that stands at offset `at`.
pub open spec fn u64_at(bytes: Seq<u8>, at: int) -> u64
    recommends
        0 <= at,
        at + 8 <= bytes.len(),
{
    le_u64(bytes.subrange(at, at + 8))
}

/// The `len` bytes that stand at offset `at`.
pub open spec fn field_at(bytes: Seq<u8>, at: int, len: int) -> Seq<u8>
    recommends
        0 <= at,
        0 <= len,
        at + len <= bytes.len(),
{
    bytes.subrange(at, at + len)
}

/// Encoding a 32-bit integer and decoding it again gives it back, and the
/// other way round for any four bytes.
pub proof fn lemma_u32_le_round_trip(x: u32, b: Seq<u8>)
    ensures
        u32_le(x).len() == 4,
        le_u32(u32_le(x)) == x,
        b.len() == 4 ==> u32_le(le_u32(b)) == b,
{
    lemma_u32_encode_decode(x);
    if b.len() == 4 {
        lemma_u32_decode_encode(b[0], b[1], b[2], b[3]);
        assert(u32_le(le_u32(b)) =~= b);
    }
}

proof fn lemma_u32_encode_decode(x: u32)
    ensures
        u32_le(x).len() == 4,
        le_u32(u32_le(x)) == x,
{
    let q1 = x / 0x100;
    let q2 = x / 0x1_0000;
    let q3 = x / 0x100_0000;
    assert(q2 == q1 / 0x100);
    assert(q3 == q2 / 0x100);
    assert(x == x % 0x100 + q1 * 0x100);
    assert(q1 == q1 % 0x100 + q2 * 0x100);
    assert(q2 == q2 % 0x100 + q3 * 0x100);
}

proof fn lemma_u32_decode_encode(b0: u8, b1: u8, b2: u8, b3: u8)
    ensures
        ({
            let x = (b0 + b1 * 0x100 + b2 * 0x1_0000 + b3 * 0x100_0000) as u32;
            &&& x == b0 + b1 * 0x100 + b2 * 0x1_0000 + b3 * 0x100_0000
            &&& x % 0x100 == b0
            &&& x / 0x100 % 0x100 == b1
            &&& x / 0x1_0000 % 0x100 == b2
            &&& x / 0x100_0000 == b3
        }),
{
    let x = b0 + b1 * 0x100 + b2 * 0x1_0000 + b3 * 0x100_0000;
    let r1 = b1 + b2 * 0x100 + b3 * 0x1_0000;
    let r2 = b2 + b3 * 0x100;
    assert(x == b0 + r1 * 0x100);
    assert(x / 0x100 == r1);
    assert(r1 == b1 + r2 * 0x100);
    assert(r1 / 0x100 == r2);
    assert(x / 0x1_0000 == r2);
    assert(r2 / 0x100 == b3);
    assert(x / 0x100_0000 == b3);
}

/// Encoding a 64-bit integer and decoding it again gives it back, and the
/// other way round for any eight bytes.
pub proof fn lemma_u64_le_round_trip(x: u64, b: Seq<u8>)
    ensures
        u64_le(x).len() == 8,
        le_u64(u64_le(x)) == x,
        b.len() == 8 ==> u64_le(le_u64(b)) == b,
{
    lemma_u64_encode_decode(x);
    if b.len() == 8 {
        lemma_u64_decode_encode(b);
    }
}

proof fn lemma_u64_encode_decode(x: u64)
    ensures
        u64_le(x).len() == 8,
        le_u64(u64_le(x)) == x,
{
    let lo = (x % 0x1_0000_0000) as u32;
    let hi = (x / 0x1_0000_0000) as u32;
    let empty = Seq::<u8>::empty();
    lemma_u32_le_round_trip(lo, empty);
    lemma_u32_le_round_trip(hi, empty);
    assert(u64_le(x).subrange(0, 4) =~= u32_le(lo));
    assert(u64_le(x).subrange(4, 8) =~= u32_le(hi));
    assert(lo + hi * 0x1_0000_0000 == x);
}

proof fn lemma_u64_decode_encode(b: Seq<u8>)
    requires
        b.len() == 8,
    ensures
        u64_le(le_u64(b)) == b,
{
    let l = le_u32(b.subrange(0, 4));
    let h = le_u32(b.subrange(4, 8));
    let x = le_u64(b);
    assert(x == l + h * 0x1_0000_0000);
    assert((x % 0x1_0000_0000) as u32 == l);
    assert((x / 0x1_0000_0000) as u32 == h);
    lemma_u32_le_round_trip(0, b.subrange(0, 4));
    lemma_u32_le_round_trip(0, b.subrange(4, 8));
    assert(b.subrange(0, 4) + b.subrange(4, 8) =~= b);
}

/// What stands in `a` stands in `a + b` at the same place.
pub proof fn lemma_append_keeps(a: Seq<u8>, b: Seq<u8>, from: int, to: int)
    requires
        0 <= from <= to <= a.len(),
    ensures
        (a + b).subrange(from, to) == a.subrange(from, to),
{
    assert((a + b).subrange(from, to) =~= a.subrange(from, to));
}

/// `b` stands in `a + b` right behind `a`.
pub proof fn lemma_append_places(a: Seq<u8>, b: Seq<u8>)
    ensures
        (a + b).len() == a.len() + b.len(),
        (a + b).subrange(a.len() as int, (a.len() + b.len()) as int) == b,
{
    assert((a + b).subrange(a.len() as int, (a.len() + b.len()) as int) =~= b);
}

/// Two fields that stand one after the other make one field.
pub proof fn lemma_join(bytes: Seq<u8>, from: int, mid: int, to: int)
    requires
        0 <= from <= mid <= to <= bytes.len(),
    ensures
        bytes.subrange(from, mid) + bytes.subrange(mid, to) == bytes.subrange(from, to),
{
    assert(bytes.subrange(from, mid) + bytes.subrange(mid, to) =~= bytes.subrange(from, to));
}

/// The encoding of the 32-bit integer at offset `at` is the four bytes that
/// stand there.
pub proof fn lemma_u32_field(bytes: Seq<u8>, at: int)
    requires
        0 <= at,
        at + 4 <= bytes.len(),
    ensures
        u32_le(u32_at(bytes, at)) == bytes.subrange(at, at + 4),
{
    lemma_u32_le_round_trip(0, bytes.subrange(at, at + 4));
}

/// The encoding of the 64-bit integer at offset `at` is the eight bytes that
/// stand there.
pub proof fn lemma_u64_field(bytes: Seq<u8>, at: int)
    requires
        0 <= at,
        at + 8 <= bytes.len(),
    ensures
        u64_le(u64_at(bytes, at)) == bytes.subrange(at, at + 8),
{
    lemma_u64_le_round_trip(0, bytes.subrange(at, at + 8));
}

/// Reads the little-endian 32-bit integer at offset `at`.
pub fn read_u32(bytes: &[u8], at: usize) -> (x: u32)
    requires
        at + 4 <= bytes@.len(),
    ensures
        x == u32_at(bytes@, at as int),
{
    let b0: u32 = bytes[at] as u32;
    let b1: u32 = bytes[at + 1] as u32;
    let b2: u32 = bytes[at + 2] as u32;
    let b3: u32 = bytes[at + 3] as u32;
    b0 + b1 * 0x100 + b2 * 0x1_0000 + b3 * 0x100_0000
}

/// Reads the little-endian 64-bit integer at offset `at`.
pub fn read_u64(bytes: &[u8], at: usize) -> (x: u64)
    requires
        at + 8 <= bytes@.len(),
    ensures
        x == u64_at(bytes@, at as int),
{
    let len: usize = bytes.len();
    assert(at + 8 <= len);
    let lo: u64 = read_u32(bytes, at) as u64;
    let hi: u64 = read_u32(bytes, at + 4) as u64;
    assert(bytes@.subrange(at as int, at + 8).subrange(0, 4) =~= bytes@.subrange(
        at as int,
        at + 4,
    ));
    assert(bytes@.subrange(at as int, at + 8).subrange(4, 8) =~= bytes@.subrange(
        at + 4,
        at + 8,
    ));
    lo + hi * 0x1_0000_0000
}

/// Reads the `N` bytes at offset `at`.
pub fn read_array<const N: usize>(bytes: &[u8], at: usize) -> (a: [u8; N])
    requires
        at + N <= bytes@.len(),
    ensures
        a@ == field_at(bytes@, at as int, N as int),
{
    let len: usize = bytes.len();
    let mut a: [u8; N] = [0u8; N];
    let mut i: usize = 0;
    while i < N
        invariant
            i <= N,
            at + N <= len,
            len == bytes@.len(),
            forall|j: int| 0 <= j < i ==> a@[j] == bytes@[at + j],
        decreases N - i,
    {
        a[i] = bytes[at + i];
        i = i + 1;
    }
    assert(a@ =~= field_at(bytes@, at as int, N as int));
    a
}

/// Appends the four bytes of `x`, least significant first.
pub fn push_u32(out: &mut Vec<u8>, x: u32)
    ensures
        final(out)@ == old(out)@ + u32_le(x),
{
    out.push((x % 0x100) as u8);
    out.push((x / 0x100 % 0x100) as u8);
    out.push((x / 0x1_0000 % 0x100) as u8);
    out.push((x / 0x100_0000) as u8);
    assert(out@ =~= old(out)@ + u32_le(x));
}

/// Appends the eight bytes of `x`, least significant first.
pub fn push_u64(out: &mut Vec<u8>, x: u64)
    ensures
        final(out)@ == old(out)@ + u64_le(x),
{
    push_u32(out, (x % 0x1_0000_0000) as u32);
    push_u32(out, (x / 0x1_0000_0000) as u32);
    assert(out@ =~= old(out)@ + u64_le(x));
}

/// Appends all of `bytes`.
pub fn push_bytes(out: &mut Vec<u8>, bytes: &[u8])
    ensures
        final(out)@ == old(out)@ + bytes@,
{
    let mut i: usize = 0;
    while i < bytes.len()
        invariant
            i <= bytes@.len(),
            out@ == old(out)@ + bytes@.subrange(0, i as int),
        decreases bytes@.len() - i,
    {
        out.push(bytes[i]);
        i = i + 1;
        assert(out@ =~= old(out)@ + bytes@.subrange(0, i as int));
    }
    assert(bytes@.subrange(0, i as int) =~= bytes@);
}

/// `n` zero bytes.
pub open spec fn zeros(n: nat) -> Seq<u8> {
    Seq::new(n, |i: int| 0u8)
}

/// Appends `n` zero bytes.
pub fn push_zeros(out: &mut Vec<u8>, n: usize)
    ensures
        final(out)@ == old(out)@ + zeros(n as nat),
{
    let mut i: usize = 0;
    assert(out@ =~= old(out)@ + zeros(0));
    while i < n
        invariant
            i <= n,
            out@ == old(out)@ + zeros(i as nat),
        decreases n - i,
    {
        out.push(0u8);
        i = i + 1;
        assert(out@ =~= old(out)@ + zeros(i as nat));
    }
}

} // verus!
