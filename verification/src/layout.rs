//! Page alignment: where a section starts when every section before it is
//! padded up to a whole number of pages.

use vstd::prelude::*;
use vstd::arithmetic::div_mod::{
    lemma_add_mod_noop, lemma_fundamental_div_mod, lemma_mod_breakdown, lemma_mod_multiples_basic,
    lemma_mod_self_0, lemma_small_mod,
};
use vstd::arithmetic::power2::is_pow2;

verus! {

/// The number of bytes between the end of a section of `size` bytes and the
/// next page boundary.
pub open spec fn pad(page_size: nat, size: nat) -> nat {
    ((page_size - size % page_size) % (page_size as int)) as nat
}

/// Where the section starts that follows one of `size` bytes at `position`.
pub open spec fn following(page_size: nat, position: nat, size: nat) -> nat {
    position + size + pad(page_size, size)
}

/// Padding is less than a page and fills the section up to a page boundary.
pub proof fn lemma_pad(page_size: nat, size: nat)
    requires
        page_size > 0,
    ensures
        pad(page_size, size) < page_size,
        (size + pad(page_size, size)) % page_size == 0,
        size % page_size == 0 ==> pad(page_size, size) == 0,
{
    let p = page_size as int;
    let r = size as int % p;
    lemma_fundamental_div_mod(size as int, p);
    if r == 0 {
        lemma_mod_self_0(p);
        lemma_mod_multiples_basic(size as int / p, p);
        assert(size as int == (size as int / p) * p) by (nonlinear_arith)
            requires
                size as int == p * (size as int / p) + 0,
        ;
    } else {
        lemma_small_mod((p - r) as nat, page_size);
        lemma_mod_multiples_basic(size as int / p + 1, p);
        assert(size + (p - r) == (size as int / p + 1) * p) by (nonlinear_arith)
            requires
                size as int == p * (size as int / p) + r,
        ;
    }
}

/// A section that follows one at a page boundary starts at a page boundary
/// too, at or after the end of the section before it and less than a page
/// away from it.
pub proof fn lemma_following(page_size: nat, position: nat, size: nat)
    requires
        page_size > 0,
        position % page_size == 0,
    ensures
        following(page_size, position, size) % page_size == 0,
        position + size <= following(page_size, position, size) < position + size + page_size,
{
    lemma_pad(page_size, size);
    lemma_add_mod_noop(
        position as int,
        (size + pad(page_size, size)) as int,
        page_size as int,
    );
    lemma_small_mod(0, page_size);
}

/// A section that is not empty takes at least one page.
pub proof fn lemma_padded_size_positive(page_size: nat, size: nat)
    requires
        page_size > 0,
        size > 0,
    ensures
        size + pad(page_size, size) >= page_size,
{
    lemma_pad(page_size, size);
    let total = (size + pad(page_size, size)) as int;
    if total < page_size {
        lemma_small_mod(total as nat, page_size);
    }
}

/// Masking with a power of two less one takes the remainder.
proof fn lemma_mask_is_mod(s: u64, p: u64)
    requires
        is_pow2(p as int),
    ensures
        p != 0,
        s & ((p - 1) as u64) == s % p,
    decreases p,
{
    reveal(is_pow2);
    if p == 1 {
        assert(s & ((1u64 - 1) as u64) == 0) by (bit_vector);
    } else {
        let h: u64 = p / 2;
        let t: u64 = s / 2;
        lemma_mask_is_mod(t, h);
        let low: u64 = s & ((p - 1) as u64);
        let inner: u64 = t & ((h - 1) as u64);
        assert(low == 2 * inner + s % 2) by (bit_vector)
            requires
                p % 2 == 0,
                h == p / 2,
                h != 0,
                t == s / 2,
                low == s & ((p - 1) as u64),
                inner == t & ((h - 1) as u64),
        ;
        lemma_mod_breakdown(s as int, 2, h as int);
    }
}

/// The padding after a section of `size` bytes, for a page size that is a
/// power of two.
pub fn padding(page_size: u32, size: u32) -> (r: u64)
    requires
        is_pow2(page_size as int),
    ensures
        r == pad(page_size as nat, size as nat),
        r < page_size,
{
    let p: u64 = page_size as u64;
    let s: u64 = size as u64;
    proof {
        lemma_mask_is_mod(s, p);
        lemma_pad(page_size as nat, size as nat);
    }
    let mask: u64 = p - 1;
    let low: u64 = s & mask;
    let d: u64 = p - low;
    proof {
        lemma_mask_is_mod(d, p);
    }
    d & mask
}

/// The start of the section that follows one of `size` bytes at `position`.
pub fn next_position(page_size: u32, position: u64, size: u32) -> (r: u64)
    requires
        is_pow2(page_size as int),
        position <= 0x10_0000_0000_0000,
    ensures
        r == following(page_size as nat, position as nat, size as nat),
{
    position + size as u64 + padding(page_size, size)
}

} // verus!
