//! Text as bytes: numbers in decimal and hexadecimal, NUL-terminated byte
//! strings, and the lines and arguments that reports are made of.

use vstd::prelude::*;
use vstd::slice::slice_subrange;
use vstd::string::*;
use crate::wire::push_bytes;

verus! {

/// The ASCII digit for `d`, which is below ten.
pub open spec fn digit(d: nat) -> u8 {
    (48 + d) as u8
}

/// The decimal digits of `n`, most significant first, without leading zeros.
pub open spec fn decimal(n: nat) -> Seq<u8>
    decreases n,
{
    if n < 10 {
        seq![digit(n)]
    } else {
        decimal(n / 10).push(digit(n % 10))
    }
}

/// The decimal digits of `n`, padded with one leading zero to two digits.
pub open spec fn decimal2(n: nat) -> Seq<u8> {
    if n < 10 {
        seq![digit(0)] + decimal(n)
    } else {
        decimal(n)
    }
}

/// A sequence of ASCII bytes read as characters.
pub open spec fn ascii(bytes: Seq<u8>) -> Seq<char> {
    Seq::new(bytes.len(), |i: int| bytes[i] as char)
}

/// ASCII text as bytes.
pub open spec fn bytes_of(chars: Seq<char>) -> Seq<u8> {
    Seq::new(chars.len(), |i: int| chars[i] as u8)
}

/// Appends the decimal digits of `n` to a byte buffer.
pub fn push_decimal(out: &mut Vec<u8>, n: u64)
    ensures
        final(out)@ == old(out)@ + decimal(n as nat),
    decreases n,
{
    if n >= 10 {
        push_decimal(out, n / 10);
    }
    let d: u8 = (n % 10) as u8;
    out.push(48u8 + d);
    assert(out@ =~= old(out)@ + decimal(n as nat));
}

/// Appends the decimal digits of `n`, at least two of them, to a byte buffer.
pub fn push_decimal2(out: &mut Vec<u8>, n: u64)
    ensures
        final(out)@ == old(out)@ + decimal2(n as nat),
{
    if n < 10 {
        out.push(48u8);
    }
    push_decimal(out, n);
    assert(out@ =~= old(out)@ + decimal2(n as nat));
}

/// The one-character string of a decimal digit.
fn digit_str(d: u8) -> (s: &'static str)
    requires
        d < 10,
    ensures
        s@ == seq![digit(d as nat) as char],
{
    proof {
        reveal_strlit("0");
        reveal_strlit("1");
        reveal_strlit("2");
        reveal_strlit("3");
        reveal_strlit("4");
        reveal_strlit("5");
        reveal_strlit("6");
        reveal_strlit("7");
        reveal_strlit("8");
        reveal_strlit("9");
    }
    let s = match d {
        0 => "0",
        1 => "1",
        2 => "2",
        3 => "3",
        4 => "4",
        5 => "5",
        6 => "6",
        7 => "7",
        8 => "8",
        _ => "9",
    };
    assert(s@ =~= seq![digit(d as nat) as char]);
    s
}

/// Appends the decimal digits of `n` to a string.
pub fn append_decimal(out: &mut String, n: u64)
    ensures
        final(out)@ == old(out)@ + ascii(decimal(n as nat)),
    decreases n,
{
    if n >= 10 {
        append_decimal(out, n / 10);
    }
    let d: u8 = (n % 10) as u8;
    out.append(digit_str(d));
    assert(out@ =~= old(out)@ + ascii(decimal(n as nat)));
}

/// Appends the decimal digits of `n`, at least two of them, to a string.
pub fn append_decimal2(out: &mut String, n: u64)
    ensures
        final(out)@ == old(out)@ + ascii(decimal2(n as nat)),
{
    if n < 10 {
        out.append(digit_str(0));
    }
    append_decimal(out, n);
    assert(out@ =~= old(out)@ + ascii(decimal2(n as nat)));
}

/// Appends ASCII text to a byte buffer.
pub fn push_str(out: &mut Vec<u8>, s: &str)
    requires
        is_ascii(s),
    ensures
        final(out)@ == old(out)@ + bytes_of(s@),
{
    proof {
        is_ascii_spec_bytes(s);
    }
    let bytes = s.as_bytes();
    assert(bytes@ =~= bytes_of(s@));
    push_bytes(out, bytes);
}

/// The lower-case hexadecimal digit for `d`, which is below sixteen.
pub open spec fn hex_digit(d: nat) -> u8 {
    if d < 10 {
        (48 + d) as u8
    } else {
        (87 + d) as u8
    }
}

/// The last `width` hexadecimal digits of `n`, most significant first, with
/// leading zeros.
pub open spec fn hex(n: nat, width: nat) -> Seq<u8>
    decreases width,
{
    if width == 0 {
        Seq::empty()
    } else {
        hex(n / 16, (width - 1) as nat).push(hex_digit(n % 16))
    }
}

/// `0x` and the last `width` hexadecimal digits of `n`.
pub open spec fn hex_literal(n: nat, width: nat) -> Seq<u8> {
    seq![48u8, 120u8] + hex(n, width)
}

/// Appends the last `width` hexadecimal digits of `n` to a byte buffer.
pub fn push_hex(out: &mut Vec<u8>, n: u64, width: u8)
    ensures
        final(out)@ == old(out)@ + hex(n as nat, width as nat),
    decreases width,
{
    if width > 0 {
        push_hex(out, n / 16, width - 1);
        let d: u8 = (n % 16) as u8;
        if d < 10 {
            out.push(48u8 + d);
        } else {
            out.push(87u8 + d);
        }
    }
    assert(out@ =~= old(out)@ + hex(n as nat, width as nat));
}

/// Appends `0x` and the last `width` hexadecimal digits of `n` to a byte
/// buffer.
pub fn push_hex_literal(out: &mut Vec<u8>, n: u64, width: u8)
    ensures
        final(out)@ == old(out)@ + hex_literal(n as nat, width as nat),
{
    out.push(48u8);
    out.push(120u8);
    push_hex(out, n, width);
    assert(out@ =~= old(out)@ + hex_literal(n as nat, width as nat));
}

/// The number of bytes before the first zero byte, or the length where
/// there is none.
pub open spec fn nul_position(bytes: Seq<u8>) -> nat
    decreases bytes.len(),
{
    if bytes.len() == 0 || bytes[0] == 0 {
        0
    } else {
        1 + nul_position(bytes.drop_first())
    }
}

/// A byte string read as NUL-terminated: the bytes before the first zero
/// byte, or all of them where there is none.
pub open spec fn until_nul(bytes: Seq<u8>) -> Seq<u8> {
    bytes.subrange(0, nul_position(bytes) as int)
}

/// `nul_position` is the one index up to which no byte is zero and at which
/// the bytes end or hold a zero.
pub proof fn lemma_nul_position(bytes: Seq<u8>, at: int)
    requires
        0 <= at <= bytes.len(),
        forall|j: int| 0 <= j < at ==> bytes[j] != 0,
        at < bytes.len() ==> bytes[at] == 0,
    ensures
        nul_position(bytes) == at,
    decreases bytes.len(),
{
    if at > 0 {
        let rest = bytes.drop_first();
        assert forall|j: int| 0 <= j < at - 1 implies rest[j] != 0 by {
            assert(rest[j] == bytes[j + 1]);
        }
        lemma_nul_position(rest, at - 1);
    }
}

/// What `until_nul` gives is a prefix without a zero byte, and it ends at
/// the end of the bytes or before a zero byte.
pub proof fn lemma_until_nul(bytes: Seq<u8>)
    ensures
        nul_position(bytes) <= bytes.len(),
        !until_nul(bytes).contains(0u8),
        nul_position(bytes) < bytes.len() ==> bytes[nul_position(bytes) as int] == 0,
    decreases bytes.len(),
{
    if bytes.len() == 0 || bytes[0] == 0 {
    } else {
        let rest = bytes.drop_first();
        lemma_until_nul(rest);
        let p = nul_position(rest) as int;
        assert forall|j: int| 0 <= j < p + 1 implies bytes[j] != 0 by {
            if j > 0 {
                assert(until_nul(rest)[j - 1] == rest[j - 1]);
                assert(until_nul(rest).contains(rest[j - 1]));
            }
        }
        assert(p < rest.len() ==> bytes[p + 1] == rest[p]);
        assert forall|j: int| 0 <= j < until_nul(bytes).len() implies until_nul(bytes)[j]
            != 0 by {}
    }
}

/// Reads a byte string as NUL-terminated: returns what stands before the
/// first zero byte, or everything where there is none.
pub fn take_until_null(input: &[u8]) -> (r: &[u8])
    ensures
        r@ == until_nul(input@),
        !r@.contains(0u8),
{
    let mut i: usize = 0;
    while i < input.len() && input[i] != 0
        invariant
            i <= input@.len(),
            forall|j: int| 0 <= j < i ==> input@[j] != 0,
        decreases input@.len() - i,
    {
        i = i + 1;
    }
    proof {
        lemma_nul_position(input@, i as int);
        lemma_until_nul(input@);
    }
    slice_subrange(input, 0, i)
}

/// A line of a report: a label, a value and a line feed.
pub open spec fn line(label: Seq<char>, value: Seq<u8>) -> Seq<u8> {
    bytes_of(label) + value + seq![10u8]
}

/// Appends a line that holds bytes as they are.
pub fn push_line(out: &mut Vec<u8>, label: &str, value: &[u8])
    requires
        is_ascii(label),
    ensures
        final(out)@ == old(out)@ + line(label@, value@),
{
    push_str(out, label);
    push_bytes(out, value);
    out.push(10u8);
    assert(out@ =~= old(out)@ + line(label@, value@));
}

/// Appends a line that holds a number in decimal.
pub fn push_decimal_line(out: &mut Vec<u8>, label: &str, n: u64)
    requires
        is_ascii(label),
    ensures
        final(out)@ == old(out)@ + line(label@, decimal(n as nat)),
{
    push_str(out, label);
    push_decimal(out, n);
    out.push(10u8);
    assert(out@ =~= old(out)@ + line(label@, decimal(n as nat)));
}

/// Appends a line that holds a number as `0x` and `width` hexadecimal
/// digits.
pub fn push_hex_line(out: &mut Vec<u8>, label: &str, n: u64, width: u8)
    requires
        is_ascii(label),
    ensures
        final(out)@ == old(out)@ + line(label@, hex_literal(n as nat, width as nat)),
{
    push_str(out, label);
    push_hex_literal(out, n, width);
    out.push(10u8);
    assert(out@ =~= old(out)@ + line(label@, hex_literal(n as nat, width as nat)));
}

/// An argument of a command line after the first: a separator, the option,
/// a separator and the option's value.
pub open spec fn arg(sep: u8, option: Seq<char>, value: Seq<u8>) -> Seq<u8> {
    seq![sep] + bytes_of(option) + seq![sep] + value
}

/// Appends an option and its value, each after a separator.
pub fn push_arg(out: &mut Vec<u8>, sep: u8, option: &str, value: &[u8])
    requires
        is_ascii(option),
    ensures
        final(out)@ == old(out)@ + arg(sep, option@, value@),
{
    out.push(sep);
    push_str(out, option);
    out.push(sep);
    push_bytes(out, value);
    assert(out@ =~= old(out)@ + arg(sep, option@, value@));
}

/// Appends an option and, as its value, `0x` and `width` hexadecimal digits
/// of `n`.
pub fn push_hex_arg(out: &mut Vec<u8>, sep: u8, option: &str, n: u64, width: u8)
    requires
        is_ascii(option),
    ensures
        final(out)@ == old(out)@ + arg(sep, option@, hex_literal(n as nat, width as nat)),
{
    out.push(sep);
    push_str(out, option);
    out.push(sep);
    push_hex_literal(out, n, width);
    assert(out@ =~= old(out)@ + arg(sep, option@, hex_literal(n as nat, width as nat)));
}

} // verus!
