//! The packed OS version and security patch level of a boot image.
//!
//! A boot image header stores both in one little-endian 32-bit word:
//!
//! ```text
//! bit 31      25 24      18 17      11 10           4 3     0
//!    +----------+----------+----------+--------------+-------+
//!    |  major   |  minor   |  patch   | year - 2000  | month |
//!    +----------+----------+----------+--------------+-------+
//!    |<-------- version, 21 bits ---->|<-- patch level, 11 -->|
//! ```

use vstd::prelude::*;
use vstd::string::*;
use crate::text::{
    append_decimal, append_decimal2, ascii, bytes_of, decimal, decimal2, push_decimal,
    push_decimal2, push_str,
};

verus! {

/// OS version and patch level as one 32-bit word: the upper 21 bits hold the
/// version, the lower 11 bits the patch level. Zero means "unspecified".
#[derive(Clone, Copy, Debug, PartialEq, Eq, PartialOrd, Ord, Hash, Structural)]
pub struct OsVersionPatch(pub u32);

/// Security patch level: a year from 2000 on and a month.
///
/// The word holds the month in its lowest four bits and the years since 2000
/// above them.
#[derive(Clone, Copy, Debug, PartialEq, Eq, PartialOrd, Ord, Hash, Structural)]
pub struct OsPatch(u16);

/// OS version: three components of seven bits each.
#[derive(Clone, Copy, Debug, PartialEq, Eq, PartialOrd, Ord, Hash, Structural)]
pub struct OsVersion(u32);

/// The version word made of three components: `a * 2^14 + b * 2^7 + c`.
pub open spec fn version_word(a: u8, b: u8, c: u8) -> u32 {
    (a * 0x4000 + b * 0x80 + c) as u32
}

/// The patch level word of a year and a month: `(year - 2000) * 16 + month`.
pub open spec fn patch_word(year: u16, month: u8) -> u16 {
    ((year - 2000) * 16 + month) as u16
}

/// The packed word of a version word and a patch level word: the version
/// shifted up by eleven bits, or-ed with the patch level.
pub open spec fn packed_word(version: u32, patch: u16) -> u32 {
    (version << 11) | (patch as u32)
}

impl OsVersion {
    /// The 21-bit word that holds the three components.
    pub closed spec fn word(self) -> u32 {
        self.0
    }

    /// A version word has no bit set above the 21 that the packed format
    /// gives it.
    pub open spec fn valid(self) -> bool {
        self.word() < 0x20_0000
    }

    #[verifier::type_invariant]
    spec fn type_inv(self) -> bool {
        self.valid()
    }

    /// First component.
    pub open spec fn major(self) -> u8 {
        (self.word() / 0x4000) as u8
    }

    /// Second component.
    pub open spec fn minor(self) -> u8 {
        (self.word() / 0x80 % 0x80) as u8
    }

    /// Third component.
    pub open spec fn patch(self) -> u8 {
        (self.word() % 0x80) as u8
    }

    /// The text `major.minor.patch`, as ASCII bytes.
    pub open spec fn text(self) -> Seq<u8> {
        decimal(self.major() as nat) + seq![46u8] + decimal(self.minor() as nat) + seq![46u8]
            + decimal(self.patch() as nat)
    }

    /// The version with the components `a`, `b` and `c`.
    pub closed spec fn spec_new(a: u8, b: u8, c: u8) -> Self {
        OsVersion(version_word(a, b, c))
    }

    /// Creates a new `OsVersion` from components of at most seven bits each.
    #[verifier::when_used_as_spec(spec_new)]
    pub fn new(a: u8, b: u8, c: u8) -> (r: Self)
        requires
            a <= 127,
            b <= 127,
            c <= 127,
        ensures
            r == Self::spec_new(a, b, c),
            r.valid(),
            r.word() == version_word(a, b, c),
            r.major() == a,
            r.minor() == b,
            r.patch() == c,
    {
        let w: u32 = ((a as u32) << 14) | ((b as u32) << 7) | c as u32;
        assert(w == a * 0x4000 + b * 0x80 + c && w < 0x20_0000) by (bit_vector)
            requires
                a <= 127,
                b <= 127,
                c <= 127,
                w == ((a as u32) << 14) | ((b as u32) << 7) | c as u32,
        ;
        OsVersion(w)
    }

    /// The three components.
    pub open spec fn spec_version_parts(self) -> (u8, u8, u8) {
        (self.major(), self.minor(), self.patch())
    }

    /// Returns the three components.
    #[verifier::when_used_as_spec(spec_version_parts)]
    pub fn version_parts(self) -> (r: (u8, u8, u8))
        ensures
            r == self.spec_version_parts(),
            r.0 <= 127,
            r.1 <= 127,
            r.2 <= 127,
    {
        proof {
            use_type_invariant(&self);
        }
        let x: u32 = self.0;
        let a: u32 = x >> 14;
        let b: u32 = (x >> 7) & 0x7f;
        let c: u32 = x & 0x7f;
        assert(a == x / 0x4000 && b == x / 0x80 % 0x80 && c == x % 0x80 && a <= 127 && b <= 127
            && c <= 127) by (bit_vector)
            requires
                x < 0x20_0000,
                a == x >> 14,
                b == (x >> 7) & 0x7f,
                c == x & 0x7f,
        ;
        (a as u8, b as u8, c as u8)
    }

    /// Appends `major.minor.patch` to a byte buffer.
    pub fn write_text(self, out: &mut Vec<u8>)
        ensures
            final(out)@ == old(out)@ + self.text(),
    {
        let (a, b, c) = self.version_parts();
        push_decimal(out, a as u64);
        out.push(46u8);
        push_decimal(out, b as u64);
        out.push(46u8);
        push_decimal(out, c as u64);
        assert(out@ =~= old(out)@ + self.text());
    }

    /// Renders the version as `major.minor.patch`.
    pub fn to_string(self) -> (s: String)
        ensures
            s@ == ascii(self.text()),
    {
        let (a, b, c) = self.version_parts();
        let mut s = String::new();
        proof {
            reveal_strlit(".");
        }
        append_decimal(&mut s, a as u64);
        s.append(".");
        append_decimal(&mut s, b as u64);
        s.append(".");
        append_decimal(&mut s, c as u64);
        assert(s@ =~= ascii(self.text()));
        s
    }
}

impl OsPatch {
    /// The word that holds year and month.
    pub closed spec fn word(self) -> u16 {
        self.0
    }

    /// The year: the word without its lowest four bits, counted from 2000.
    pub open spec fn spec_year(self) -> u16 {
        (self.word() / 16 + 2000) as u16
    }

    /// The month: the lowest four bits of the word.
    pub open spec fn spec_month(self) -> u8 {
        (self.word() % 16) as u8
    }

    /// The text `YYYY-MM`, as ASCII bytes.
    pub open spec fn text(self) -> Seq<u8> {
        decimal(self.spec_year() as nat) + seq![45u8] + decimal2(self.spec_month() as nat)
    }

    /// The patch level of `month` in `year`.
    pub closed spec fn spec_new(year: u16, month: u8) -> Self {
        OsPatch(patch_word(year, month))
    }

    /// Creates a new `OsPatch`.
    #[verifier::when_used_as_spec(spec_new)]
    pub fn new(year: u16, month: u8) -> (r: Self)
        requires
            2000 <= year <= 2000 + 4095,
            1 <= month <= 12,
        ensures
            r == Self::spec_new(year, month),
            r.word() == patch_word(year, month),
            r.spec_year() == year,
            r.spec_month() == month,
    {
        let y: u16 = year - 2000;
        let hi: u16 = y << 4;
        assert(hi == y * 16) by (bit_vector)
            requires
                y <= 4095,
                hi == y << 4,
        ;
        OsPatch(hi + month as u16)
    }

    /// Returns the year.
    #[verifier::when_used_as_spec(spec_year)]
    pub fn year(self) -> (r: u16)
        ensures
            r == self.spec_year(),
            2000 <= r <= 2000 + 4095,
    {
        let w: u16 = self.0;
        let y: u16 = w >> 4;
        assert(y == w / 16 && y <= 4095) by (bit_vector)
            requires
                y == w >> 4,
        ;
        y + 2000
    }

    /// Returns the month.
    #[verifier::when_used_as_spec(spec_month)]
    pub fn month(self) -> (r: u8)
        ensures
            r == self.spec_month(),
            r <= 15,
    {
        let w: u16 = self.0;
        let m: u16 = w & 0xf;
        assert(m == w % 16 && m <= 15) by (bit_vector)
            requires
                m == w & 0xf,
        ;
        m as u8
    }

    /// Appends `YYYY-MM` to a byte buffer.
    pub fn write_text(self, out: &mut Vec<u8>)
        ensures
            final(out)@ == old(out)@ + self.text(),
    {
        push_decimal(out, self.year() as u64);
        out.push(45u8);
        push_decimal2(out, self.month() as u64);
        assert(out@ =~= old(out)@ + self.text());
    }

    /// Renders the patch level as `YYYY-MM`, the month with two digits.
    pub fn to_string(self) -> (s: String)
        ensures
            s@ == ascii(self.text()),
    {
        let mut s = String::new();
        proof {
            reveal_strlit("-");
        }
        append_decimal(&mut s, self.year() as u64);
        s.append("-");
        append_decimal2(&mut s, self.month() as u64);
        assert(s@ =~= ascii(self.text()));
        s
    }
}

impl OsVersionPatch {
    /// The version part: the upper 21 bits.
    pub closed spec fn spec_version(self) -> OsVersion {
        OsVersion(self.0 >> 11)
    }

    /// The patch level part: the lower 11 bits.
    pub closed spec fn spec_patch(self) -> OsPatch {
        OsPatch((self.0 & 0x7ff) as u16)
    }

    /// `OsVersionPatch(` version `, ` patch level `)`, as ASCII bytes.
    pub open spec fn text(self) -> Seq<u8> {
        bytes_of("OsVersionPatch("@) + self.spec_version().text() + bytes_of(", "@)
            + self.spec_patch().text() + bytes_of(")"@)
    }

    /// The word that packs `version` and `patch`.
    pub open spec fn spec_new(version: OsVersion, patch: OsPatch) -> Self {
        OsVersionPatch(packed_word(version.word(), patch.word()))
    }

    /// Creates a new `OsVersionPatch`: the version word shifted up by eleven
    /// bits, or-ed with the patch level word.
    #[verifier::when_used_as_spec(spec_new)]
    pub fn new(version: OsVersion, patch: OsPatch) -> (r: Self)
        ensures
            r == Self::spec_new(version, patch),
    {
        OsVersionPatch((version.0 << 11) | patch.0 as u32)
    }

    /// Appends `OsVersionPatch(` version `, ` patch level `)` to a byte
    /// buffer.
    pub fn write_text(self, out: &mut Vec<u8>)
        ensures
            final(out)@ == old(out)@ + self.text(),
    {
        proof {
            reveal_strlit("OsVersionPatch(");
            reveal_strlit(", ");
            reveal_strlit(")");
        }
        push_str(out, "OsVersionPatch(");
        self.version().write_text(out);
        push_str(out, ", ");
        self.patch().write_text(out);
        push_str(out, ")");
        assert(out@ =~= old(out)@ + self.text());
    }

    /// Renders the word as `OsVersionPatch(` version `, ` patch level `)`.
    pub fn debug_string(self) -> (s: String)
        ensures
            s@ == ascii(self.text()),
    {
        let mut s = String::new();
        proof {
            reveal_strlit("OsVersionPatch(");
            reveal_strlit(", ");
            reveal_strlit(")");
        }
        s.append("OsVersionPatch(");
        let version = self.version().to_string();
        s.append(version.as_str());
        s.append(", ");
        let patch = self.patch().to_string();
        s.append(patch.as_str());
        s.append(")");
        assert(s@ =~= ascii(self.text()));
        s
    }

    /// Returns the version part.
    #[verifier::when_used_as_spec(spec_version)]
    pub fn version(self) -> (r: OsVersion)
        ensures
            r == self.spec_version(),
            r.valid(),
            r.word() == self.0 / 0x800,
    {
        let w: u32 = self.0;
        let v: u32 = w >> 11;
        assert(v == w / 0x800 && v < 0x20_0000) by (bit_vector)
            requires
                v == w >> 11,
        ;
        OsVersion(v)
    }

    /// Returns the patch part.
    #[verifier::when_used_as_spec(spec_patch)]
    pub fn patch(self) -> (r: OsPatch)
        ensures
            r == self.spec_patch(),
            r.word() == self.0 % 0x800,
    {
        let w: u32 = self.0;
        let p: u32 = w & 0x7ff;
        assert(p == w % 0x800 && p < 0x800) by (bit_vector)
            requires
                p == w & 0x7ff,
        ;
        OsPatch(p as u16)
    }
}

/// A version made of three components gives them back.
pub proof fn lemma_version_parts(a: u8, b: u8, c: u8)
    requires
        a <= 127,
        b <= 127,
        c <= 127,
    ensures
        OsVersion::new(a, b, c).valid(),
        OsVersion::new(a, b, c).word() == version_word(a, b, c),
        OsVersion::new(a, b, c).version_parts() == (a, b, c),
{
}

/// A patch level made of a year and a month gives them back.
pub proof fn lemma_patch_year_month(year: u16, month: u8)
    requires
        2000 <= year <= 2000 + 4095,
        1 <= month <= 12,
    ensures
        OsPatch::new(year, month).word() == patch_word(year, month),
        OsPatch::new(year, month).year() == year,
        OsPatch::new(year, month).month() == month,
{
}

/// Packing takes the version and the patch level apart again, where the
/// patch level fits into its eleven bits, that is up to the year 2127.
pub proof fn lemma_pack_unpack(version: OsVersion, patch: OsPatch)
    requires
        version.valid(),
        patch.year() <= 2127,
    ensures
        OsVersionPatch::new(version, patch).version() == version,
        OsVersionPatch::new(version, patch).patch() == patch,
{
    let v: u32 = version.word();
    let p: u16 = patch.word();
    let w: u32 = packed_word(v, p);
    assert(w >> 11 == v && (w & 0x7ff) as u16 == p) by (bit_vector)
        requires
            v < 0x20_0000,
            p < 0x800,
            w == (v << 11) | (p as u32),
    ;
}

/// Version and patch level survive packing: for components of at most seven
/// bits, a month from 1 to 12 and a year from 2000 to 2127, the packed word
/// holds the version and the patch level that it was made of.
pub proof fn lemma_version_patch_round_trip(a: u8, b: u8, c: u8, year: u16, month: u8)
    requires
        a <= 127,
        b <= 127,
        c <= 127,
        2000 <= year <= 2127,
        1 <= month <= 12,
    ensures
        ({
            let v = OsVersion::new(a, b, c);
            let p = OsPatch::new(year, month);
            &&& OsVersionPatch::new(v, p).version() == v
            &&& OsVersionPatch::new(v, p).patch() == p
            &&& OsVersionPatch::new(v, p).version().version_parts() == (a, b, c)
            &&& OsVersionPatch::new(v, p).patch().year() == year
            &&& OsVersionPatch::new(v, p).patch().month() == month
        }),
{
    lemma_version_parts(a, b, c);
    lemma_patch_year_month(year, month);
    lemma_pack_unpack(OsVersion::new(a, b, c), OsPatch::new(year, month));
}

/// The version is the word without its lowest eleven bits, the patch level
/// is those eleven bits, and packing the two again gives the word back.
pub proof fn lemma_unpack_pack(word: OsVersionPatch)
    ensures
        word.version().valid(),
        word.version().word() == word.0 / 0x800,
        word.patch().word() == word.0 % 0x800,
        word.patch().year() <= 2127,
        OsVersionPatch::new(word.version(), word.patch()) == word,
{
    let w: u32 = word.0;
    let v: u32 = w >> 11;
    let p: u16 = (w & 0x7ff) as u16;
    assert(v < 0x20_0000 && (v << 11) | (p as u32) == w && v == w / 0x800 && p == w % 0x800)
        by (bit_vector)
        requires
            v == w >> 11,
            p == (w & 0x7ff) as u16,
    ;
}

} // verus!
