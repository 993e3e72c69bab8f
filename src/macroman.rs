//! The Mac OS Roman code page, and a bounded string that keeps its bytes in
//! that encoding.
use vstd::prelude::*;

use vstd::slice::slice_to_vec;

use crate::wire::pstr;

verus! {

/// The character that a MacRoman byte stands for. The lower half is ASCII
/// (and the control bytes map to the scalar of the same value); the upper
/// half is the Mac OS Roman repertoire.
pub open spec fn macroman_char(b: u8) -> char {
    match b {
        128u8 => '\u{c4}',
        129u8 => '\u{c5}',
        130u8 => '\u{c7}',
        131u8 => '\u{c9}',
        132u8 => '\u{d1}',
        133u8 => '\u{d6}',
        134u8 => '\u{dc}',
        135u8 => '\u{e1}',
        136u8 => '\u{e0}',
        137u8 => '\u{e2}',
        138u8 => '\u{e4}',
        139u8 => '\u{e3}',
        140u8 => '\u{e5}',
        141u8 => '\u{e7}',
        142u8 => '\u{e9}',
        143u8 => '\u{e8}',
        144u8 => '\u{ea}',
        145u8 => '\u{eb}',
        146u8 => '\u{ed}',
        147u8 => '\u{ec}',
        148u8 => '\u{ee}',
        149u8 => '\u{ef}',
        150u8 => '\u{f1}',
        151u8 => '\u{f3}',
        152u8 => '\u{f2}',
        153u8 => '\u{f4}',
        154u8 => '\u{f6}',
        155u8 => '\u{f5}',
        156u8 => '\u{fa}',
        157u8 => '\u{f9}',
        158u8 => '\u{fb}',
        159u8 => '\u{fc}',
        160u8 => '\u{2020}',
        161u8 => '\u{b0}',
        162u8 => '\u{a2}',
        163u8 => '\u{a3}',
        164u8 => '\u{a7}',
        165u8 => '\u{2022}',
        166u8 => '\u{b6}',
        167u8 => '\u{df}',
        168u8 => '\u{ae}',
        169u8 => '\u{a9}',
        170u8 => '\u{2122}',
        171u8 => '\u{b4}',
        172u8 => '\u{a8}',
        173u8 => '\u{2260}',
        174u8 => '\u{c6}',
        175u8 => '\u{d8}',
        176u8 => '\u{221e}',
        177u8 => '\u{b1}',
        178u8 => '\u{2264}',
        179u8 => '\u{2265}',
        180u8 => '\u{a5}',
        181u8 => '\u{b5}',
        182u8 => '\u{2202}',
        183u8 => '\u{2211}',
        184u8 => '\u{220f}',
        185u8 => '\u{3c0}',
        186u8 => '\u{222b}',
        187u8 => '\u{aa}',
        188u8 => '\u{ba}',
        189u8 => '\u{3a9}',
        190u8 => '\u{e6}',
        191u8 => '\u{f8}',
        192u8 => '\u{bf}',
        193u8 => '\u{a1}',
        194u8 => '\u{ac}',
        195u8 => '\u{221a}',
        196u8 => '\u{192}',
        197u8 => '\u{2248}',
        198u8 => '\u{2206}',
        199u8 => '\u{ab}',
        200u8 => '\u{bb}',
        201u8 => '\u{2026}',
        202u8 => '\u{a0}',
        203u8 => '\u{c0}',
        204u8 => '\u{c3}',
        205u8 => '\u{d5}',
        206u8 => '\u{152}',
        207u8 => '\u{153}',
        208u8 => '\u{2013}',
        209u8 => '\u{2014}',
        210u8 => '\u{201c}',
        211u8 => '\u{201d}',
        212u8 => '\u{2018}',
        213u8 => '\u{2019}',
        214u8 => '\u{f7}',
        215u8 => '\u{25ca}',
        216u8 => '\u{ff}',
        217u8 => '\u{178}',
        218u8 => '\u{2044}',
        219u8 => '\u{20ac}',
        220u8 => '\u{2039}',
        221u8 => '\u{203a}',
        222u8 => '\u{fb01}',
        223u8 => '\u{fb02}',
        224u8 => '\u{2021}',
        225u8 => '\u{b7}',
        226u8 => '\u{201a}',
        227u8 => '\u{201e}',
        228u8 => '\u{2030}',
        229u8 => '\u{c2}',
        230u8 => '\u{ca}',
        231u8 => '\u{c1}',
        232u8 => '\u{cb}',
        233u8 => '\u{c8}',
        234u8 => '\u{cd}',
        235u8 => '\u{ce}',
        236u8 => '\u{cf}',
        237u8 => '\u{cc}',
        238u8 => '\u{d3}',
        239u8 => '\u{d4}',
        240u8 => '\u{f8ff}',
        241u8 => '\u{d2}',
        242u8 => '\u{da}',
        243u8 => '\u{db}',
        244u8 => '\u{d9}',
        245u8 => '\u{131}',
        246u8 => '\u{2c6}',
        247u8 => '\u{2dc}',
        248u8 => '\u{af}',
        249u8 => '\u{2d8}',
        250u8 => '\u{2d9}',
        251u8 => '\u{2da}',
        252u8 => '\u{b8}',
        253u8 => '\u{2dd}',
        254u8 => '\u{2db}',
        255u8 => '\u{2c7}',
        _ => b as char,
    }
}

/// The upper-half byte that stands for `c`, or -1 where none does.
spec fn upper_code(c: char) -> int {
    match c {
        '\u{c4}' => 128,
        '\u{c5}' => 129,
        '\u{c7}' => 130,
        '\u{c9}' => 131,
        '\u{d1}' => 132,
        '\u{d6}' => 133,
        '\u{dc}' => 134,
        '\u{e1}' => 135,
        '\u{e0}' => 136,
        '\u{e2}' => 137,
        '\u{e4}' => 138,
        '\u{e3}' => 139,
        '\u{e5}' => 140,
        '\u{e7}' => 141,
        '\u{e9}' => 142,
        '\u{e8}' => 143,
        '\u{ea}' => 144,
        '\u{eb}' => 145,
        '\u{ed}' => 146,
        '\u{ec}' => 147,
        '\u{ee}' => 148,
        '\u{ef}' => 149,
        '\u{f1}' => 150,
        '\u{f3}' => 151,
        '\u{f2}' => 152,
        '\u{f4}' => 153,
        '\u{f6}' => 154,
        '\u{f5}' => 155,
        '\u{fa}' => 156,
        '\u{f9}' => 157,
        '\u{fb}' => 158,
        '\u{fc}' => 159,
        '\u{2020}' => 160,
        '\u{b0}' => 161,
        '\u{a2}' => 162,
        '\u{a3}' => 163,
        '\u{a7}' => 164,
        '\u{2022}' => 165,
        '\u{b6}' => 166,
        '\u{df}' => 167,
        '\u{ae}' => 168,
        '\u{a9}' => 169,
        '\u{2122}' => 170,
        '\u{b4}' => 171,
        '\u{a8}' => 172,
        '\u{2260}' => 173,
        '\u{c6}' => 174,
        '\u{d8}' => 175,
        '\u{221e}' => 176,
        '\u{b1}' => 177,
        '\u{2264}' => 178,
        '\u{2265}' => 179,
        '\u{a5}' => 180,
        '\u{b5}' => 181,
        '\u{2202}' => 182,
        '\u{2211}' => 183,
        '\u{220f}' => 184,
        '\u{3c0}' => 185,
        '\u{222b}' => 186,
        '\u{aa}' => 187,
        '\u{ba}' => 188,
        '\u{3a9}' => 189,
        '\u{e6}' => 190,
        '\u{f8}' => 191,
        '\u{bf}' => 192,
        '\u{a1}' => 193,
        '\u{ac}' => 194,
        '\u{221a}' => 195,
        '\u{192}' => 196,
        '\u{2248}' => 197,
        '\u{2206}' => 198,
        '\u{ab}' => 199,
        '\u{bb}' => 200,
        '\u{2026}' => 201,
        '\u{a0}' => 202,
        '\u{c0}' => 203,
        '\u{c3}' => 204,
        '\u{d5}' => 205,
        '\u{152}' => 206,
        '\u{153}' => 207,
        '\u{2013}' => 208,
        '\u{2014}' => 209,
        '\u{201c}' => 210,
        '\u{201d}' => 211,
        '\u{2018}' => 212,
        '\u{2019}' => 213,
        '\u{f7}' => 214,
        '\u{25ca}' => 215,
        '\u{ff}' => 216,
        '\u{178}' => 217,
        '\u{2044}' => 218,
        '\u{20ac}' => 219,
        '\u{2039}' => 220,
        '\u{203a}' => 221,
        '\u{fb01}' => 222,
        '\u{fb02}' => 223,
        '\u{2021}' => 224,
        '\u{b7}' => 225,
        '\u{201a}' => 226,
        '\u{201e}' => 227,
        '\u{2030}' => 228,
        '\u{c2}' => 229,
        '\u{ca}' => 230,
        '\u{c1}' => 231,
        '\u{cb}' => 232,
        '\u{c8}' => 233,
        '\u{cd}' => 234,
        '\u{ce}' => 235,
        '\u{cf}' => 236,
        '\u{cc}' => 237,
        '\u{d3}' => 238,
        '\u{d4}' => 239,
        '\u{f8ff}' => 240,
        '\u{d2}' => 241,
        '\u{da}' => 242,
        '\u{db}' => 243,
        '\u{d9}' => 244,
        '\u{131}' => 245,
        '\u{2c6}' => 246,
        '\u{2dc}' => 247,
        '\u{af}' => 248,
        '\u{2d8}' => 249,
        '\u{2d9}' => 250,
        '\u{2da}' => 251,
        '\u{b8}' => 252,
        '\u{2dd}' => 253,
        '\u{2db}' => 254,
        '\u{2c7}' => 255,
        _ => -1,
    }
}

proof fn lemma_upper_code()
    ensures
        forall|b: u8| #[trigger] upper_code(macroman_char(b)) == if b >= 128 { b as int } else { -1 },
{
}

/// Returns the character that MacRoman byte `c` stands for.
pub fn macroman_to_char(c: u8) -> (r: char)
    ensures
        r == macroman_char(c),
{
    match c {
        128u8 => '\u{c4}',
        129u8 => '\u{c5}',
        130u8 => '\u{c7}',
        131u8 => '\u{c9}',
        132u8 => '\u{d1}',
        133u8 => '\u{d6}',
        134u8 => '\u{dc}',
        135u8 => '\u{e1}',
        136u8 => '\u{e0}',
        137u8 => '\u{e2}',
        138u8 => '\u{e4}',
        139u8 => '\u{e3}',
        140u8 => '\u{e5}',
        141u8 => '\u{e7}',
        142u8 => '\u{e9}',
        143u8 => '\u{e8}',
        144u8 => '\u{ea}',
        145u8 => '\u{eb}',
        146u8 => '\u{ed}',
        147u8 => '\u{ec}',
        148u8 => '\u{ee}',
        149u8 => '\u{ef}',
        150u8 => '\u{f1}',
        151u8 => '\u{f3}',
        152u8 => '\u{f2}',
        153u8 => '\u{f4}',
        154u8 => '\u{f6}',
        155u8 => '\u{f5}',
        156u8 => '\u{fa}',
        157u8 => '\u{f9}',
        158u8 => '\u{fb}',
        159u8 => '\u{fc}',
        160u8 => '\u{2020}',
        161u8 => '\u{b0}',
        162u8 => '\u{a2}',
        163u8 => '\u{a3}',
        164u8 => '\u{a7}',
        165u8 => '\u{2022}',
        166u8 => '\u{b6}',
        167u8 => '\u{df}',
        168u8 => '\u{ae}',
        169u8 => '\u{a9}',
        170u8 => '\u{2122}',
        171u8 => '\u{b4}',
        172u8 => '\u{a8}',
        173u8 => '\u{2260}',
        174u8 => '\u{c6}',
        175u8 => '\u{d8}',
        176u8 => '\u{221e}',
        177u8 => '\u{b1}',
        178u8 => '\u{2264}',
        179u8 => '\u{2265}',
        180u8 => '\u{a5}',
        181u8 => '\u{b5}',
        182u8 => '\u{2202}',
        183u8 => '\u{2211}',
        184u8 => '\u{220f}',
        185u8 => '\u{3c0}',
        186u8 => '\u{222b}',
        187u8 => '\u{aa}',
        188u8 => '\u{ba}',
        189u8 => '\u{3a9}',
        190u8 => '\u{e6}',
        191u8 => '\u{f8}',
        192u8 => '\u{bf}',
        193u8 => '\u{a1}',
        194u8 => '\u{ac}',
        195u8 => '\u{221a}',
        196u8 => '\u{192}',
        197u8 => '\u{2248}',
        198u8 => '\u{2206}',
        199u8 => '\u{ab}',
        200u8 => '\u{bb}',
        201u8 => '\u{2026}',
        202u8 => '\u{a0}',
        203u8 => '\u{c0}',
        204u8 => '\u{c3}',
        205u8 => '\u{d5}',
        206u8 => '\u{152}',
        207u8 => '\u{153}',
        208u8 => '\u{2013}',
        209u8 => '\u{2014}',
        210u8 => '\u{201c}',
        211u8 => '\u{201d}',
        212u8 => '\u{2018}',
        213u8 => '\u{2019}',
        214u8 => '\u{f7}',
        215u8 => '\u{25ca}',
        216u8 => '\u{ff}',
        217u8 => '\u{178}',
        218u8 => '\u{2044}',
        219u8 => '\u{20ac}',
        220u8 => '\u{2039}',
        221u8 => '\u{203a}',
        222u8 => '\u{fb01}',
        223u8 => '\u{fb02}',
        224u8 => '\u{2021}',
        225u8 => '\u{b7}',
        226u8 => '\u{201a}',
        227u8 => '\u{201e}',
        228u8 => '\u{2030}',
        229u8 => '\u{c2}',
        230u8 => '\u{ca}',
        231u8 => '\u{c1}',
        232u8 => '\u{cb}',
        233u8 => '\u{c8}',
        234u8 => '\u{cd}',
        235u8 => '\u{ce}',
        236u8 => '\u{cf}',
        237u8 => '\u{cc}',
        238u8 => '\u{d3}',
        239u8 => '\u{d4}',
        240u8 => '\u{f8ff}',
        241u8 => '\u{d2}',
        242u8 => '\u{da}',
        243u8 => '\u{db}',
        244u8 => '\u{d9}',
        245u8 => '\u{131}',
        246u8 => '\u{2c6}',
        247u8 => '\u{2dc}',
        248u8 => '\u{af}',
        249u8 => '\u{2d8}',
        250u8 => '\u{2d9}',
        251u8 => '\u{2da}',
        252u8 => '\u{b8}',
        253u8 => '\u{2dd}',
        254u8 => '\u{2db}',
        255u8 => '\u{2c7}',
        _ => c as char,
    }
}

/// The first byte at or after `i` whose character is `c`.
pub open spec fn first_code_from(c: char, i: int) -> Option<u8>
    decreases 256 - i,
{
    if i >= 256 {
        None
    } else if macroman_char(i as u8) == c {
        Some(i as u8)
    } else {
        first_code_from(c, i + 1)
    }
}

/// The MacRoman byte for `c`: the byte of the code page (from the space
/// onwards) that stands for it, and where none does, the low byte of its
/// scalar value.
pub open spec fn macroman_code(c: char) -> u8 {
    match first_code_from(c, 32) {
        Some(b) => b,
        None => (c as u32 % 256) as u8,
    }
}

/// Decodes a MacRoman byte string.
pub open spec fn decode_macroman(s: Seq<u8>) -> Seq<char> {
    s.map_values(|b: u8| macroman_char(b))
}

/// Encodes text as MacRoman, one byte per character.
pub open spec fn encode_macroman(s: Seq<char>) -> Seq<u8> {
    s.map_values(|c: char| macroman_code(c))
}

/// Two bytes stand for the same character only if they are the same byte.
pub proof fn lemma_macroman_char_injective(a: u8, b: u8)
    requires
        macroman_char(a) == macroman_char(b),
    ensures
        a == b,
{
    lemma_upper_code();
    assert(upper_code(macroman_char(a)) == upper_code(macroman_char(b)));
    if a < 128 && b < 128 {
        assert((a as char) as u32 == a as u32);
        assert((b as char) as u32 == b as u32);
    }
}

proof fn lemma_first_code_found(c: char, i: int, b: u8)
    requires
        32 <= i <= b,
        macroman_char(b) == c,
        forall|j: int| i <= j < b ==> #[trigger] macroman_char(j as u8) != c,
    ensures
        first_code_from(c, i) == Some(b),
    decreases b - i,
{
    if i < b {
        lemma_first_code_found(c, i + 1, b);
    }
}

proof fn lemma_first_code_absent(c: char, i: int)
    requires
        32 <= i <= 256,
        forall|j: int| i <= j < 256 ==> #[trigger] macroman_char(j as u8) != c,
    ensures
        first_code_from(c, i) is None,
    decreases 256 - i,
{
    if i < 256 {
        lemma_first_code_absent(c, i + 1);
    }
}

/// Encoding the character of any byte gives that byte back.
pub proof fn lemma_macroman_round_trip(b: u8)
    ensures
        macroman_code(macroman_char(b)) == b,
{
    let c = macroman_char(b);
    if b >= 32 {
        assert forall|j: int| 32 <= j < b implies #[trigger] macroman_char(j as u8) != c by {
            if macroman_char(j as u8) == c {
                lemma_macroman_char_injective(j as u8, b);
            }
        }
        lemma_first_code_found(c, 32, b);
    } else {
        assert forall|j: int| 32 <= j < 256 implies #[trigger] macroman_char(j as u8) != c by {
            if macroman_char(j as u8) == c {
                lemma_macroman_char_injective(j as u8, b);
            }
        }
        lemma_first_code_absent(c, 32);
        assert((b as char) as u32 == b as u32);
    }
}

/// Returns the MacRoman byte for `c`; a character outside the code page
/// gives the low byte of its scalar value.
pub fn char_to_macroman(c: char) -> (r: u8)
    ensures
        r == macroman_code(c),
{
    let mut i: u16 = 32;
    while i < 256
        invariant
            32 <= i <= 256,
            first_code_from(c, 32) == first_code_from(c, i as int),
        decreases 256 - i,
    {
        if macroman_to_char(i as u8) == c {
            return i as u8;
        }
        i = i + 1;
    }
    (c as u32 % 256) as u8
}

/// Relies on String::push: appends one character to the text.
pub assume_specification[ String::push ](s: &mut String, ch: char)
    ensures
        final(s)@ == old(s)@.push(ch),
;

/// Decodes MacRoman bytes into text.
pub fn macroman_to_string(s: &[u8]) -> (r: String)
    ensures
        r@ == decode_macroman(s@),
{
    let mut r = String::new();
    let mut i: usize = 0;
    while i < s.len()
        invariant
            i <= s@.len(),
            r@ == decode_macroman(s@.subrange(0, i as int)),
        decreases s@.len() - i,
    {
        r.push(macroman_to_char(s[i]));
        assert(s@.subrange(0, i + 1) == s@.subrange(0, i as int).push(s@[i as int]));
        i = i + 1;
    }
    assert(s@.subrange(0, s@.len() as int) == s@);
    r
}

/// Encodes text as MacRoman bytes, one per character.
pub fn string_to_macroman(s: &str) -> (r: Vec<u8>)
    ensures
        r@ == encode_macroman(s@),
{
    broadcast use vstd::string::group_string_axioms;

    let mut r: Vec<u8> = Vec::new();
    for c in it: s.chars()
        invariant
            it.seq() == s@,
            r@ == encode_macroman(s@.take(it.index() as int)),
    {
        r.push(char_to_macroman(c));
        assert(s@.take(it.index() + 1) == s@.take(it.index() as int).push(c));
    }
    assert(s@.take(s@.len() as int) == s@);
    r
}

/// Text held as MacRoman bytes, at most `CAP` of them (and never more than
/// one length byte can count). Equality is byte for byte.
#[derive(Debug)]
pub struct MacRomanString<const CAP: usize> {
    bytes: Vec<u8>,
}

impl<const CAP: usize> View for MacRomanString<CAP> {
    type V = Seq<u8>;

    closed spec fn view(&self) -> Seq<u8> {
        self.bytes@
    }
}

impl<const CAP: usize> MacRomanString<CAP> {
    #[verifier::type_invariant]
    spec fn bounded(&self) -> bool {
        self.bytes@.len() <= CAP && self.bytes@.len() <= 255
    }

    /// Holds `s` if it fits, and is `None` where it does not.
    pub fn from_bytes(s: &[u8]) -> (r: Option<Self>)
        ensures
            r is Some <==> s@.len() <= CAP && s@.len() <= 255,
            r matches Some(m) ==> m@ == s@,
    {
        if s.len() <= CAP && s.len() <= 255 {
            Some(MacRomanString { bytes: slice_to_vec(s) })
        } else {
            None
        }
    }

    /// Encodes `s` as MacRoman and holds it if it fits.
    pub fn from_text(s: &str) -> (r: Option<Self>)
        ensures
            r is Some <==> s@.len() <= CAP && s@.len() <= 255,
            r matches Some(m) ==> m@ == encode_macroman(s@),
    {
        let b = string_to_macroman(s);
        Self::from_bytes(b.as_slice())
    }

    /// The number of bytes held.
    pub fn len(&self) -> (r: usize)
        ensures
            r == self@.len(),
            r <= CAP,
            r <= 255,
    {
        proof {
            use_type_invariant(self);
        }
        self.bytes.len()
    }

    pub fn is_empty(&self) -> (r: bool)
        ensures
            r == (self@.len() == 0),
    {
        self.bytes.len() == 0
    }

    /// Replaces the contents with `s`, which must fit.
    pub fn set(&mut self, s: &[u8])
        requires
            s@.len() <= CAP,
            CAP <= 255,
        ensures
            final(self)@ == s@,
    {
        self.bytes = slice_to_vec(s);
    }

    /// The contents decoded as text.
    pub fn as_string(&self) -> (r: String)
        ensures
            r@ == decode_macroman(self@),
    {
        macroman_to_string(self.bytes.as_slice())
    }

    /// The MacRoman bytes held.
    pub fn as_bytes(&self) -> (r: &[u8])
        ensures
            r@ == self@,
    {
        self.bytes.as_slice()
    }

    /// Appends the wire form: the length byte, then the bytes.
    pub fn write_to_buf(&self, buf: &mut Vec<u8>)
        ensures
            final(buf)@ == old(buf)@ + pstr(self@),
    {
        proof {
            use_type_invariant(self);
        }
        buf.push(self.bytes.len() as u8);
        let mut i: usize = 0;
        while i < self.bytes.len()
            invariant
                i <= self@.len(),
                buf@ == old(buf)@ + seq![self@.len() as u8] + self@.subrange(0, i as int),
            decreases self@.len() - i,
        {
            buf.push(self.bytes[i]);
            assert(self@.subrange(0, i + 1) == self@.subrange(0, i as int).push(self@[i as int]));
            i = i + 1;
        }
        assert(self@.subrange(0, self@.len() as int) == self@);
        assert(buf@ =~= old(buf)@ + pstr(self@));
    }
}

impl<const CAP: usize> Default for MacRomanString<CAP> {
    fn default() -> (r: Self)
        ensures
            r@ == Seq::<u8>::empty(),
    {
        MacRomanString { bytes: Vec::new() }
    }
}

impl<const CAP: usize> Clone for MacRomanString<CAP> {
    fn clone(&self) -> (r: Self)
        ensures
            r@ == self@,
    {
        proof {
            use_type_invariant(self);
        }
        MacRomanString { bytes: slice_to_vec(self.bytes.as_slice()) }
    }
}

impl<const CAP: usize> PartialEq for MacRomanString<CAP> {
    fn eq(&self, other: &Self) -> (r: bool) {
        if self.bytes.len() != other.bytes.len() {
            return false;
        }
        let mut i: usize = 0;
        while i < self.bytes.len()
            invariant
                i <= self@.len(),
                self@.len() == other@.len(),
                self@.subrange(0, i as int) == other@.subrange(0, i as int),
            decreases self@.len() - i,
        {
            if self.bytes[i] != other.bytes[i] {
                return false;
            }
            assert(self@.subrange(0, i + 1) == self@.subrange(0, i as int).push(self@[i as int]));
            assert(other@.subrange(0, i + 1) == other@.subrange(0, i as int).push(other@[i as int]));
            i = i + 1;
        }
        assert(self@.subrange(0, self@.len() as int) == self@);
        assert(other@.subrange(0, other@.len() as int) == other@);
        true
    }
}

impl<const CAP: usize> vstd::std_specs::cmp::PartialEqSpecImpl for MacRomanString<CAP> {
    open spec fn obeys_eq_spec() -> bool {
        true
    }

    open spec fn eq_spec(&self, other: &Self) -> bool {
        self@ == other@
    }
}

} // verus!
