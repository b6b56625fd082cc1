//! Conversion of UTF-8 text into UTF-16 code units.
use vstd::prelude::*;
use vstd::string::StringSliceAdditionalSpecFns;
use vstd::utf8::*;

verus! {

/// The UTF-16 code units of one character: the scalar itself below `0x10000`, else a
/// surrogate pair built from the offset above `0x10000`.
pub open spec fn utf16_units(c: char) -> Seq<u16> {
    let v = c as u32;
    if v >= 0x10000 {
        seq![
            (0xD800 + (v - 0x10000) / 0x400) as u16,
            (0xDC00 + (v - 0x10000) % 0x400) as u16,
        ]
    } else {
        seq![v as u16]
    }
}

/// The UTF-16 encoding of a character sequence: the units of each character in order.
pub open spec fn utf16_of(chars: Seq<char>) -> Seq<u16>
    decreases chars.len(),
{
    if chars.len() == 0 {
        seq![]
    } else {
        utf16_of(chars.drop_last()) + utf16_units(chars.last())
    }
}

/// The encoding of a concatenation is the concatenation of the encodings.
pub proof fn lemma_utf16_of_concat(a: Seq<char>, b: Seq<char>)
    ensures
        utf16_of(a + b) == utf16_of(a) + utf16_of(b),
    decreases b.len(),
{
    if b.len() == 0 {
        assert(a + b =~= a);
        assert(utf16_of(a) + utf16_of(b) =~= utf16_of(a));
    } else {
        lemma_utf16_of_concat(a, b.drop_last());
        assert((a + b).drop_last() =~= a + b.drop_last());
        assert(utf16_of(a) + utf16_of(b) =~= utf16_of(a) + utf16_of(b.drop_last()) + utf16_units(
            b.last(),
        ));
    }
}

/// Leading-byte masks and the values they decode, as the bit patterns of UTF-8 give them.
proof fn lemma_leading_byte(b0: u8, b1: u8, b2: u8, b3: u8)
    by (bit_vector)
    ensures
        (b0 & 0x80 == 0) <==> is_leading_byte_width_1(b0),
        (b0 & 0xe0 == 0xc0) <==> is_leading_byte_width_2(b0),
        (b0 & 0xf0 == 0xe0) <==> is_leading_byte_width_3(b0),
        (b0 & 0xf8 == 0xf0) <==> is_leading_byte_width_4(b0),
        is_leading_byte_width_1(b0) ==> b0 as u32 == codepoint_width_1(b0),
        (b0 as u32 & 0x1f) << 6u32 | (b1 as u32 & 0x3f) == codepoint_width_2(b0, b1),
        (b0 as u32 & 0x0f) << 12u32 | (b1 as u32 & 0x3f) << 6u32 | (b2 as u32 & 0x3f)
            == codepoint_width_3(b0, b1, b2),
        (b0 as u32 & 0x07) << 18u32 | (b1 as u32 & 0x3f) << 12u32 | (b2 as u32 & 0x3f) << 6u32 | (
        b3 as u32 & 0x3f) == codepoint_width_4(b0, b1, b2, b3),
{
}

/// Decodes the scalar that starts at byte `i`, returning it with its encoded width.
fn decode_scalar(bytes: &[u8], i: usize) -> (r: (u32, usize))
    requires
        i < bytes@.len(),
        valid_first_scalar(bytes@.subrange(i as int, bytes@.len() as int)),
    ensures
        r.0 == decode_first_scalar(bytes@.subrange(i as int, bytes@.len() as int)),
        r.1 == length_of_first_scalar(bytes@.subrange(i as int, bytes@.len() as int)),
{
    let ghost rest = bytes@.subrange(i as int, bytes@.len() as int);
    let b0 = bytes[i];
    proof {
        let w = length_of_first_codepoint(rest);
        let c1 = if w > 1 { rest[1] } else { 0u8 };
        let c2 = if w > 2 { rest[2] } else { 0u8 };
        let c3 = if w > 3 { rest[3] } else { 0u8 };
        lemma_leading_byte(b0, c1, c2, c3);
    }
    if b0 & 0x80 == 0x00 {
        (b0 as u32, 1)
    } else if b0 & 0xe0 == 0xc0 {
        ((b0 as u32 & 0x1f) << 6u32 | (bytes[i + 1] as u32 & 0x3f), 2)
    } else if b0 & 0xf0 == 0xe0 {
        (
            (b0 as u32 & 0x0f) << 12u32 | (bytes[i + 1] as u32 & 0x3f) << 6u32 | (bytes[i + 2] as u32
                & 0x3f),
            3,
        )
    } else {
        (
            (b0 as u32 & 0x07) << 18u32 | (bytes[i + 1] as u32 & 0x3f) << 12u32 | (bytes[i + 2] as u32
                & 0x3f) << 6u32 | (bytes[i + 3] as u32 & 0x3f),
            4,
        )
    }
}

/// One decoding step: the suffix of the text's bytes that encodes `chars[k..]` starts with
/// the scalar of `chars[k]`, and dropping its bytes leaves the encoding of `chars[k + 1..]`.
proof fn lemma_step(bytes: Seq<u8>, i: int, chars: Seq<char>, k: int)
    requires
        0 <= i <= bytes.len(),
        0 <= k <= chars.len(),
        bytes.subrange(i, bytes.len() as int) == encode_utf8(chars.subrange(k, chars.len() as int)),
        i < bytes.len(),
    ensures
        k < chars.len(),
        valid_first_scalar(bytes.subrange(i, bytes.len() as int)),
        decode_first_scalar(bytes.subrange(i, bytes.len() as int)) == chars[k] as u32,
        ({
            let w = length_of_first_scalar(bytes.subrange(i, bytes.len() as int));
            &&& 1 <= w <= 4
            &&& i + w <= bytes.len()
            &&& (chars[k] as u32 >= 0x10000 <==> w == 4)
            &&& bytes.subrange(i + w, bytes.len() as int) == encode_utf8(
                chars.subrange(k + 1, chars.len() as int),
            )
        }),
{
    let rest = chars.subrange(k, chars.len() as int);
    if k == chars.len() {
        assert(rest.len() == 0);
    }
    encode_utf8_first_scalar(rest);
    char_is_scalar(rest[0]);
    let enc = encode_utf8(rest);
    let w = length_of_first_scalar(enc);
    assert(rest.drop_first() =~= chars.subrange(k + 1, chars.len() as int));
    assert(enc == encode_scalar(rest[0] as u32) + encode_utf8(rest.drop_first()));
    assert(bytes.subrange(i + w, bytes.len() as int) =~= enc.subrange(w, enc.len() as int));
    assert(enc.subrange(w, enc.len() as int) =~= encode_utf8(rest.drop_first()));
}

/// The number of UTF-16 code units that encode `s`.
pub fn wide_len(s: &str) -> (r: usize)
    ensures
        r == utf16_of(s@).len(),
{
    let bytes = s.as_bytes();
    let ghost chars = s@;
    let mut len: usize = 0;
    let mut i: usize = 0;
    let ghost mut k: int = 0;
    assert(bytes@.subrange(0, bytes@.len() as int) =~= bytes@);
    assert(chars.subrange(0, chars.len() as int) =~= chars);
    while i < bytes.len()
        invariant
            0 <= i <= bytes@.len(),
            0 <= k <= chars.len(),
            bytes@.subrange(i as int, bytes@.len() as int) == encode_utf8(
                chars.subrange(k, chars.len() as int),
            ),
            len == utf16_of(chars.subrange(0, k)).len(),
            len <= i,
        decreases bytes@.len() - i,
    {
        proof {
            lemma_step(bytes@, i as int, chars, k);
        }
        let (chr, width) = decode_scalar(bytes, i);
        i += width;
        len += if chr >= 0x10000 { 2 } else { 1 };
        proof {
            assert(chars.subrange(0, k + 1).drop_last() =~= chars.subrange(0, k));
            k = k + 1;
        }
    }
    proof {
        if k < chars.len() {
            assert(chars.subrange(k, chars.len() as int)[0] == chars[k]);
            assert(encode_utf8(chars.subrange(k, chars.len() as int)).len() > 0) by {
                encode_utf8_first_scalar(chars.subrange(k, chars.len() as int));
            }
        }
        assert(chars.subrange(0, k) =~= chars);
    }
    len
}

/// The UTF-16 code units of `s`, in an array whose length is `wide_len(s)`.
pub fn wide<const LEN: usize>(s: &str) -> (r: [u16; LEN])
    requires
        LEN == utf16_of(s@).len(),
    ensures
        r@ == utf16_of(s@),
{
    let bytes = s.as_bytes();
    let ghost chars = s@;
    let mut data: [u16; LEN] = [0u16; LEN];
    let mut i: usize = 0;
    let mut j: usize = 0;
    let ghost mut k: int = 0;
    assert(bytes@.subrange(0, bytes@.len() as int) =~= bytes@);
    assert(chars.subrange(0, chars.len() as int) =~= chars);
    while i < bytes.len()
        invariant
            0 <= i <= bytes@.len(),
            0 <= k <= chars.len(),
            bytes@.subrange(i as int, bytes@.len() as int) == encode_utf8(
                chars.subrange(k, chars.len() as int),
            ),
            data@.len() == LEN,
            LEN == utf16_of(chars).len(),
            j == utf16_of(chars.subrange(0, k)).len(),
            data@.subrange(0, j as int) == utf16_of(chars.subrange(0, k)),
        decreases bytes@.len() - i,
    {
        proof {
            lemma_step(bytes@, i as int, chars, k);
            lemma_utf16_of_concat(chars.subrange(0, k + 1), chars.subrange(k + 1, chars.len() as int));
            assert(chars.subrange(0, k + 1) + chars.subrange(k + 1, chars.len() as int) =~= chars);
            assert(chars.subrange(0, k + 1).drop_last() =~= chars.subrange(0, k));
        }
        let ghost prev = data@;
        let (chr, width) = decode_scalar(bytes, i);
        i += width;
        if chr >= 0x10000 {
            data[j] = (0xD800 + (chr - 0x10000) / 0x400) as u16;
            data[j + 1] = (0xDC00 + (chr - 0x10000) % 0x400) as u16;
            j += 2;
        } else {
            data[j] = chr as u16;
            j += 1;
        }
        proof {
            assert(data@.subrange(0, j as int) =~= prev.subrange(0, j - utf16_units(chars[k]).len())
                + utf16_units(chars[k]));
            k = k + 1;
        }
    }
    proof {
        if k < chars.len() {
            assert(encode_utf8(chars.subrange(k, chars.len() as int)).len() > 0) by {
                encode_utf8_first_scalar(chars.subrange(k, chars.len() as int));
            }
        }
        assert(chars.subrange(0, k) =~= chars);
        assert(data@.subrange(0, j as int) =~= data@);
    }
    data
}

/// The character that stands for an unpaired or misplaced surrogate.
pub const REPLACEMENT_CHARACTER: char = '\u{FFFD}';

/// A leading (high) surrogate code unit.
pub open spec fn is_high_surrogate(u: u16) -> bool {
    0xD800 <= u <= 0xDBFF
}

/// A trailing (low) surrogate code unit.
pub open spec fn is_low_surrogate(u: u16) -> bool {
    0xDC00 <= u <= 0xDFFF
}

/// The scalar value that a high and a low surrogate encode together.
pub open spec fn pair_scalar(hi: u16, lo: u16) -> u32 {
    (0x10000 + (hi - 0xD800) * 0x400 + (lo - 0xDC00)) as u32
}

/// Decodes UTF-16, replacing each surrogate that is not part of a well-ordered pair by
/// the replacement character.
pub open spec fn decode_utf16_lossy(units: Seq<u16>) -> Seq<char>
    decreases units.len(),
{
    if units.len() == 0 {
        seq![]
    } else if units.len() >= 2 && is_high_surrogate(units[0]) && is_low_surrogate(units[1]) {
        seq![pair_scalar(units[0], units[1]) as char] + decode_utf16_lossy(
            units.subrange(2, units.len() as int),
        )
    } else if is_high_surrogate(units[0]) || is_low_surrogate(units[0]) {
        seq!['\u{FFFD}'] + decode_utf16_lossy(units.subrange(1, units.len() as int))
    } else {
        seq![units[0] as u32 as char] + decode_utf16_lossy(units.subrange(1, units.len() as int))
    }
}

/// Relies on `char::from_u32`: it returns the character of `v` exactly when `v` is a
/// Unicode scalar value.
#[verifier::external_body]
fn scalar_char(v: u32) -> (r: Option<char>)
    ensures
        r is Some <==> is_scalar(v),
        r matches Some(c) ==> c as u32 == v,
{
    char::from_u32(v)
}

/// The character of a scalar value, as `decode_utf16_lossy` names it.
fn char_of(v: u32) -> (r: char)
    requires
        is_scalar(v),
    ensures
        r == v as char,
{
    match scalar_char(v) {
        Some(c) => {
            proof {
                char_u32_cast(c, v);
            }
            c
        },
        None => REPLACEMENT_CHARACTER,
    }
}

/// Decodes UTF-16 code units into characters, substituting the replacement character for
/// every unpaired surrogate; never fails.
pub fn decode_lossy(units: &[u16]) -> (r: Vec<char>)
    ensures
        r@ == decode_utf16_lossy(units@),
{
    let n = units.len();
    let mut out: Vec<char> = Vec::new();
    let mut i: usize = 0;
    assert(units@.subrange(0, n as int) =~= units@);
    while i < n
        invariant
            n == units@.len(),
            0 <= i <= n,
            out@ + decode_utf16_lossy(units@.subrange(i as int, n as int)) == decode_utf16_lossy(
                units@,
            ),
        decreases n - i,
    {
        let ghost rest = units@.subrange(i as int, n as int);
        let ghost prev = out@;
        let u = units[i];
        if 0xD800 <= u && u <= 0xDBFF && i + 1 < n && 0xDC00 <= units[i + 1] && units[i + 1]
            <= 0xDFFF {
            let lo = units[i + 1];
            let v: u32 = 0x10000 + (u as u32 - 0xD800) * 0x400 + (lo as u32 - 0xDC00);
            out.push(char_of(v));
            i += 2;
            assert(rest.subrange(2, rest.len() as int) =~= units@.subrange(i as int, n as int));
        } else if 0xD800 <= u && u <= 0xDFFF {
            out.push(REPLACEMENT_CHARACTER);
            i += 1;
            assert(rest.subrange(1, rest.len() as int) =~= units@.subrange(i as int, n as int));
        } else {
            out.push(char_of(u as u32));
            i += 1;
            assert(rest.subrange(1, rest.len() as int) =~= units@.subrange(i as int, n as int));
        }
        assert(out@ =~= prev + seq![out@.last()]);
        assert(prev + seq![out@.last()] + decode_utf16_lossy(units@.subrange(i as int, n as int))
            =~= prev + (seq![out@.last()] + decode_utf16_lossy(units@.subrange(i as int, n as int))));
    }
    assert(out@ + decode_utf16_lossy(units@.subrange(n as int, n as int)) =~= out@);
    out
}

} // verus!
