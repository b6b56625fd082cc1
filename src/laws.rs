//! Properties that relate the functions of the library to one another.
use crate::bytes::{byte_keystream, xor_bytes};
use crate::mix::entropy_of;
use crate::obf::ObfString;
use crate::utf16::{utf16_of, utf16_units};
use crate::words::{word_keystream, xor_words};
use vstd::prelude::*;
use vstd::string::StringSliceAdditionalSpecFns;
use vstd::utf8::{char_is_scalar, encode_utf8_valid_utf8, valid_utf8};

verus! {

/// XOR with a keystream of the text's length, applied twice, gives back the text.
pub proof fn lemma_round_trip_bytes(s: Seq<u8>, key: u32)
    ensures
        xor_bytes(
            xor_bytes(s, byte_keystream(key, s.len())),
            byte_keystream(key, s.len()),
        ) == s,
{
    let ks = byte_keystream(key, s.len());
    assert forall|i: int| 0 <= i < s.len() implies (s[i] ^ ks[i]) ^ ks[i] == s[i] by {
        let (a, b) = (s[i], ks[i]);
        assert((a ^ b) ^ b == a) by (bit_vector);
    }
    assert(xor_bytes(xor_bytes(s, ks), ks) =~= s);
}

/// XOR with a keystream of the units' length, applied twice, gives back the units.
pub proof fn lemma_round_trip_words(s: Seq<u16>, key: u32)
    ensures
        xor_words(
            xor_words(s, word_keystream(key, s.len())),
            word_keystream(key, s.len()),
        ) == s,
{
    let ks = word_keystream(key, s.len());
    assert forall|i: int| 0 <= i < s.len() implies (s[i] ^ ks[i]) ^ ks[i] == s[i] by {
        let (a, b) = (s[i], ks[i]);
        assert((a ^ b) ^ b == a) by (bit_vector);
    }
    assert(xor_words(xor_words(s, ks), ks) =~= s);
}

/// Data made by `ObfString::obfuscate` from `s` hides exactly the bytes of `s`, which are
/// valid UTF-8, so the recovered buffer can be viewed as text.
pub proof fn lemma_obfuscated_text<const LEN: usize>(s: &str, o: ObfString<[u8; LEN]>)
    requires
        s.spec_bytes().len() == LEN,
        o.data() == xor_bytes(s.spec_bytes(), byte_keystream(o.key(), LEN as nat)),
    ensures
        o.text() == s.spec_bytes(),
        valid_utf8(o.text()),
{
    lemma_round_trip_bytes(s.spec_bytes(), o.key());
    encode_utf8_valid_utf8(s@);
}

/// Data made by the wide `ObfString::obfuscate` from `s` hides exactly the UTF-16 units of `s`.
pub proof fn lemma_obfuscated_wide_text<const LEN: usize>(s: &str, o: ObfString<[u16; LEN]>)
    requires
        utf16_of(s@).len() == LEN,
        o.data() == xor_words(utf16_of(s@), word_keystream(o.key(), LEN as nat)),
    ensures
        o.text() == utf16_of(s@),
{
    lemma_round_trip_words(utf16_of(s@), o.key());
}

/// Two keystreams made from the same key and length are the same array.
pub proof fn lemma_keystream_deterministic<const LEN: usize>(key: u32, a: [u8; LEN], b: [u8; LEN])
    requires
        a@ == byte_keystream(key, LEN as nat),
        b@ == byte_keystream(key, LEN as nat),
    ensures
        a == b,
{
    assert(a =~= b);
}

/// Two word keystreams made from the same key and length are the same array.
pub proof fn lemma_word_keystream_deterministic<const LEN: usize>(
    key: u32,
    a: [u16; LEN],
    b: [u16; LEN],
)
    requires
        a@ == word_keystream(key, LEN as nat),
        b@ == word_keystream(key, LEN as nat),
    ensures
        a == b,
{
    assert(a =~= b);
}

/// The entropy of a call site depends on the seed, the file's bytes, the line and the
/// column alone.
pub proof fn lemma_entropy_deterministic(
    seed: u64,
    file: &str,
    other_file: &str,
    line: u32,
    column: u32,
)
    requires
        file@ == other_file@,
    ensures
        entropy_of(seed, file.spec_bytes(), line, column) == entropy_of(
            seed,
            other_file.spec_bytes(),
            line,
            column,
        ),
{
}

/// Comparing a candidate against obfuscated bytes agrees with comparing it against the text.
pub proof fn lemma_equals_agrees_bytes(s: Seq<u8>, key: u32, candidate: Seq<u8>)
    ensures
        (candidate == xor_bytes(
            xor_bytes(s, byte_keystream(key, s.len())),
            byte_keystream(key, s.len()),
        )) <==> candidate == s,
{
    lemma_round_trip_bytes(s, key);
}

/// Comparing a candidate against obfuscated units agrees with comparing it against them.
pub proof fn lemma_equals_agrees_words(s: Seq<u16>, key: u32, candidate: Seq<u16>)
    ensures
        (candidate == xor_words(
            xor_words(s, word_keystream(key, s.len())),
            word_keystream(key, s.len()),
        )) <==> candidate == s,
{
    lemma_round_trip_words(s, key);
}

/// A character at or above `0x10000` becomes a high surrogate and a low surrogate, from
/// which the character's scalar value is recovered.
pub proof fn lemma_surrogate_pair(c: char)
    requires
        c as u32 >= 0x10000,
    ensures
        utf16_units(c).len() == 2,
        0xD800 <= utf16_units(c)[0] <= 0xDBFF,
        0xDC00 <= utf16_units(c)[1] <= 0xDFFF,
        0x10000 + (utf16_units(c)[0] - 0xD800) * 0x400 + (utf16_units(c)[1] - 0xDC00)
            == c as u32,
{
    char_is_scalar(c);
    let v = c as u32;
    assert(v <= 0x10FFFF);
    let off = v - 0x10000;
    assert(off / 0x400 <= 0x3FF);
    assert(off == (off / 0x400) * 0x400 + off % 0x400);
}

/// The keystream of a shorter length is a prefix of the keystream of a longer one.
pub proof fn lemma_keystream_prefix(key: u32, m: nat, n: nat)
    requires
        m <= n,
    ensures
        byte_keystream(key, n).subrange(0, m as int) == byte_keystream(key, m),
        word_keystream(key, n).subrange(0, m as int) == word_keystream(key, m),
{
    assert(byte_keystream(key, n).subrange(0, m as int) =~= byte_keystream(key, m));
    assert(word_keystream(key, n).subrange(0, m as int) =~= word_keystream(key, m));
}

/// Empty text gives an empty keystream and empty data, and recovers to empty text.
pub proof fn lemma_empty(key: u32)
    ensures
        byte_keystream(key, 0) == Seq::<u8>::empty(),
        word_keystream(key, 0) == Seq::<u16>::empty(),
        xor_bytes(Seq::empty(), byte_keystream(key, 0)) == Seq::<u8>::empty(),
        xor_words(Seq::empty(), word_keystream(key, 0)) == Seq::<u16>::empty(),
        utf16_of(Seq::empty()) == Seq::<u16>::empty(),
{
    assert(byte_keystream(key, 0) =~= Seq::<u8>::empty());
    assert(word_keystream(key, 0) =~= Seq::<u16>::empty());
    assert(xor_bytes(Seq::empty(), byte_keystream(key, 0)) =~= Seq::<u8>::empty());
    assert(xor_words(Seq::empty(), word_keystream(key, 0)) =~= Seq::<u16>::empty());
}

} // verus!
