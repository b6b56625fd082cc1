//! The word-wide keystream and XOR transform, for wide (UTF-16) strings.
use crate::mix::{splitmix, stream_state};
use vstd::prelude::*;

verus! {

/// The word keystream of length `n` under `key`: position `i` holds the low 16 bits of the
/// state after `i + 1` mixing steps.
pub open spec fn word_keystream(key: u32, n: nat) -> Seq<u16> {
    Seq::new(n, |i: int| (stream_state(key, (i + 1) as nat) % 65536) as u16)
}

/// Element-wise XOR of two word sequences, over the length of the first.
pub open spec fn xor_words(a: Seq<u16>, b: Seq<u16>) -> Seq<u16> {
    Seq::new(a.len(), |i: int| a[i] ^ b[i])
}

/// Generates the keystream of `LEN` words for `key`.
pub fn keystream<const LEN: usize>(key: u32) -> (r: [u16; LEN])
    ensures
        r@ == word_keystream(key, LEN as nat),
{
    let mut keys: [u16; LEN] = [0u16; LEN];
    let mut state: u64 = key as u64;
    let mut i: usize = 0;
    while i < LEN
        invariant
            0 <= i <= LEN,
            keys@.len() == LEN,
            state == stream_state(key, i as nat),
            forall|t: int| 0 <= t < i ==> keys@[t] == word_keystream(key, LEN as nat)[t],
        decreases LEN - i,
    {
        state = splitmix(state);
        keys[i] = (state % 65536) as u16;
        i += 1;
    }
    assert(keys@ =~= word_keystream(key, LEN as nat));
    keys
}

/// XORs the text `s` with the keystream `k`.
pub fn obfuscate<const LEN: usize>(s: &[u16], k: &[u16; LEN]) -> (r: [u16; LEN])
    requires
        s@.len() == LEN,
    ensures
        r@ == xor_words(s@, k@),
{
    let mut data: [u16; LEN] = [0u16; LEN];
    let mut i: usize = 0;
    while i < LEN
        invariant
            0 <= i <= LEN,
            s@.len() == LEN,
            data@.len() == LEN,
            forall|t: int| 0 <= t < i ==> data@[t] == s@[t] ^ k@[t],
        decreases LEN - i,
    {
        data[i] = s[i] ^ k[i];
        i += 1;
    }
    assert(data@ =~= xor_words(s@, k@));
    data
}

/// Recovers the text from the obfuscated data `s` and the keystream `k`.
pub fn deobfuscate<const LEN: usize>(s: &[u16; LEN], k: &[u16; LEN]) -> (r: [u16; LEN])
    ensures
        r@ == xor_words(s@, k@),
{
    let mut buffer: [u16; LEN] = [0u16; LEN];
    let mut i: usize = 0;
    while i < LEN
        invariant
            0 <= i <= LEN,
            buffer@.len() == LEN,
            forall|t: int| 0 <= t < i ==> buffer@[t] == s@[t] ^ k@[t],
        decreases LEN - i,
    {
        buffer[i] = s[i] ^ k[i];
        i += 1;
    }
    assert(buffer@ =~= xor_words(s@, k@));
    buffer
}

/// Whether `other` is the text hidden in `s` under the keystream `k`, without recovering it.
pub fn equals<const LEN: usize>(s: &[u16; LEN], k: &[u16; LEN], other: &[u16]) -> (r: bool)
    ensures
        r == (other@ == xor_words(s@, k@)),
{
    if other.len() != LEN {
        return false;
    }
    let mut i: usize = 0;
    while i < LEN
        invariant
            0 <= i <= LEN,
            other@.len() == LEN,
            forall|t: int| 0 <= t < i ==> other@[t] == s@[t] ^ k@[t],
        decreases LEN - i,
    {
        if s[i] ^ k[i] != other[i] {
            assert(other@[i as int] != xor_words(s@, k@)[i as int]);
            return false;
        }
        i += 1;
    }
    assert(other@ =~= xor_words(s@, k@));
    true
}

} // verus!
