//! The byte-wide keystream and XOR transform, for narrow (UTF-8) strings.
use crate::mix::{splitmix, stream_state};
use vstd::prelude::*;

verus! {

/// The byte keystream of length `n` under `key`: position `i` holds the low 8 bits of the
/// state after `i + 1` mixing steps.
pub open spec fn byte_keystream(key: u32, n: nat) -> Seq<u8> {
    Seq::new(n, |i: int| (stream_state(key, (i + 1) as nat) % 256) as u8)
}

/// Element-wise XOR of two byte sequences, over the length of the first.
pub open spec fn xor_bytes(a: Seq<u8>, b: Seq<u8>) -> Seq<u8> {
    Seq::new(a.len(), |i: int| a[i] ^ b[i])
}

/// Generates the keystream of `LEN` bytes for `key`.
pub fn keystream<const LEN: usize>(key: u32) -> (r: [u8; LEN])
    ensures
        r@ == byte_keystream(key, LEN as nat),
{
    let mut keys: [u8; LEN] = [0u8; LEN];
    let mut state: u64 = key as u64;
    let mut i: usize = 0;
    while i < LEN
        invariant
            0 <= i <= LEN,
            keys@.len() == LEN,
            state == stream_state(key, i as nat),
            forall|t: int| 0 <= t < i ==> keys@[t] == byte_keystream(key, LEN as nat)[t],
        decreases LEN - i,
    {
        state = splitmix(state);
        keys[i] = (state % 256) as u8;
        i += 1;
    }
    assert(keys@ =~= byte_keystream(key, LEN as nat));
    keys
}

/// XORs the text `s` with the keystream `k`.
pub fn obfuscate<const LEN: usize>(s: &[u8], k: &[u8; LEN]) -> (r: [u8; LEN])
    requires
        s@.len() == LEN,
    ensures
        r@ == xor_bytes(s@, k@),
{
    let mut data: [u8; LEN] = [0u8; LEN];
    let mut i: usize = 0;
    while i < LEN
        invariant
            0 <= i <= LEN,
            s@.len() == LEN,
            data@.len() == LEN,
            forall|t: int| 0 <= t < i ==> data@[t] == s@[t] ^ k@[t],
        decreases LEN - i,
    {
        data[i] = s[i] ^ k[i];
        i += 1;
    }
    assert(data@ =~= xor_bytes(s@, k@));
    data
}

/// Recovers the text from the obfuscated data `s` and the keystream `k`.
pub fn deobfuscate<const LEN: usize>(s: &[u8; LEN], k: &[u8; LEN]) -> (r: [u8; LEN])
    ensures
        r@ == xor_bytes(s@, k@),
{
    let mut buffer: [u8; LEN] = [0u8; LEN];
    let mut i: usize = 0;
    while i < LEN
        invariant
            0 <= i <= LEN,
            buffer@.len() == LEN,
            forall|t: int| 0 <= t < i ==> buffer@[t] == s@[t] ^ k@[t],
        decreases LEN - i,
    {
        buffer[i] = s[i] ^ k[i];
        i += 1;
    }
    assert(buffer@ =~= xor_bytes(s@, k@));
    buffer
}

/// Whether `other` is the text hidden in `s` under the keystream `k`, without recovering it.
pub fn equals<const LEN: usize>(s: &[u8; LEN], k: &[u8; LEN], other: &[u8]) -> (r: bool)
    ensures
        r == (other@ == xor_bytes(s@, k@)),
{
    if other.len() != LEN {
        return false;
    }
    let mut i: usize = 0;
    while i < LEN
        invariant
            0 <= i <= LEN,
            other@.len() == LEN,
            forall|t: int| 0 <= t < i ==> other@[t] == s@[t] ^ k@[t],
        decreases LEN - i,
    {
        if s[i] ^ k[i] != other[i] {
            assert(other@[i as int] != xor_bytes(s@, k@)[i as int]);
            return false;
        }
        i += 1;
    }
    assert(other@ =~= xor_bytes(s@, k@));
    true
}

} // verus!
