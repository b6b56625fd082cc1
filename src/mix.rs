//! The bit mixer, the string hash and the derivation of per-call-site entropy.
use vstd::arithmetic::div_mod::lemma_add_mod_noop;
use vstd::prelude::*;
use vstd::string::StringSliceAdditionalSpecFns;

verus! {

/// Two to the 64th power: the modulus of wrapping `u64` arithmetic.
pub open spec fn pow2_64() -> nat {
    0x1_0000_0000_0000_0000nat
}

/// The golden-ratio increment applied before mixing.
pub const GOLDEN_GAMMA: u64 = 0x9e3779b97f4a7c15;

/// The multiplier of the first mixing round.
pub const MIX_MUL_1: u64 = 0xbf58476d1ce4e5b9;

/// The multiplier of the second mixing round.
pub const MIX_MUL_2: u64 = 0x94d049bb133111eb;

/// The avalanche function: add the golden-ratio constant, then two rounds of
/// xor-shift and multiply, then a final xor-shift; all arithmetic wraps at 64 bits.
pub open spec fn mix(x: u64) -> u64 {
    let a = ((x as nat + GOLDEN_GAMMA as nat) % pow2_64()) as u64;
    let b = (((a ^ (a >> 30u64)) as nat * MIX_MUL_1 as nat) % pow2_64()) as u64;
    let c = (((b ^ (b >> 27u64)) as nat * MIX_MUL_2 as nat) % pow2_64()) as u64;
    c ^ (c >> 31u64)
}

/// Bit mixing: spreads the entropy of `seed` over all 64 bits of the result.
pub fn splitmix(seed: u64) -> (r: u64)
    ensures
        r == mix(seed),
{
    let next = seed.wrapping_add(GOLDEN_GAMMA);
    let mut z = next;
    z = (z ^ (z >> 30u64)).wrapping_mul(MIX_MUL_1);
    z = (z ^ (z >> 27u64)).wrapping_mul(MIX_MUL_2);
    z ^ (z >> 31u64)
}

/// Two to the 32nd power: the modulus of wrapping `u32` arithmetic.
pub open spec fn pow2_32() -> nat {
    0x1_0000_0000nat
}

/// The starting value of the string hash.
pub const HASH_INIT: u32 = 3581;

/// DJB2 over a byte sequence: start at 3581 and, for each byte in order, multiply by 33
/// and add the byte, wrapping at 32 bits.
pub open spec fn djb2(bytes: Seq<u8>) -> u32
    decreases bytes.len(),
{
    if bytes.len() == 0 {
        HASH_INIT
    } else {
        ((djb2(bytes.drop_last()) as nat * 33 + bytes.last() as nat) % pow2_32()) as u32
    }
}

/// Hashes the UTF-8 bytes of `s`.
pub fn hash(s: &str) -> (r: u32)
    ensures
        r == djb2(s.spec_bytes()),
{
    let bytes = s.as_bytes();
    let mut result: u32 = HASH_INIT;
    let mut i: usize = 0;
    while i < bytes.len()
        invariant
            0 <= i <= bytes@.len(),
            bytes@ == s.spec_bytes(),
            result == djb2(bytes@.subrange(0, i as int)),
        decreases bytes@.len() - i,
    {
        let ghost prev = result;
        result = result.wrapping_mul(33).wrapping_add(bytes[i] as u32);
        proof {
            let next = bytes@.subrange(0, i + 1);
            assert(next.drop_last() =~= bytes@.subrange(0, i as int));
            lemma_add_mod_noop(prev as int * 33, bytes@[i as int] as int, pow2_32() as int);
        }
        i += 1;
    }
    assert(bytes@.subrange(0, i as int) =~= bytes@);
    result
}

/// The process-wide seed derived from a configuration string.
pub open spec fn seed_of(config: Seq<u8>) -> u64 {
    mix(djb2(config) as u64)
}

/// Derives the build seed from the configuration text: the mixed hash of its bytes.
pub fn seed(config: &str) -> (r: u64)
    ensures
        r == seed_of(config.spec_bytes()),
{
    splitmix(hash(config) as u64)
}

/// The entropy of a call site: the seed and the hash of the file path, then the line,
/// then the column, each folded in by XOR before a round of mixing.
pub open spec fn entropy_of(seed: u64, file: Seq<u8>, line: u32, column: u32) -> u64 {
    mix(mix(mix(seed ^ (djb2(file) as u64)) ^ (line as u64)) ^ (column as u64))
}

/// Derives the reproducible entropy of the call site `(file, line, column)` under `seed`.
pub fn entropy(seed: u64, file: &str, line: u32, column: u32) -> (r: u64)
    ensures
        r == entropy_of(seed, file.spec_bytes(), line, column),
{
    splitmix(splitmix(splitmix(seed ^ hash(file) as u64) ^ line as u64) ^ column as u64)
}

/// The running state of a keystream after `n` positions: the key, mixed once per position.
pub open spec fn stream_state(key: u32, n: nat) -> u64
    decreases n,
{
    if n == 0 {
        key as u64
    } else {
        mix(stream_state(key, (n - 1) as nat))
    }
}

} // verus!
