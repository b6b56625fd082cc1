//! String obfuscation: a bit mixer, a string hash, keystreams derived from a 32-bit key,
//! and the XOR transform that keeps text out of stored data until the point of use.
pub mod bytes;
pub mod laws;
pub mod mix;
pub mod obf;
pub mod utf16;
pub mod words;

pub use mix::{entropy, hash, seed, splitmix};
pub use obf::{unsafe_as_str, ObfBuffer, ObfString};
pub use utf16::{decode_lossy, wide, wide_len};
