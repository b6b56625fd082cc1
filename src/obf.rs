//! Obfuscated string data and the buffers it is recovered into.
use crate::bytes::{self, byte_keystream, xor_bytes};
use crate::words::{self, word_keystream, xor_words};
use crate::utf16::{decode_lossy, decode_utf16_lossy, utf16_of, wide};
use vstd::prelude::*;
use vstd::string::StringSliceAdditionalSpecFns;
use vstd::utf8::valid_utf8;

verus! {

/// Obfuscated string data: the key and the text XORed with the keystream of that key.
pub struct ObfString<A> {
    key: u32,
    data: A,
}

/// A deobfuscated string buffer.
pub struct ObfBuffer<A>(pub A);

impl<A> AsRef<A> for ObfBuffer<A> {
    fn as_ref(&self) -> (r: &A)
        ensures
            r == &self.0,
    {
        &self.0
    }
}

/// Relies on `core::str::from_utf8`: it accepts exactly the valid UTF-8 byte slices and
/// returns a string over the same bytes.
#[verifier::external_body]
fn utf8_str(v: &[u8]) -> (r: Option<&str>)
    ensures
        r is Some <==> valid_utf8(v@),
        r matches Some(t) ==> t.spec_bytes() == v@,
{
    core::str::from_utf8(v).ok()
}

impl<const LEN: usize> ObfString<[u8; LEN]> {
    /// The key stored with the data.
    pub closed spec fn key(&self) -> u32 {
        self.key
    }

    /// The stored (obfuscated) bytes.
    pub closed spec fn data(&self) -> Seq<u8> {
        self.data@
    }

    /// The text that the data hides: the data XORed with the keystream of the key.
    pub open spec fn text(&self) -> Seq<u8> {
        xor_bytes(self.data(), byte_keystream(self.key(), LEN as nat))
    }

    /// Obfuscates the UTF-8 bytes of `s` with the keystream of `key`.
    pub fn obfuscate(key: u32, s: &str) -> (r: ObfString<[u8; LEN]>)
        requires
            s.spec_bytes().len() == LEN,
        ensures
            r.key() == key,
            r.data() == xor_bytes(s.spec_bytes(), byte_keystream(key, LEN as nat)),
    {
        let keys = bytes::keystream::<LEN>(key);
        let data = bytes::obfuscate::<LEN>(s.as_bytes(), &keys);
        ObfString { key, data }
    }

    /// Regenerates the keystream from the key and recovers the bytes into a buffer.
    pub fn deobfuscate(&self, _x: usize) -> (r: ObfBuffer<[u8; LEN]>)
        ensures
            r.0@ == self.text(),
    {
        let keys = bytes::keystream::<LEN>(self.key);
        let buffer = bytes::deobfuscate::<LEN>(&self.data, &keys);
        ObfBuffer(buffer)
    }
}

impl<const LEN: usize> PartialEq<&str> for ObfString<[u8; LEN]> {
    fn eq(&self, other: &&str) -> (r: bool) {
        let keys = bytes::keystream::<LEN>(self.key);
        bytes::equals::<LEN>(&self.data, &keys, other.as_bytes())
    }
}

impl<const LEN: usize> vstd::std_specs::cmp::PartialEqSpecImpl<&str> for ObfString<[u8; LEN]> {
    open spec fn obeys_eq_spec() -> bool {
        true
    }

    open spec fn eq_spec(&self, other: &&str) -> bool {
        (*other).spec_bytes() == self.text()
    }
}

impl<const LEN: usize> PartialEq<ObfString<[u8; LEN]>> for &str {
    fn eq(&self, other: &ObfString<[u8; LEN]>) -> (r: bool) {
        let keys = bytes::keystream::<LEN>(other.key);
        bytes::equals::<LEN>(&other.data, &keys, self.as_bytes())
    }
}

impl<const LEN: usize> vstd::std_specs::cmp::PartialEqSpecImpl<ObfString<[u8; LEN]>> for &str {
    open spec fn obeys_eq_spec() -> bool {
        true
    }

    open spec fn eq_spec(&self, other: &ObfString<[u8; LEN]>) -> bool {
        (*self).spec_bytes() == other.text()
    }
}

impl<const LEN: usize> ObfBuffer<[u8; LEN]> {
    /// The recovered bytes.
    pub fn as_slice(&self) -> (r: &[u8])
        ensures
            r@ == self.0@,
    {
        self.0.as_slice()
    }

    /// The recovered bytes as text; they must be valid UTF-8.
    pub fn as_str(&self) -> (r: &str)
        requires
            valid_utf8(self.0@),
        ensures
            r.spec_bytes() == self.0@,
    {
        unsafe_as_str(self.0.as_slice())
    }
}

impl<const LEN: usize> ObfString<[u16; LEN]> {
    /// The key stored with the data.
    pub closed spec fn key(&self) -> u32 {
        self.key
    }

    /// The stored (obfuscated) code units.
    pub closed spec fn data(&self) -> Seq<u16> {
        self.data@
    }

    /// The code units that the data hides: the data XORed with the keystream of the key.
    pub open spec fn text(&self) -> Seq<u16> {
        xor_words(self.data(), word_keystream(self.key(), LEN as nat))
    }

    /// Converts `string` to UTF-16 and obfuscates its code units with the keystream of `key`.
    pub fn obfuscate(key: u32, string: &str) -> (r: ObfString<[u16; LEN]>)
        requires
            utf16_of(string@).len() == LEN,
        ensures
            r.key() == key,
            r.data() == xor_words(utf16_of(string@), word_keystream(key, LEN as nat)),
    {
        let keys = words::keystream::<LEN>(key);
        let string = wide::<LEN>(string);
        let data = words::obfuscate::<LEN>(string.as_slice(), &keys);
        ObfString { key, data }
    }

    /// Regenerates the keystream from the key and recovers the code units into a buffer.
    pub fn deobfuscate(&self, _x: usize) -> (r: ObfBuffer<[u16; LEN]>)
        ensures
            r.0@ == self.text(),
    {
        let keys = words::keystream::<LEN>(self.key);
        let buffer = words::deobfuscate::<LEN>(&self.data, &keys);
        ObfBuffer(buffer)
    }
}

impl<const LEN: usize> ObfBuffer<[u16; LEN]> {
    /// The recovered code units.
    pub fn as_slice(&self) -> (r: &[u16])
        ensures
            r@ == self.0@,
    {
        self.0.as_slice()
    }

    /// The recovered characters, each unpaired surrogate shown as the replacement character.
    pub fn to_chars(&self) -> (r: Vec<char>)
        ensures
            r@ == decode_utf16_lossy(self.0@),
    {
        decode_lossy(self.0.as_slice())
    }
}

/// Views recovered bytes as text; they must be valid UTF-8.
pub fn unsafe_as_str(bytes: &[u8]) -> (r: &str)
    requires
        valid_utf8(bytes@),
    ensures
        r.spec_bytes() == bytes@,
{
    match utf8_str(bytes) {
        Some(s) => s,
        None => "",
    }
}

} // verus!
