use obfstr::bytes;
use obfstr::words;
use obfstr::{decode_lossy, entropy, hash, seed, splitmix, unsafe_as_str, wide, wide_len};
use obfstr::{ObfBuffer, ObfString};

const LONG_STRING: &str =
    "This literal is very very very long to see if it correctly handles long strings";

fn site_key(line: u32, column: u32) -> u32 {
    entropy(seed(""), "tests/obfstr.rs", line, column) as u32
}

#[test]
fn test_obfstr_let() {
    let abc = ObfString::<[u8; 3]>::obfuscate(site_key(1, 1), "abc").deobfuscate(0);
    let def = ObfString::<[u8; 6]>::obfuscate(site_key(2, 1), "defdef").deobfuscate(0);
    assert_eq!(abc.as_str(), "abc");
    assert_eq!(def.as_str(), "defdef");
    let hello = ObfString::<[u16; 5]>::obfuscate(site_key(3, 1), "hello").deobfuscate(0);
    let world = ObfString::<[u16; 5]>::obfuscate(site_key(4, 1), "world").deobfuscate(0);
    assert_eq!(hello.as_slice(), &wide::<5>("hello")[..]);
    assert_eq!(world.as_slice(), &wide::<5>("world")[..]);
}

#[test]
fn test_obfstr_const() {
    let a = ObfString::<[u8; 2]>::obfuscate(site_key(5, 1), "\u{20}\0").deobfuscate(0);
    assert_eq!(a.as_str(), " \0");
    let b = ObfString::<[u8; 6]>::obfuscate(site_key(6, 1), "\"\n\t\\\'\"").deobfuscate(0);
    assert_eq!(b.as_str(), "\"\n\t\\\'\"");
    let long = ObfString::<[u8; 79]>::obfuscate(site_key(7, 1), LONG_STRING).deobfuscate(0);
    assert_eq!(long.as_str(), LONG_STRING);

    const ABC: &str = "ABC";
    const WORLD: &str = "\u{1F30D}";
    let abc = ObfString::<[u16; 3]>::obfuscate(site_key(8, 1), ABC).deobfuscate(0);
    assert_eq!(abc.as_slice(), &[b'A' as u16, b'B' as u16, b'C' as u16]);
    let world = ObfString::<[u16; 2]>::obfuscate(site_key(9, 1), WORLD).deobfuscate(0);
    assert_eq!(world.as_slice(), &[0xd83c, 0xdf0d]);
}

#[test]
fn test_obfconst_equals() {
    assert!(LONG_STRING == ObfString::<[u8; 79]>::obfuscate(site_key(10, 1), LONG_STRING));
    let text = "Hello \u{f0}\u{178}\u{152}\u{8d}";
    assert!(text == ObfString::<[u8; 14]>::obfuscate(site_key(11, 1), text));
}

#[test]
fn hash_reference_vector() {
    assert_eq!(hash("Hello World"), 1481604729);
    assert_eq!(hash(""), 3581);
    assert_eq!(hash("a"), 118270);
}

#[test]
fn splitmix_exact_values() {
    assert_eq!(splitmix(0), 16294208416658607535);
    assert_eq!(splitmix(1), 10451216379200822465);
}

#[test]
fn seed_and_entropy_exact_values() {
    let s = seed("");
    assert_eq!(s, 14252473448421492603);
    assert_eq!(entropy(s, "src/main.rs", 10, 5), 2611495151327333844);
}

#[test]
fn entropy_is_deterministic_and_site_dependent() {
    let s = seed("build");
    assert_eq!(entropy(s, "a.rs", 3, 4), entropy(s, "a.rs", 3, 4));
    assert_ne!(entropy(s, "a.rs", 3, 4), entropy(s, "a.rs", 3, 5));
    assert_ne!(entropy(s, "a.rs", 3, 4), entropy(s, "b.rs", 3, 4));
}

#[test]
fn keystream_exact_values() {
    assert_eq!(bytes::keystream::<5>(7), [215, 69, 120, 14, 58]);
    assert_eq!(words::keystream::<3>(7), [3543, 52805, 23928]);
}

#[test]
fn keystream_is_deterministic() {
    assert_eq!(bytes::keystream::<32>(0xdead_beef), bytes::keystream::<32>(0xdead_beef));
    assert_eq!(words::keystream::<32>(0xdead_beef), words::keystream::<32>(0xdead_beef));
}

#[test]
fn keystream_prefix() {
    let long = bytes::keystream::<16>(42);
    let short = bytes::keystream::<5>(42);
    assert_eq!(&long[..5], &short[..]);
    let long = words::keystream::<16>(42);
    let short = words::keystream::<9>(42);
    assert_eq!(&long[..9], &short[..]);
}

#[test]
fn round_trip_bytes_and_words() {
    let text = b"round trip";
    let ks = bytes::keystream::<10>(99);
    let data = bytes::obfuscate::<10>(text, &ks);
    assert_ne!(&data, text);
    assert_eq!(&bytes::deobfuscate::<10>(&data, &ks), text);

    let units = [0x41u16, 0xd83c, 0xdf0d, 0];
    let ks = words::keystream::<4>(99);
    let data = words::obfuscate::<4>(&units, &ks);
    assert_ne!(data, units);
    assert_eq!(words::deobfuscate::<4>(&data, &ks), units);
}

#[test]
fn obfuscate_xors_with_keystream() {
    let data = bytes::obfuscate::<3>(&[0, 0xff, 0x0f], &[0x12, 0x34, 0xf0]);
    assert_eq!(data, [0x12, 0xcb, 0xff]);
    let data = words::obfuscate::<2>(&[0x0000, 0xffff], &[0x1234, 0x00ff]);
    assert_eq!(data, [0x1234, 0xff00]);
}

#[test]
fn equals_agrees_with_text() {
    let ks = bytes::keystream::<5>(1234);
    let data = bytes::obfuscate::<5>(b"hello", &ks);
    assert!(bytes::equals::<5>(&data, &ks, b"hello"));
    assert!(!bytes::equals::<5>(&data, &ks, b"hellp"));
    assert!(!bytes::equals::<5>(&data, &ks, b"hell"));
    assert!(!bytes::equals::<5>(&data, &ks, b"hello!"));

    let ks = words::keystream::<2>(1234);
    let data = words::obfuscate::<2>(&[1, 2], &ks);
    assert!(words::equals::<2>(&data, &ks, &[1, 2]));
    assert!(!words::equals::<2>(&data, &ks, &[1, 3]));
    assert!(!words::equals::<2>(&data, &ks, &[1]));
}

#[test]
fn equals_on_empty_text() {
    let ks = bytes::keystream::<0>(5);
    let data = bytes::obfuscate::<0>(b"", &ks);
    assert!(bytes::equals::<0>(&data, &ks, b""));
    assert!(!bytes::equals::<0>(&data, &ks, b"x"));
}

#[test]
fn obf_string_equality_both_ways() {
    let o = ObfString::<[u8; 5]>::obfuscate(77, "hello");
    assert!(o == "hello");
    assert!(o != "world");
    assert!(o != "hell");
    assert!("hello" == o);
    assert!("hello!" != o);
}

#[test]
fn zero_length_round_trip() {
    let o = ObfString::<[u8; 0]>::obfuscate(3, "");
    assert_eq!(o.deobfuscate(0).as_str(), "");
    assert!("" == o);
    let w = ObfString::<[u16; 0]>::obfuscate(3, "");
    assert_eq!(w.deobfuscate(0).as_slice(), &[] as &[u16]);
    assert_eq!(bytes::keystream::<0>(3), []);
    assert_eq!(wide_len(""), 0);
}

#[test]
fn wide_conversion() {
    assert_eq!(wide_len("Wide\0"), 5);
    let expected = ['W' as u16, 'i' as u16, 'd' as u16, 'e' as u16, 0];
    assert_eq!(wide::<5>("Wide\0"), expected);
}

#[test]
fn wide_surrogate_pair() {
    assert_eq!(wide_len("\u{1F30D}"), 2);
    let units = wide::<2>("\u{1F30D}");
    assert_eq!(units, [0xd83c, 0xdf0d]);
    let hi = units[0] as u32 - 0xD800;
    let lo = units[1] as u32 - 0xDC00;
    assert_eq!(0x10000 + hi * 0x400 + lo, 0x1F30D);
    assert_eq!(wide::<2>("\u{10FFFF}"), [0xdbff, 0xdfff]);
    assert_eq!(wide::<2>("\u{10000}"), [0xd800, 0xdc00]);
}

#[test]
fn wide_mixed_widths() {
    let s = "a\u{e9}\u{20ac}\u{1F600}";
    assert_eq!(wide_len(s), 5);
    assert_eq!(wide::<5>(s), [0x61, 0xe9, 0x20ac, 0xd83d, 0xde00]);
}

#[test]
fn decode_lossy_replaces_bad_surrogates() {
    assert_eq!(decode_lossy(&[0x48, 0xd83c, 0xdf0d]), vec!['H', '\u{1F30D}']);
    assert_eq!(decode_lossy(&[0xd83c, 0x41]), vec!['\u{FFFD}', 'A']);
    assert_eq!(decode_lossy(&[0xdf0d, 0xd83c]), vec!['\u{FFFD}', '\u{FFFD}']);
    assert_eq!(decode_lossy(&[]), Vec::<char>::new());
}

#[test]
fn word_buffer_to_chars() {
    let o = ObfString::<[u16; 3]>::obfuscate(11, "a\u{1F30D}");
    assert_eq!(o.deobfuscate(0).to_chars(), vec!['a', '\u{1F30D}']);
    let b = ObfBuffer([0xd800u16, 0x62]);
    assert_eq!(b.to_chars(), vec!['\u{FFFD}', 'b']);
}

#[test]
fn as_str_views() {
    assert_eq!(unsafe_as_str(b"plain"), "plain");
    let b = ObfBuffer(*b"text");
    assert_eq!(b.as_str(), "text");
    assert_eq!(b.as_slice(), b"text");
}

#[test]
fn avalanche_is_about_half() {
    let mut total: u32 = 0;
    let n: u64 = 1000;
    for x in 0..n {
        let d = (splitmix(x) ^ splitmix(x + 1)).count_ones();
        assert!(d >= 10 && d <= 54, "too few or too many bits changed for {}", x);
        total += d;
    }
    let mean = total as f64 / n as f64;
    assert!(mean > 28.0 && mean < 36.0);
}
