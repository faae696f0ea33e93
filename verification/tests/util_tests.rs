use ra_common::util::bytes::{
    pack_big_endian, pack_little_endian, unpack_big_endian, unpack_little_endian,
};
use ra_common::util::nonce::Nonce;
use ra_common::util::random::{next_int_in, next_long_in, random_alphanumeric, random_bytes};
use ra_common::util::string_map::StringMap;
use ra_common::util::strings::{capitalize, capitalize_first};
use ra_common::util::unique_id::{UniqueId, LENGTH};
use ra_common::envelope::Envelope;
use ra_common::util::version::version_compare;
use std::cmp::Ordering::{Equal, Greater, Less};

#[test]
fn round_trips() {
    for v in [0i32, 1, -1, 42, i32::MIN, i32::MAX, 0x0A0B_0C0D] {
        assert_eq!(pack_big_endian(&unpack_big_endian(v)), v);
        assert_eq!(pack_little_endian(&unpack_little_endian(v)), v);
    }
}

#[test]
fn endianness() {
    assert_eq!(unpack_big_endian(0x0102_0304), [1, 2, 3, 4]);
    assert_eq!(unpack_little_endian(0x0102_0304), [4, 3, 2, 1]);
}

#[test]
fn packing_reads_only_four_bytes() {
    assert_eq!(pack_big_endian(&[0xFF, 0xFF, 0xFF, 0xFE]), -2);
    assert_eq!(pack_little_endian(&[0x01, 0x00, 0x00, 0x80]), i32::MIN + 1);
}

#[test]
fn rejects_replays() {
    let mut n = Nonce::default();
    assert!(n.continue_on(1));
    assert!(n.continue_on(2));
    assert!(!n.continue_on(1));
    assert_eq!(n.len(), 2);
}

#[test]
fn prunes_oldest() {
    let mut n = Nonce::new(4, 50);
    for id in 0..5 {
        n.continue_on(id);
    }
    n.continue_on(100);
    assert!(n.continue_on(0));
}

#[test]
fn nonce_starts_empty() {
    let n = Nonce::new(10, 10);
    assert!(n.is_empty());
    assert_eq!(n.len(), 0);
}

#[test]
fn alphanumeric_shape() {
    let s = random_alphanumeric(64);
    assert_eq!(s.len(), 64);
    assert!(s.chars().all(|c| c.is_ascii_alphanumeric()));
}

#[test]
fn ranges_hold() {
    for _ in 0..1000 {
        let v = next_int_in(-5, 5);
        assert!((-5..5).contains(&v));
    }
}

#[test]
fn long_ranges_and_byte_counts_hold() {
    for _ in 0..100 {
        let v = next_long_in(10, 12);
        assert!(v == 10 || v == 11);
    }
    assert_eq!(random_bytes(17).len(), 17);
}

#[test]
fn first() {
    assert_eq!(capitalize_first(""), "");
    assert_eq!(capitalize_first("a"), "A");
    assert_eq!(capitalize_first("abc def"), "Abc def");
}

#[test]
fn all_words() {
    assert_eq!(capitalize(""), "");
    assert_eq!(capitalize("one two three"), "One Two Three");
    assert_eq!(capitalize("  leading"), "  Leading");
}

#[test]
fn base64_round_trip() {
    let id = UniqueId::random();
    let s = id.to_base64();
    assert_eq!(s.len(), 44);
    assert_eq!(UniqueId::from_base64(&s).unwrap(), id);
}

#[test]
fn ordering_is_unsigned() {
    let lo = UniqueId::from_bytes([0x00; LENGTH]);
    let hi = UniqueId::from_bytes([0xFF; LENGTH]);
    assert!(lo < hi);
}

#[test]
fn from_slice_offset() {
    let mut buf = vec![9u8; 40];
    buf[8..40].copy_from_slice(&[7u8; 32]);
    let id = UniqueId::from_slice(&buf, 8).unwrap();
    assert_eq!(id.as_bytes(), &[7u8; 32]);
    assert!(UniqueId::from_slice(&buf, 9).is_err());
}

#[test]
fn basics() {
    assert_eq!(version_compare("1.0", "1.0"), Equal);
    assert_eq!(version_compare("1.0", "1.1"), Less);
    assert_eq!(version_compare("1.2", "1.1"), Greater);
    assert_eq!(version_compare("2.0", "2.0.0"), Less);
    assert_eq!(version_compare("2.0.1", "2.0"), Greater);
}

#[test]
fn ignores_non_digits() {
    assert_eq!(version_compare("8ea", "8"), Equal);
    assert_eq!(version_compare("8-ea", "8"), Greater);
    assert_eq!(version_compare("1.8.0_275", "1.8.0_271"), Greater);
}

#[test]
fn overflowing_segment_reads_as_missing() {
    // A segment too large for an i64 reads as -1 and is skipped like one
    // without digits, so the next segment is compared in its place.
    assert_eq!(version_compare("9999999999999999999.5", "5"), Equal);
    assert_eq!(version_compare("9223372036854775807", "9223372036854775806"), Greater);
    assert_eq!(version_compare("9223372036854775808.1", "2"), Less);
}

#[test]
fn version_order_is_antisymmetric_on_samples() {
    let samples = ["1", "1.0", "1.2.3", "0.9", "10", "2.0.0", ""];
    for a in samples {
        for b in samples {
            assert_eq!(version_compare(a, b), version_compare(b, a).reverse());
        }
        assert_eq!(version_compare(a, a), Equal);
    }
}

#[test]
fn string_map_keeps_keys_sorted_and_reads_back_writes() {
    let mut m: StringMap<u32> = StringMap::new();
    assert_eq!(m.insert("b".to_string(), 2), None);
    assert_eq!(m.insert("a".to_string(), 1), None);
    assert_eq!(m.insert("c".to_string(), 3), None);
    assert_eq!(m.insert("b".to_string(), 20), Some(2));
    assert_eq!(m.len(), 3);
    assert_eq!(m.key_at(0), "a");
    assert_eq!(m.key_at(1), "b");
    assert_eq!(m.key_at(2), "c");
    assert_eq!(m.get("b"), Some(&20));
    assert_eq!(m.remove("a"), Some(1));
    assert_eq!(m.get("a"), None);
    assert!(!m.contains_key("a"));
    assert!(m.contains_key("c"));
    let c = m.clone();
    assert_eq!(c.len(), 2);
    assert_eq!(c.value_at(0), &20);
}

#[test]
fn random_ids_have_uuid_shape() {
    let id = Envelope::default().id;
    assert_eq!(id.len(), 36);
    let b = id.as_bytes();
    for (i, c) in b.iter().enumerate() {
        if i == 8 || i == 13 || i == 18 || i == 23 {
            assert_eq!(*c, b'-');
        } else {
            assert!(c.is_ascii_digit() || (b'a'..=b'f').contains(c));
        }
    }
    assert_eq!(b[14], b'4');
    assert!(b"89ab".contains(&b[19]));
    assert_ne!(Envelope::default().id, id);
}

#[test]
fn base64_of_known_identifier() {
    let id = UniqueId::from_bytes([0u8; LENGTH]);
    assert_eq!(id.to_base64(), format!("{}=", "A".repeat(43)));
    let id = UniqueId::from_bytes([0xFF; LENGTH]);
    assert_eq!(id.to_base64(), format!("{}8=", "/".repeat(42)));
}
