use ra_common::crypto::hash::HashAlgorithm;
use ra_common::crypto::hash_util::{
    from_hex, generate_fingerprint, generate_hash, generate_password_hash, to_hex, verify_hash,
    verify_password_hash,
};
use ra_common::crypto::multihash::{Multihash, MultihashType};
use ra_common::crypto::encryption::EncryptionAlgorithm;
use ra_common::encoding::{base32_decode, base32_encode, base58_decode, base58_encode};

#[test]
fn equality_is_on_string() {
    let a = ra_common::crypto::hash::Hash::new("abc".to_string(), HashAlgorithm::Sha256);
    let b = ra_common::crypto::hash::Hash::new("abc".to_string(), HashAlgorithm::Sha1);
    assert_eq!(a, b);
    assert_ne!(a, ra_common::crypto::hash::Hash::new("abd".to_string(), HashAlgorithm::Sha256));
}

#[test]
fn algorithm_names() {
    assert_eq!(HashAlgorithm::Sha256.as_str(), "SHA-256");
    assert_eq!(
        "PBKDF2WithHmacSHA1".parse::<HashAlgorithm>().unwrap(),
        HashAlgorithm::Pbkdf2HmacSha1
    );
}

#[test]
fn algorithm_names_round_trip() {
    for a in [
        HashAlgorithm::Sha1,
        HashAlgorithm::Sha256,
        HashAlgorithm::Sha512,
        HashAlgorithm::Pbkdf2HmacSha1,
    ] {
        assert_eq!(HashAlgorithm::parse(a.as_str()).unwrap(), a);
    }
    assert!(HashAlgorithm::parse("MD5").is_err());
    for e in [EncryptionAlgorithm::Cast5, EncryptionAlgorithm::Aes256, EncryptionAlgorithm::Aes512] {
        assert_eq!(EncryptionAlgorithm::parse(e.as_str()).unwrap(), e);
    }
    assert!(EncryptionAlgorithm::parse("ROT13").is_err());
}

#[test]
fn hex_grouping() {
    assert_eq!(to_hex(&[0x0a, 0x0b, 0x0c, 0x0d, 0x1e]), "0A0B:0C0D:1E");
    assert_eq!(from_hex("0A0B:0C0D:1E").unwrap(), vec![0x0a, 0x0b, 0x0c, 0x0d, 0x1e]);
}

#[test]
fn hex_rejects_bad_digits() {
    assert!(from_hex("0G").is_err());
    assert_eq!(to_hex(&[]), "");
}

#[test]
fn salted_hash_round_trip() {
    let h = generate_hash(b"Alice", HashAlgorithm::Sha256).unwrap();
    assert!(verify_hash(b"Alice", &h, HashAlgorithm::Sha256).unwrap());
    assert!(!verify_hash(b"Bob", &h, HashAlgorithm::Sha256).unwrap());
}

#[test]
fn password_hash_round_trip() {
    let h = generate_password_hash("hunter2");
    assert!(h.starts_with("1000_"));
    assert!(verify_password_hash("hunter2", &h));
    assert!(!verify_password_hash("hunter3", &h));
}

#[test]
fn password_hash_fields_have_fixed_lengths() {
    let h = generate_password_hash("hunter2");
    assert_eq!(h.len(), 118);
    let parts: Vec<&str> = h.split('_').collect();
    assert_eq!(parts.len(), 3);
    assert_eq!(parts[0], "1000");
    assert_eq!(parts[1].len(), 24);
    assert_eq!(parts[2].len(), 88);
}

#[test]
fn fingerprint_lengths_follow_the_digest() {
    assert_eq!(generate_fingerprint(b"x", HashAlgorithm::Sha1).unwrap().len(), 49);
    assert_eq!(generate_fingerprint(b"x", HashAlgorithm::Sha256).unwrap().len(), 79);
    assert_eq!(generate_fingerprint(b"x", HashAlgorithm::Sha512).unwrap().len(), 159);
}

#[test]
fn password_hash_via_generate_hash() {
    let h = generate_hash(b"pw", HashAlgorithm::Pbkdf2HmacSha1).unwrap();
    assert!(verify_hash(b"pw", &h, HashAlgorithm::Pbkdf2HmacSha1).unwrap());
}

#[test]
fn fingerprint_is_stable() {
    let a = generate_fingerprint(b"x", HashAlgorithm::Sha1).unwrap();
    let b = generate_fingerprint(b"x", HashAlgorithm::Sha1).unwrap();
    assert_eq!(a, b);
    assert!(a.contains(':'));
}

#[test]
fn fingerprint_of_known_input() {
    // SHA-1("abc") = a9993e36 4706816a ba3e2571 7850c26c 9cd0d89d
    assert_eq!(
        generate_fingerprint(b"abc", HashAlgorithm::Sha1).unwrap(),
        "A999:3E36:4706:816A:BA3E:2571:7850:C26C:9CD0:D89D"
    );
}

fn sample() -> Multihash {
    Multihash::new(MultihashType::Sha2_256, vec![0xAB; 32]).unwrap()
}

#[test]
fn bytes_round_trip() {
    let m = sample();
    let bytes = m.to_bytes();
    assert_eq!(bytes[0], 0x12);
    assert_eq!(bytes[1], 32);
    assert_eq!(Multihash::from_bytes(&bytes).unwrap(), m);
}

#[test]
fn hex_and_base58_round_trip() {
    let m = sample();
    assert_eq!(Multihash::from_hex(&m.to_hex()).unwrap(), m);
    assert_eq!(Multihash::from_base58(&m.to_base58()).unwrap(), m);
}

#[test]
fn length_is_validated() {
    assert!(Multihash::new(MultihashType::Sha1, vec![0; 10]).is_err());
    assert!(MultihashType::from_code(0x99).is_err());
}

#[test]
fn multihash_codes_round_trip() {
    for t in [MultihashType::Sha1, MultihashType::Sha2_256, MultihashType::Sha2_512] {
        assert_eq!(MultihashType::from_code(t.code()).unwrap(), t);
    }
    assert_eq!(MultihashType::Sha1.length(), 20);
}

#[test]
fn base32_round_trip() {
    let data = b"resolving architecture";
    let enc = base32_encode(data);
    assert!(enc.bytes().all(|b| b.is_ascii_uppercase() || (b'2'..=b'7').contains(&b)));
    assert_eq!(base32_decode(&enc).unwrap(), data);
}

#[test]
fn base58_known_vector() {
    assert_eq!(base58_encode(b"Hello World!"), "2NEpo7TZRRrLZSi2U");
    assert_eq!(base58_decode("2NEpo7TZRRrLZSi2U").unwrap(), b"Hello World!");
}

#[test]
fn base58_rejects_bad_char() {
    assert!(base58_decode("0OIl").is_err());
}

#[test]
fn multihash_from_base58_rejects_bad_char() {
    assert!(matches!(Multihash::from_base58("0OIl"), Err(ra_common::error::RaError::Decode(_))));
}

#[test]
fn base32_rejects_lower_case() {
    assert!(base32_decode("mzxw6").is_err());
    assert_eq!(base32_encode(b"foo"), "MZXW6");
}

#[test]
fn sha256_fingerprint_of_known_input() {
    assert_eq!(
        generate_fingerprint(b"abc", HashAlgorithm::Sha256).unwrap().replace(':', ""),
        "BA7816BF8F01CFEA414140DE5DAE2223B00361A396177A9CB410FF61F20015AD"
    );
}

#[test]
fn salted_hashes_of_known_salt_verify() {
    let h256 = "OuEZcZrktyzzH+CfUKRMPtZlnjOWY+QZKByqmbqyW6I=_MDEyMzQ1Njc4OWFiY2RlZg==";
    assert!(verify_hash(b"Alice", h256, HashAlgorithm::Sha256).unwrap());
    assert!(!verify_hash(b"Alicf", h256, HashAlgorithm::Sha256).unwrap());
    let h512 = "o9KtuxDU2lcPAyq9o8/b+5RhbD3Zg8fN972uWft7kuLo4ItEaKTQflXZDsXvkfDgtMN+lQ88T+apQ5o8JY1S/Q==_MDEyMzQ1Njc4OWFiY2RlZg==";
    assert!(verify_hash(b"Alice", h512, HashAlgorithm::Sha512).unwrap());
}

#[test]
fn pbkdf2_known_vector_verifies() {
    // PBKDF2-HMAC-SHA1, password "password", salt "salt", one iteration, 20 bytes.
    assert!(verify_password_hash("password", "1_c2FsdA==_DGDID5YfDnHzqbUkr2ASBi/gN6Y="));
    assert!(!verify_password_hash("passwore", "1_c2FsdA==_DGDID5YfDnHzqbUkr2ASBi/gN6Y="));
    assert!(!verify_password_hash("password", "not a hash"));
}

#[test]
fn multihash_text_forms_of_known_digest() {
    let m = Multihash::new(MultihashType::Sha1, vec![0x0F; 20]).unwrap();
    assert_eq!(m.to_hex(), format!("1114{}", "0f".repeat(20)));
    assert_eq!(Multihash::from_hex(&format!("1114{}", "0F".repeat(20))).unwrap(), m);
}

#[test]
fn password_hashing_needs_utf8() {
    assert!(generate_hash(&[0xFF, 0xFE], HashAlgorithm::Pbkdf2HmacSha1).is_err());
    assert!(generate_hash(&[0xFF, 0xFE], HashAlgorithm::Sha1).is_ok());
}
