use ra_common::crypto::hashcash::{
    deserialize_extensions, leading_zero_bits, serialize_extensions, HashCash, TokenDate,
};
use ra_common::util::string_map::StringMap;

#[test]
fn mint_then_verify() {
    let hc = HashCash::mint("brian@resolvingarchitecture.io", 12).unwrap();
    assert!(hc.computed_bits() >= 12);
    assert!(hc.is_valid_for("brian@resolvingarchitecture.io", 12));
    assert!(!hc.is_valid_for("someone.else", 12));

    let reparsed = HashCash::parse(hc.token()).unwrap();
    assert_eq!(reparsed.resource(), hc.resource());
    assert!(reparsed.value() >= 12);
}

#[test]
fn rejects_bad_shape() {
    assert!(HashCash::parse("9:bogus").is_err());
    assert!(HashCash::parse("1:20:250101:res").is_err());
    assert!(HashCash::mint("has:colon", 4).is_err());
}

#[test]
fn leading_zero_count() {
    assert_eq!(leading_zero_bits(&[0x00, 0x00, 0x0F]), 20);
    assert_eq!(leading_zero_bits(&[0xFF]), 0);
    assert_eq!(leading_zero_bits(&[0x00, 0x00]), 16);
}

#[test]
fn leading_zeros_of_single_bytes() {
    assert_eq!(leading_zero_bits(&[]), 0);
    assert_eq!(leading_zero_bits(&[0x01]), 7);
    assert_eq!(leading_zero_bits(&[0x80, 0x00]), 0);
    assert_eq!(leading_zero_bits(&[0x00, 0x40]), 9);
}

#[test]
fn mint_rejects_bad_arguments() {
    let d = TokenDate::new(2025, 1, 1).unwrap();
    assert!(HashCash::mint_with("r", StringMap::new(), d, 4, 2).is_err());
    let d = TokenDate::new(2025, 1, 1).unwrap();
    assert!(HashCash::mint_with("r", StringMap::new(), d, 161, 1).is_err());
    let mut ext: StringMap<Vec<String>> = StringMap::new();
    ext.insert("bad;key".to_string(), Vec::new());
    let d = TokenDate::new(2025, 1, 1).unwrap();
    assert!(HashCash::mint_with("r", ext, d, 4, 1).is_err());
}

#[test]
fn minted_token_reads_back_its_fields() {
    let mut ext: StringMap<Vec<String>> = StringMap::new();
    ext.insert("b".to_string(), vec!["x".to_string(), "y=z".to_string()]);
    ext.insert("a".to_string(), Vec::new());
    let d = TokenDate::new(2024, 2, 29).unwrap();
    let hc = HashCash::mint_with("me@example.org", ext, d, 8, 1).unwrap();
    let t = hc.token().to_string();
    assert!(t.starts_with("1:8:240229:me@example.org:a;b=x,y=z:"));
    let back = HashCash::parse(&t).unwrap();
    assert_eq!(back.version(), 1);
    assert_eq!(back.value(), 8);
    assert_eq!(back.resource(), "me@example.org");
    assert_eq!(back.date(), d);
    let e = back.extensions();
    assert_eq!(e.len(), 2);
    assert_eq!(e.get("a").unwrap().len(), 0);
    assert_eq!(e.get("b").unwrap(), &vec!["x".to_string(), "y=z".to_string()]);
    let parsed: HashCash = t.parse().unwrap();
    assert_eq!(parsed.token(), t);
}

#[test]
fn version_zero_token_value_is_its_digest() {
    let d = TokenDate::new(2030, 12, 31).unwrap();
    let hc = HashCash::mint_with("res", StringMap::new(), d, 4, 0).unwrap();
    assert!(hc.token().starts_with("0:301231:res::"));
    assert_eq!(hc.value(), hc.computed_bits());
    let back = HashCash::parse(hc.token()).unwrap();
    assert_eq!(back.version(), 0);
    assert_eq!(back.value(), hc.computed_bits());
}

#[test]
fn extension_field_round_trip() {
    let mut ext: StringMap<Vec<String>> = StringMap::new();
    ext.insert("k".to_string(), vec!["".to_string(), "v".to_string()]);
    ext.insert("flag".to_string(), Vec::new());
    let text = serialize_extensions(&ext).unwrap();
    assert_eq!(text, "flag;k=,v");
    let back = deserialize_extensions(&text);
    assert_eq!(back, ext);
    assert_eq!(deserialize_extensions("").len(), 0);
    assert_eq!(serialize_extensions(&StringMap::new()).unwrap(), "");
}

#[test]
fn extension_values_may_not_hold_separators() {
    let mut ext: StringMap<Vec<String>> = StringMap::new();
    ext.insert("k".to_string(), vec!["a,b".to_string()]);
    assert!(serialize_extensions(&ext).is_err());
}

#[test]
fn later_extension_keys_replace_earlier_ones() {
    let m = deserialize_extensions("a=1;a=2,3;b");
    assert_eq!(m.len(), 2);
    assert_eq!(m.get("a").unwrap(), &vec!["2".to_string(), "3".to_string()]);
    assert_eq!(m.get("b").unwrap().len(), 0);
}

#[test]
fn token_dates() {
    assert!(TokenDate::new(2023, 2, 29).is_none());
    assert!(TokenDate::new(2024, 2, 29).is_some());
    assert!(TokenDate::new(2024, 13, 1).is_none());
    let d = TokenDate::new(1999, 7, 4).unwrap();
    assert_eq!(d.yymmdd(), "990704");
    assert_eq!(TokenDate::from_yymmdd("990704").unwrap(), d);
    assert_eq!(TokenDate::from_yymmdd("250101").unwrap().year(), 2025);
    assert!(TokenDate::from_yymmdd("251301").is_err());
    let today = TokenDate::today();
    assert!(today.month() >= 1 && today.month() <= 12);
}

#[test]
fn parse_checks_version_and_bits() {
    assert!(HashCash::parse("2:1:2:3:4:5:6").is_err());
    assert!(HashCash::parse("1:x:250101:r::a:b").is_err());
    assert!(HashCash::parse("1:4:259901:r::a:b").is_err());
    let hc = HashCash::parse("1:4:250101:r::a:b").unwrap();
    assert!(hc.value() <= 4);
    assert_eq!(hc.value(), hc.computed_bits().min(4));
}
