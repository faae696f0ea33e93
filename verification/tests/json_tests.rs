use ra_common::json::JsonValue;
use ra_common::util::string_map::StringMap;

#[test]
fn json_values_clone_deeply() {
    let mut o: StringMap<JsonValue> = StringMap::new();
    o.insert("a".to_string(), JsonValue::Array(vec![JsonValue::from_i64(1), JsonValue::Null]));
    o.insert("b".to_string(), JsonValue::String("s".to_string()));
    let v = JsonValue::Object(o);
    let c = v.clone();
    assert_eq!(c, v);
    assert_eq!(JsonValue::from_i64(i64::MIN), JsonValue::Number("-9223372036854775808".to_string()));
    assert_eq!(JsonValue::String("x".into()).as_str(), Some("x"));
    assert!(JsonValue::Null.as_array().is_none());
}
