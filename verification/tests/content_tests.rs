use ra_common::content::{Content, ContentKind};
use ra_common::file::multipart::Multipart;

#[test]
fn build_text_content() {
    let c = Content::build(
        b"hello".to_vec(),
        "text/plain",
        None,
        Some("greeting".into()),
        true,
        true,
    )
    .unwrap();
    assert_eq!(c.kind, ContentKind::Text);
    assert_eq!(c.size, 5);
    assert!(c.id.is_some());
    assert!(c.hash.is_some());
    assert!(c.fingerprint.is_some());
    assert_eq!(c.version, 1);
    assert_eq!(c.body, Some(b"hello".to_vec()));
    assert_eq!(c.name.as_deref(), Some("greeting"));
    assert_eq!(c.content_type, "text/plain");
}

#[test]
fn set_body_keeps_other_fields() {
    let mut c = Content::new(ContentKind::Text, "text/plain".to_string());
    c.location = Some("here".to_string());
    c.readable = true;
    c.author_alias = Some("alice".to_string());
    assert!(c.set_body(b"abc".to_vec(), false, false).is_ok());
    assert_eq!(c.location.as_deref(), Some("here"));
    assert!(c.readable);
    assert_eq!(c.author_alias.as_deref(), Some("alice"));
    assert_eq!(c.size, 3);
    assert_eq!(c.version, 1);
    assert!(c.hash.is_none());
}

#[test]
fn unsupported_type_errors() {
    assert!(Content::build(vec![], "application/x-tar", None, None, false, false).is_err());
}

#[test]
fn magnet_link_shape() {
    let mut c = Content::new(ContentKind::Binary, "application/octet-stream".to_string());
    c.set_body(vec![1, 2, 3, 4], true, false).unwrap();
    c.add_keyword("alpha".to_string());
    c.add_keyword("beta".to_string());
    let m = c.magnet_link().unwrap();
    assert!(m.starts_with("magnet:?xl=4"));
    assert!(m.contains("kt=alpha+beta"));
}

#[test]
fn content_kinds_follow_mime_types() {
    assert_eq!(ContentKind::for_content_type("application/json"), Some(ContentKind::Json));
    assert_eq!(ContentKind::for_content_type("text/plain"), Some(ContentKind::Text));
    assert_eq!(ContentKind::for_content_type("application/x-tar"), None);
    assert!(ContentKind::Text.is_text());
}

#[test]
fn new_content_is_metadata_only() {
    let mut c = Content::new(ContentKind::Json, "application/json".to_string());
    assert!(c.meta_only());
    c.set_body(b"{}".to_vec(), false, false).unwrap();
    assert!(!c.meta_only());
    assert_eq!(c.size, 2);
}

#[test]
fn builds_form_body() {
    let mut m = Multipart::new("UTF-8".to_string());
    m.add_form_field("a", "1");
    let boundary = m.boundary.clone();
    let out = m.finish();
    assert!(out.contains(&format!("--{boundary}")));
    assert!(out.contains("name=\"a\""));
    assert!(out.trim_end().ends_with(&format!("--{boundary}--")));
}

#[test]
fn form_field_lines() {
    let mut m = Multipart::new("UTF-8".to_string());
    m.add_form_field("name", "value");
    let b = m.boundary.clone();
    let body = m.body().to_string();
    assert!(body.starts_with(&format!("--{b}\r\n")));
    assert!(body.contains("Content-Disposition: form-data; name=\"name\"\r\n"));
    assert!(body.contains("\r\nvalue\r\n"));
}
