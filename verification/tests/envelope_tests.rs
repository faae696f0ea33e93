use ra_common::envelope::{Envelope, HEADER_CONTENT_TYPE_JSON};
use ra_common::json::JsonValue;
use ra_common::messaging::event::EventType;
use ra_common::messaging::Message;

#[test]
fn factories_set_message_kind() {
    assert!(Envelope::document().message.unwrap().as_document().is_some());
    assert!(Envelope::command().message.unwrap().as_command().is_some());
    assert!(Envelope::event(EventType::BusStatus).message.unwrap().as_event().is_some());
    assert!(Envelope::headers_only().message.is_none());
}

#[test]
fn content_round_trips_through_document() {
    let mut e = Envelope::document();
    assert!(e.add_content(JsonValue::String("hello".into())));
    assert_eq!(e.content(), Some(&JsonValue::String("hello".into())));

    let mut cmd = Envelope::command();
    assert!(!cmd.add_content(JsonValue::Null));
}

#[test]
fn exceptions_accumulate() {
    let mut e = Envelope::document();
    e.add_exception("first".to_string());
    e.add_exception("second".to_string());
    assert_eq!(e.exceptions(), vec!["first", "second"]);
}

#[test]
fn ratchet_walks_the_slip() {
    let mut e = Envelope::document();
    e.add_route("ra.a.ServiceA".to_string(), "OP".to_string());
    e.add_route("ra.b.ServiceB".to_string(), "OP".to_string());
    e.ratchet();
    assert_eq!(e.route.as_ref().unwrap().service(), Some("ra.b.ServiceB"));
    e.ratchet();
    assert_eq!(e.route.as_ref().unwrap().service(), Some("ra.a.ServiceA"));
    e.ratchet();
    assert!(e.route.is_none());
}

#[test]
fn equality_is_by_id() {
    let a = Envelope::document_with_id("same".to_string());
    let b = Envelope::document_with_id("same".to_string());
    assert_eq!(a, b);
    assert_ne!(Envelope::document(), Envelope::document());
}

#[test]
fn headers_and_content_type() {
    let mut e = Envelope::headers_only();
    assert_eq!(e.content_type(), None);
    e.set_content_type(HEADER_CONTENT_TYPE_JSON.to_string());
    assert_eq!(e.content_type(), Some("application/json"));
    e.set_header("x".to_string(), JsonValue::Bool(true));
    assert!(e.header_exists("x"));
    assert_eq!(e.header("x"), Some(&JsonValue::Bool(true)));
    e.remove_header("x");
    assert!(!e.header_exists("x"));
    e.set_header("Content-Type".to_string(), JsonValue::from_i64(5));
    assert_eq!(e.content_type(), None);
}

#[test]
fn entity_and_named_values() {
    let mut e = Envelope::document();
    assert!(e.add_entity(JsonValue::from_i64(-42)));
    assert_eq!(e.entity(), Some(&JsonValue::Number("-42".to_string())));
    assert!(e.add_nvp("k".to_string(), JsonValue::Null));
    assert_eq!(e.value("k"), Some(&JsonValue::Null));
    assert_eq!(e.values().unwrap().len(), 2);
    assert!(e.content().is_none());
    let mut h = Envelope::headers_only();
    assert!(!h.add_exception("x".to_string()));
    assert!(h.exceptions().is_empty());
}

#[test]
fn exception_over_non_list_starts_a_new_list() {
    let mut e = Envelope::document();
    e.add_nvp("EXCEPTIONS".to_string(), JsonValue::Bool(false));
    e.add_exception("only".to_string());
    assert_eq!(e.exceptions(), vec!["only"]);
}

#[test]
fn error_messages_and_markers() {
    let mut e = Envelope::command();
    e.add_error_message("boom".to_string());
    assert_eq!(e.error_messages(), vec!["boom".to_string()]);
    let mut h = Envelope::headers_only();
    h.add_error_message("ignored".to_string());
    assert!(h.error_messages().is_empty());
    assert!(!e.marker_present("seen"));
    e.mark("seen".to_string());
    assert!(e.marker_present("seen"));
}

#[test]
fn route_falls_back_to_the_slip() {
    let mut e = Envelope::default();
    assert!(e.route().is_none());
    e.add_external_route("ra.x.Remote".to_string(), "GET".to_string());
    assert_eq!(e.route().unwrap().service(), Some("ra.x.Remote"));
    assert_eq!(e.dynamic_routing_slip.number_remaining_routes(), 0);
    match e.message {
        None => {}
        Some(Message::Document(_)) | Some(_) => panic!("default envelope has no message"),
    }
}

#[test]
fn default_envelope_settings() {
    let e = Envelope::default();
    assert_eq!(e.id.len(), 36);
    assert_eq!(e.sensitivity, 1);
    assert_eq!(e.did.username, "Anon");
    assert!(e.headers.is_empty());
    assert_eq!(e.dynamic_routing_slip.number_remaining_routes(), 0);
}
