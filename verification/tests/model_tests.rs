use ra_common::crypto::hash::HashAlgorithm;
use ra_common::identity::did::{Did, DidStatus, DidType};
use ra_common::identity::pii::PiiClearable;
use ra_common::identity::public_key::PublicKey;
use ra_common::identity::signature::Signature;
use ra_common::json::JsonValue;
use ra_common::messaging::command::{Command, CommandMessage};
use ra_common::messaging::document::DocumentMessage;
use ra_common::messaging::email::Email;
use ra_common::messaging::event::{EventMessage, EventType};
use ra_common::messaging::text::TextMessage;
use ra_common::messaging::Message;
use ra_common::network::{Network, NetworkPeer};
use ra_common::route::external::SimpleExternalRoute;
use ra_common::route::model::{Route, RouteMeta, SimpleRoute};
use ra_common::route::slip::DynamicRoutingSlip;

#[test]
fn defaults_match_java() {
    let d = Did::default();
    assert_eq!(d.username, "Anon");
    assert_eq!(d.status, DidStatus::Inactive);
    assert_eq!(d.did_type, DidType::Identity);
    assert_eq!(d.passphrase_hash_algorithm, HashAlgorithm::Pbkdf2HmacSha1);
}

#[test]
fn clear_sensitive_scrubs() {
    let mut d = Did::with_username("alice".to_string());
    d.passphrase = Some("secret".into());
    d.authenticated = true;
    d.clear_sensitive();
    assert!(d.username.is_empty());
    assert!(d.passphrase.is_none());
    assert_eq!(d.status, DidStatus::Private);
    assert!(!d.authenticated);
}

#[test]
fn passphrase_hash_algorithm_prefers_the_stored_hash() {
    let mut d = Did::default();
    assert_eq!(d.passphrase_hash_algorithm(), HashAlgorithm::Pbkdf2HmacSha1);
    d.passphrase_hash = Some(ra_common::crypto::hash::Hash::new("h".to_string(), HashAlgorithm::Sha512));
    assert_eq!(d.passphrase_hash_algorithm(), HashAlgorithm::Sha512);
}

#[test]
fn signed_attributes() {
    let mut pk = PublicKey::from_address("B32ADDR".to_string());
    let sig = Signature { signed_by_address: Some("signer".into()), ..Default::default() };
    pk.add_signed_attribute("email".to_string(), sig);
    assert_eq!(pk.signed_attributes.get("email").unwrap().len(), 1);
    pk.remove_signature("email", "signer");
    assert!(pk.signed_attributes.get("email").unwrap().is_empty());
}

#[test]
fn signatures_accumulate_and_only_the_signer_is_removed() {
    let mut pk = PublicKey::default();
    for who in ["a", "b", "a"] {
        let sig = Signature { signed_by_address: Some(who.into()), ..Default::default() };
        pk.add_signed_attribute("k".to_string(), sig);
    }
    pk.remove_signature("k", "a");
    let left = pk.signed_attributes.get("k").unwrap();
    assert_eq!(left.len(), 1);
    assert_eq!(left[0].signed_by_address.as_deref(), Some("b"));
    pk.remove_signature("absent", "a");
    assert!(pk.signed_attributes.get("absent").is_none());
    pk.add_attribute("n".to_string(), JsonValue::from_i64(7));
    assert_eq!(pk.attribute("n"), Some(&JsonValue::Number("7".to_string())));
}

#[test]
fn equality_on_address() {
    let mut a = Signature::default();
    let mut b = Signature::default();
    assert_ne!(a, b);
    a.signed_by_address = Some("addr1".into());
    b.signed_by_address = Some("addr1".into());
    assert_eq!(a, b);
}

#[test]
fn primary_bucket_exists() {
    let mut d = DocumentMessage::new();
    assert_eq!(d.data.len(), 1);
    d.put("k".to_string(), JsonValue::from_i64(1));
    assert_eq!(d.get("k"), Some(&JsonValue::from_i64(1)));
}

#[test]
fn document_recreates_a_removed_bucket() {
    let mut d = DocumentMessage::new();
    d.data.clear();
    assert_eq!(d.get("k"), None);
    d.put("k".to_string(), JsonValue::Null);
    assert_eq!(d.data.len(), 1);
    assert_eq!(d.take("k"), Some(JsonValue::Null));
    assert_eq!(d.get("k"), None);
}

#[test]
fn error_messages_shared_api() {
    let mut m = Message::Command(CommandMessage::new(Command::Report));
    m.add_error_message("boom".to_string());
    assert_eq!(m.error_messages(), &vec!["boom".to_string()]);
    m.clear_error_messages();
    assert!(m.error_messages().is_empty());
}

#[test]
fn event_names_and_payload() {
    assert_eq!(EventType::ServiceStatus.as_str(), "SERVICE_STATUS");
    assert_eq!(EventType::NetworkStateUpdate.as_str(), "NETWORK_STATE_UPDATE");
    let mut e = EventMessage::of(EventType::PriceChange);
    assert_eq!(e.event_type, "PRICE_CHANGE");
    assert_eq!(e.id.len(), 36);
    e.set_message(JsonValue::Bool(true));
    assert_eq!(e.message, Some(JsonValue::Bool(true)));
}

#[test]
fn emails_and_texts() {
    let e = Email::anonymous("to@x".to_string(), "s".to_string(), "m".to_string());
    assert!(e.from.is_none());
    assert_eq!(e.message_type, "text/plain");
    let e = Email::new("to@x".to_string(), "me@x".to_string(), "s".to_string(), "m".to_string());
    assert_eq!(e.from.as_deref(), Some("me@x"));
    let t = TextMessage::new(Did::default(), Did::with_username("bob".to_string()), "hi".to_string());
    assert_eq!(t.from.unwrap().username, "bob");
    assert_eq!(t.text.as_deref(), Some("hi"));
}

#[test]
fn equality_needs_address_and_fingerprint() {
    let mut a = NetworkPeer::new(Network::Tor);
    let mut b = NetworkPeer::new(Network::Tor);
    assert_ne!(a, b);
    for p in [&mut a, &mut b] {
        p.did.public_key.address = Some("addr".into());
        p.did.public_key.fingerprint = Some("fp".into());
    }
    assert_eq!(a, b);
}

#[test]
fn peers_with_credentials() {
    let p = NetworkPeer::with_credentials(Network::I2p, "u".to_string(), Some("pw".to_string()));
    assert_eq!(p.network, Network::I2p);
    assert_eq!(p.did.username, "u");
    assert_eq!(p.did.passphrase.as_deref(), Some("pw"));
    assert!(p.services.is_empty());
}

#[test]
fn lifo_walk() {
    let mut slip = DynamicRoutingSlip::new();
    slip.add_route(Route::Simple(SimpleRoute::new("a".into(), "op".into())));
    slip.add_route(Route::Simple(SimpleRoute::new("b".into(), "op".into())));
    slip.add_route(Route::Simple(SimpleRoute::new("c".into(), "op".into())));
    assert_eq!(slip.number_remaining_routes(), 3);

    assert_eq!(slip.next_route().unwrap().service(), Some("c"));
    assert_eq!(slip.next_route().unwrap().service(), Some("b"));
    assert_eq!(slip.peek_at_next_route().unwrap().service(), Some("a"));
    assert_eq!(slip.next_route().unwrap().service(), Some("a"));
    assert!(slip.next_route().is_none());
}

#[test]
fn add_route_stamps_route_id() {
    let mut slip = DynamicRoutingSlip::new();
    slip.add_route(Route::Simple(SimpleRoute::new("a".into(), "op".into())));
    assert_eq!(slip.peek_at_next_route().unwrap().route_id(), slip.meta.route_id);
}

#[test]
fn current_route_starts_the_slip() {
    let mut slip = DynamicRoutingSlip::new();
    assert!(slip.current_route().is_none());
    slip.add_route(Route::external("svc".into(), "op".into()));
    assert_eq!(slip.current_route().unwrap().operation(), Some("op"));
    assert_eq!(slip.current_route().unwrap().operation(), Some("op"));
    assert_eq!(slip.number_remaining_routes(), 0);
}

#[test]
fn route_metadata_accessors() {
    let mut r = Route::simple("s".into(), "o".into());
    assert!(!r.routed());
    r.set_routed(true);
    assert!(r.routed());
    r.set_route_id(77);
    assert_eq!(r.route_id(), 77);
    assert_eq!(r.meta().service.as_deref(), Some("s"));
    let c = r.clone();
    assert_eq!(c.route_id(), 77);
    assert_eq!(c.operation(), Some("o"));
    let m = RouteMeta::of("x".into(), "y".into());
    assert_eq!(m.operation.as_deref(), Some("y"));
    let ext = SimpleExternalRoute::with_peers(
        "s".into(),
        "o".into(),
        NetworkPeer::new(Network::Http),
        NetworkPeer::new(Network::Tor),
    );
    assert!(!ext.send_content_only);
    assert_eq!(ext.destination.unwrap().network, Network::Tor);
}
