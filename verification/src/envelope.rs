//! The envelope: the wrapper passed between services, with header and routing
//! metadata around one message.

use crate::file::multipart::Multipart;
use crate::identity::did::{is_fresh_did, Did};
use crate::json::{JsonObject, JsonValue};
use crate::messaging::command::CommandMessage;
use crate::messaging::document::{primary_value, DocumentMessage, CONTENT, ENTITY, EXCEPTIONS};
use crate::messaging::event::{EventMessage, EventType};
use crate::messaging::text::TextMessage;
use crate::messaging::{message_errors, Message};
use crate::route::model::{same_route, Route};
use crate::route::slip::DynamicRoutingSlip;
use crate::service::status::ServiceLevel;
use crate::text::{owned, str_eq};
use crate::util::string_map::{
    lemma_lookup_after_insert_all, lemma_lookup_after_remove, lookup, sorted_insert, without_key,
    StringMap,
};
use crate::util::uuid_text::{is_uuid_v4_text, new_uuid_v4};
use vstd::prelude::*;

verus! {

/// `Authorization` header name.
pub const HEADER_AUTHORIZATION: &'static str = "Authorization";

/// `Content-Disposition` header name.
pub const HEADER_CONTENT_DISPOSITION: &'static str = "Content-Disposition";

/// `Content-Transfer-Encoding` header name.
pub const HEADER_CONTENT_TRANSFER_ENCODING: &'static str = "Content-Transfer-Encoding";

/// `Content-Type` header name.
pub const HEADER_CONTENT_TYPE: &'static str = "Content-Type";

/// The JSON content type.
pub const HEADER_CONTENT_TYPE_JSON: &'static str = "application/json";

/// `User-Agent` header name.
pub const HEADER_USER_AGENT: &'static str = "User-Agent";

/// Which kind of message an envelope carries.
#[derive(Debug, Clone, Copy, PartialEq, Eq, Hash, Structural)]
pub enum MessageType {
    Document,
    Text,
    Event,
    Command,
    /// Headers only, no message.
    NoMessage,
}

/// The REST-like verb an envelope represents.
#[derive(Debug, Clone, Copy, PartialEq, Eq, Hash, Structural)]
pub enum Action {
    Post,
    Put,
    Delete,
    Get,
}

/// Wraps everything passed around an application, so that there is always a
/// place for header and routing metadata. Two envelopes are equal when their
/// ids are.
#[derive(Debug, Clone)]
pub struct Envelope {
    pub id: String,
    pub dynamic_routing_slip: DynamicRoutingSlip,
    pub route: Option<Route>,
    pub markers: Vec<String>,
    pub did: Did,
    pub client: Option<String>,
    pub reply_to_client: bool,
    pub client_reply_action: Option<String>,
    pub url: Option<String>,
    pub multipart: Option<Multipart>,
    pub action: Option<Action>,
    pub command_path: Option<String>,
    pub headers: JsonObject,
    pub message: Option<Message>,
    pub sensitivity: i32,
    pub delayed: bool,
    pub min_delay: i32,
    pub max_delay: i32,
    pub copy: bool,
    pub max_copies: i32,
    pub min_copies: i32,
    pub service_level: ServiceLevel,
}

/// Whether `e` holds the settings of a new envelope, apart from its id and
/// message: an empty slip, no route, markers or headers, the anonymous identity,
/// no client, url, multipart body, action or command path, sensitivity 1, no
/// delay or copies, and at-least-once delivery.
pub open spec fn fresh_settings(e: Envelope) -> bool {
    &&& e.dynamic_routing_slip.spec_routes().len() == 0
    &&& e.dynamic_routing_slip.spec_current() is None
    &&& e.route is None
    &&& e.markers@.len() == 0
    &&& e.did.username@ == "Anon"@
    &&& is_fresh_did(e.did)
    &&& e.client is None
    &&& !e.reply_to_client
    &&& e.client_reply_action is None
    &&& e.url is None
    &&& e.multipart is None
    &&& e.action is None
    &&& e.command_path is None
    &&& e.headers@.len() == 0
    &&& e.sensitivity == 1
    &&& !e.delayed
    &&& e.min_delay == 0
    &&& e.max_delay == 0
    &&& !e.copy
    &&& e.max_copies == 0
    &&& e.min_copies == 0
    &&& e.service_level == ServiceLevel::AtLeastOnce
}

/// The document message an envelope carries, if it carries one.
pub open spec fn doc_of(e: Envelope) -> Option<DocumentMessage> {
    match e.message {
        Some(Message::Document(d)) => Some(d),
        _ => None,
    }
}

/// The value under `key` in the primary bucket of an envelope's document.
pub open spec fn envelope_value(e: Envelope, key: Seq<char>) -> Option<JsonValue> {
    match doc_of(e) {
        Some(d) => primary_value(d.data@, key),
        None => None,
    }
}

/// The texts among `a`, in order.
pub open spec fn strings_of(a: Seq<JsonValue>) -> Seq<Seq<char>>
    decreases a.len(),
{
    if a.len() == 0 {
        Seq::empty()
    } else {
        let rest = strings_of(a.drop_last());
        match a.last() {
            JsonValue::String(s) => rest.push(s@),
            _ => rest,
        }
    }
}

/// The exceptions recorded in an envelope's document: the texts of its
/// `EXCEPTIONS` list (none when there is no such list).
pub open spec fn exception_list(e: Envelope) -> Seq<Seq<char>> {
    match envelope_value(e, "EXCEPTIONS"@) {
        Some(JsonValue::Array(a)) => strings_of(a@),
        _ => Seq::empty(),
    }
}

/// Whether `b` equals `a` in everything but the message.
pub open spec fn same_but_message(a: Envelope, b: Envelope) -> bool {
    b == Envelope { message: b.message, ..a }
}

/// Whether `b` equals `a` in everything but the headers.
pub open spec fn same_but_headers(a: Envelope, b: Envelope) -> bool {
    b == Envelope { headers: b.headers, ..a }
}

/// Whether `b`'s document differs from `a`'s only in its primary bucket.
pub open spec fn same_document_but_primary(a: DocumentMessage, b: DocumentMessage) -> bool {
    &&& b.error_messages == a.error_messages
    &&& b.data@.len() >= 1
    &&& b.data@.drop_first() == DocumentMessage::other_buckets(a.data@)
}

/// The kind of message an envelope carries.
pub open spec fn kind_of(e: Envelope) -> MessageType {
    match e.message {
        Some(Message::Document(_)) => MessageType::Document,
        Some(Message::Text(_)) => MessageType::Text,
        Some(Message::Event(_)) => MessageType::Event,
        Some(Message::Command(_)) => MessageType::Command,
        None => MessageType::NoMessage,
    }
}

/// An envelope's kind is the variant of the message it carries, and only
/// that: a document is `Document`, a text `Text`, an event `Event`, a command
/// `Command`, and no message `NoMessage`.
pub proof fn lemma_kind_is_message_variant(e: Envelope)
    ensures
        kind_of(e) == MessageType::Document <==> e.message matches Some(Message::Document(_)),
        kind_of(e) == MessageType::Text <==> e.message matches Some(Message::Text(_)),
        kind_of(e) == MessageType::Event <==> e.message matches Some(Message::Event(_)),
        kind_of(e) == MessageType::Command <==> e.message matches Some(Message::Command(_)),
        kind_of(e) == MessageType::NoMessage <==> e.message is None,
{
}

impl Envelope {
    /// The kind of message this envelope carries.
    pub fn message_type(&self) -> (r: MessageType)
        ensures
            r == kind_of(*self),
    {
        match &self.message {
            Some(Message::Document(_)) => MessageType::Document,
            Some(Message::Text(_)) => MessageType::Text,
            Some(Message::Event(_)) => MessageType::Event,
            Some(Message::Command(_)) => MessageType::Command,
            None => MessageType::NoMessage,
        }
    }

    fn with_message(id: String, message: Option<Message>) -> (r: Envelope)
        ensures
            r.id == id,
            r.message == message,
            fresh_settings(r),
    {
        Envelope {
            id,
            dynamic_routing_slip: DynamicRoutingSlip::new(),
            route: None,
            markers: Vec::new(),
            did: Did::default(),
            client: None,
            reply_to_client: false,
            client_reply_action: None,
            url: None,
            multipart: None,
            action: None,
            command_path: None,
            headers: StringMap::new(),
            message,
            sensitivity: 1,
            delayed: false,
            min_delay: 0,
            max_delay: 0,
            copy: false,
            max_copies: 0,
            min_copies: 0,
            service_level: ServiceLevel::AtLeastOnce,
        }
    }

    /// A new envelope carrying an empty command message.
    pub fn command() -> (r: Envelope)
        ensures
            is_uuid_v4_text(r.id@),
            fresh_settings(r),
            r.message matches Some(Message::Command(c)) && c.command is None
                && c.error_messages@.len() == 0,
    {
        Envelope::with_message(new_uuid_v4(), Some(Message::Command(CommandMessage::default())))
    }

    /// A new envelope carrying an empty document message.
    pub fn document() -> (r: Envelope)
        ensures
            is_uuid_v4_text(r.id@),
            fresh_settings(r),
            r.message matches Some(Message::Document(d)) && d.error_messages@.len() == 0
                && d.data@.len() == 1 && d.data@[0]@.len() == 0,
    {
        Envelope::with_message(new_uuid_v4(), Some(Message::Document(DocumentMessage::new())))
    }

    /// A new document envelope with the given id.
    pub fn document_with_id(id: String) -> (r: Envelope)
        ensures
            r.id@ == id@,
            fresh_settings(r),
            r.message matches Some(Message::Document(d)) && d.error_messages@.len() == 0
                && d.data@.len() == 1 && d.data@[0]@.len() == 0,
    {
        Envelope::with_message(id, Some(Message::Document(DocumentMessage::new())))
    }

    /// A new envelope with headers only and no message.
    pub fn headers_only() -> (r: Envelope)
        ensures
            is_uuid_v4_text(r.id@),
            fresh_settings(r),
            r.message is None,
    {
        Envelope::with_message(new_uuid_v4(), None)
    }

    /// A new envelope carrying an event message of `event_type`.
    pub fn event(event_type: EventType) -> (r: Envelope)
        ensures
            is_uuid_v4_text(r.id@),
            fresh_settings(r),
            r.message matches Some(Message::Event(m)) && m.event_type@ == event_type.name()
                && m.message is None && m.error_messages@.len() == 0,
    {
        Envelope::with_message(new_uuid_v4(), Some(Message::Event(EventMessage::of(event_type))))
    }

    /// A new envelope carrying an empty text message.
    pub fn text() -> (r: Envelope)
        ensures
            is_uuid_v4_text(r.id@),
            fresh_settings(r),
            r.message matches Some(Message::Text(t)) && t.to is None && t.from is None
                && t.text is None && t.error_messages@.len() == 0,
    {
        Envelope::with_message(new_uuid_v4(), Some(Message::Text(Box::new(TextMessage::default()))))
    }

    // ---- headers

    /// Sets a header.
    pub fn set_header(&mut self, name: String, value: JsonValue)
        ensures
            final(self).headers@ == sorted_insert(old(self).headers@, name@, value),
            same_but_headers(*old(self), *final(self)),
    {
        self.headers.insert(name, value);
    }

    /// Whether a header is set.
    pub fn header_exists(&self, name: &str) -> (r: bool)
        ensures
            r == lookup(self.headers@, name@) is Some,
    {
        self.headers.contains_key(name)
    }

    /// Removes a header.
    pub fn remove_header(&mut self, name: &str)
        ensures
            final(self).headers@ == without_key(old(self).headers@, name@),
            same_but_headers(*old(self), *final(self)),
    {
        self.headers.remove(name);
    }

    /// The value of a header.
    pub fn header(&self, name: &str) -> (r: Option<&JsonValue>)
        ensures
            match lookup(self.headers@, name@) {
                Some(v) => r matches Some(x) && *x == v,
                None => r is None,
            },
    {
        self.headers.get(name)
    }

    /// The `Content-Type` header, when it is set to a string.
    pub fn content_type(&self) -> (r: Option<&str>)
        ensures
            match lookup(self.headers@, "Content-Type"@) {
                Some(JsonValue::String(s)) => r matches Some(t) && t@ == s@,
                _ => r is None,
            },
    {
        proof {
            reveal_strlit("Content-Type");
        }
        match self.headers.get(HEADER_CONTENT_TYPE) {
            Some(v) => v.as_str(),
            None => None,
        }
    }

    /// Sets the `Content-Type` header.
    pub fn set_content_type(&mut self, content_type: String)
        ensures
            lookup(final(self).headers@, "Content-Type"@) matches Some(JsonValue::String(s)) && s@
                == content_type@,
            forall|k: Seq<char>|
                k != "Content-Type"@ ==> #[trigger] lookup(final(self).headers@, k) == lookup(
                    old(self).headers@,
                    k,
                ),
            same_but_headers(*old(self), *final(self)),
    {
        let ghost before = self.headers@;
        let v = JsonValue::String(content_type);
        let ghost g = v;
        self.headers.insert(owned(HEADER_CONTENT_TYPE), v);
        proof {
            reveal_strlit("Content-Type");
            lemma_lookup_after_insert_all(before, "Content-Type"@, g);
        }
    }

    // ---- routing

    /// The route being processed; when none is set, a copy of the slip's
    /// current route (taking the slip's first route if it has not started).
    pub fn route(&mut self) -> (r: Option<&Route>)
        ensures
            old(self).route is Some ==> *final(self) == *old(self),
            old(self).route is None && old(self).dynamic_routing_slip.spec_current() is Some
                ==> final(self).dynamic_routing_slip == old(self).dynamic_routing_slip,
            old(self).route is None && old(self).dynamic_routing_slip.spec_current() is None ==> {
                let s = old(self).dynamic_routing_slip.spec_routes();
                &&& s.len() > 0 ==> final(self).dynamic_routing_slip.spec_current() == Some(s[0])
                    && final(self).dynamic_routing_slip.spec_routes() == s.drop_first()
                &&& s.len() == 0 ==> final(self).dynamic_routing_slip.spec_current() is None
                    && final(self).dynamic_routing_slip.spec_routes() == s
            },
            old(self).route is None ==> match final(self).dynamic_routing_slip.spec_current() {
                Some(c) => final(self).route matches Some(x) && same_route(c, x),
                None => final(self).route is None,
            },
            match final(self).route {
                Some(x) => r == Some(&x),
                None => r is None,
            },
    {
        if self.route.is_none() {
            match self.dynamic_routing_slip.current_route() {
                Some(c) => {
                    let copy = c.clone();
                    self.route = Some(copy);
                },
                None => {},
            }
        }
        match &self.route {
            Some(r) => Some(r),
            None => None,
        }
    }

    /// Advances to the next route of the slip, which becomes (a copy of) the
    /// route being processed; no route once the slip is exhausted.
    pub fn ratchet(&mut self)
        ensures
            old(self).dynamic_routing_slip.spec_routes().len() > 0 ==> {
                &&& final(self).route matches Some(x) && same_route(
                    old(self).dynamic_routing_slip.spec_routes()[0],
                    x,
                )
                &&& final(self).dynamic_routing_slip.spec_routes()
                    == old(self).dynamic_routing_slip.spec_routes().drop_first()
            },
            old(self).dynamic_routing_slip.spec_routes().len() == 0 ==> final(self).route is None
                && final(self).dynamic_routing_slip.spec_routes().len() == 0,
            final(self).message == old(self).message,
            final(self).headers == old(self).headers,
            final(self).id == old(self).id,
    {
        let next = match self.dynamic_routing_slip.next_route() {
            Some(r) => Some(r.clone()),
            None => None,
        };
        self.route = next;
    }

    /// Pushes an in-process route to `operation` on `service` onto the slip.
    pub fn add_route(&mut self, service: String, operation: String)
        ensures
            final(self).dynamic_routing_slip.spec_routes().len() == old(
                self,
            ).dynamic_routing_slip.spec_routes().len() + 1,
            final(self).dynamic_routing_slip.spec_routes()[0] is Simple,
            crate::route::model::route_service(final(self).dynamic_routing_slip.spec_routes()[0])
                == Some(service@),
            crate::route::model::route_meta(
                final(self).dynamic_routing_slip.spec_routes()[0],
            ).operation matches Some(o) && o@ == operation@,
            final(self).dynamic_routing_slip.spec_routes().drop_first()
                == old(self).dynamic_routing_slip.spec_routes(),
            final(self).route == old(self).route,
            final(self).message == old(self).message,
            final(self).headers == old(self).headers,
            final(self).id == old(self).id,
    {
        let r = Route::simple(service, operation);
        self.dynamic_routing_slip.add_route(r);
        assert(final(self).dynamic_routing_slip.spec_routes().drop_first() =~= old(
            self,
        ).dynamic_routing_slip.spec_routes());
    }

    /// Pushes an external route to `operation` on `service` onto the slip.
    pub fn add_external_route(&mut self, service: String, operation: String)
        ensures
            final(self).dynamic_routing_slip.spec_routes().len() == old(
                self,
            ).dynamic_routing_slip.spec_routes().len() + 1,
            final(self).dynamic_routing_slip.spec_routes()[0] is SimpleExternal,
            crate::route::model::route_service(final(self).dynamic_routing_slip.spec_routes()[0])
                == Some(service@),
            crate::route::model::route_meta(
                final(self).dynamic_routing_slip.spec_routes()[0],
            ).operation matches Some(o) && o@ == operation@,
            final(self).dynamic_routing_slip.spec_routes().drop_first()
                == old(self).dynamic_routing_slip.spec_routes(),
            final(self).route == old(self).route,
            final(self).message == old(self).message,
            final(self).headers == old(self).headers,
            final(self).id == old(self).id,
    {
        let r = Route::external(service, operation);
        self.dynamic_routing_slip.add_route(r);
        assert(final(self).dynamic_routing_slip.spec_routes().drop_first() =~= old(
            self,
        ).dynamic_routing_slip.spec_routes());
    }
}

impl Envelope {
    // ---- document payload

    /// Puts `value` under `key` in the primary bucket of the document, when
    /// the envelope carries one; `false` otherwise (and nothing changes).
    fn put_value(&mut self, key: String, value: JsonValue) -> (r: bool)
        ensures
            r == doc_of(*old(self)) is Some,
            !r ==> *final(self) == *old(self),
            r ==> same_but_message(*old(self), *final(self)),
            r ==> (doc_of(*final(self)) matches Some(d) && same_document_but_primary(
                doc_of(*old(self))->0,
                d,
            ) && d.data@[0]@ == sorted_insert(
                DocumentMessage::primary_entries(doc_of(*old(self))->0.data@),
                key@,
                value,
            )),
    {
        match &mut self.message {
            Some(Message::Document(d)) => {
                d.put(key, value);
                true
            },
            _ => false,
        }
    }

    /// The value under `key` in the primary bucket of the document.
    pub fn value(&self, name: &str) -> (r: Option<&JsonValue>)
        ensures
            match envelope_value(*self, name@) {
                Some(v) => r matches Some(x) && *x == v,
                None => r is None,
            },
    {
        match &self.message {
            Some(Message::Document(d)) => d.get(name),
            _ => None,
        }
    }

    /// Puts a named value into the primary bucket of the document; `false` when
    /// the envelope carries no document (and nothing changes).
    pub fn add_nvp(&mut self, name: String, value: JsonValue) -> (r: bool)
        ensures
            r == doc_of(*old(self)) is Some,
            !r ==> *final(self) == *old(self),
            r ==> envelope_value(*final(self), name@) == Some(value),
            r ==> forall|k: Seq<char>|
                k != name@ ==> #[trigger] envelope_value(*final(self), k) == envelope_value(
                    *old(self),
                    k,
                ),
            r ==> same_but_message(*old(self), *final(self)),
    {
        let ghost k = name@;
        let ghost v = value;
        let ghost before = doc_of(*self);
        let r = self.put_value(name, value);
        proof {
            if r {
                lemma_lookup_after_insert_all(
                    DocumentMessage::primary_entries(before->0.data@),
                    k,
                    v,
                );
            }
        }
        r
    }

    /// Puts `content` under `CONTENT`; `false` when the envelope carries no
    /// document (and nothing changes).
    pub fn add_content(&mut self, content: JsonValue) -> (r: bool)
        ensures
            r == doc_of(*old(self)) is Some,
            !r ==> *final(self) == *old(self),
            r ==> envelope_value(*final(self), "CONTENT"@) == Some(content),
            r ==> forall|k: Seq<char>|
                k != "CONTENT"@ ==> #[trigger] envelope_value(*final(self), k) == envelope_value(
                    *old(self),
                    k,
                ),
            r ==> same_but_message(*old(self), *final(self)),
    {
        proof {
            reveal_strlit("CONTENT");
        }
        self.add_nvp(owned(CONTENT), content)
    }

    /// The value under `CONTENT`.
    pub fn content(&self) -> (r: Option<&JsonValue>)
        ensures
            match envelope_value(*self, "CONTENT"@) {
                Some(v) => r matches Some(x) && *x == v,
                None => r is None,
            },
    {
        proof {
            reveal_strlit("CONTENT");
        }
        self.value(CONTENT)
    }

    /// Puts `entity` under `ENTITY`; `false` when the envelope carries no
    /// document (and nothing changes).
    pub fn add_entity(&mut self, entity: JsonValue) -> (r: bool)
        ensures
            r == doc_of(*old(self)) is Some,
            !r ==> *final(self) == *old(self),
            r ==> envelope_value(*final(self), "ENTITY"@) == Some(entity),
            r ==> forall|k: Seq<char>|
                k != "ENTITY"@ ==> #[trigger] envelope_value(*final(self), k) == envelope_value(
                    *old(self),
                    k,
                ),
            r ==> same_but_message(*old(self), *final(self)),
    {
        proof {
            reveal_strlit("ENTITY");
        }
        self.add_nvp(owned(ENTITY), entity)
    }

    /// The value under `ENTITY`.
    pub fn entity(&self) -> (r: Option<&JsonValue>)
        ensures
            match envelope_value(*self, "ENTITY"@) {
                Some(v) => r matches Some(x) && *x == v,
                None => r is None,
            },
    {
        proof {
            reveal_strlit("ENTITY");
        }
        self.value(ENTITY)
    }

    /// All named values of the primary bucket of the document.
    pub fn values(&self) -> (r: Option<&JsonObject>)
        ensures
            match doc_of(*self) {
                Some(d) => if d.data@.len() > 0 {
                    r == Some(&d.data@[0])
                } else {
                    r is None
                },
                None => r is None,
            },
    {
        match &self.message {
            Some(Message::Document(d)) => {
                if d.data.len() > 0 {
                    Some(&d.data[0])
                } else {
                    None
                }
            },
            _ => None,
        }
    }

    /// Appends `message` to the `EXCEPTIONS` list of the document (starting a
    /// new list when there is none, or when the value there is not a list);
    /// `false` when the envelope carries no document (and nothing changes).
    pub fn add_exception(&mut self, message: String) -> (r: bool)
        ensures
            r == doc_of(*old(self)) is Some,
            !r ==> *final(self) == *old(self),
            r ==> exception_list(*final(self)) == exception_list(*old(self)).push(message@),
            r ==> forall|k: Seq<char>|
                k != "EXCEPTIONS"@ ==> #[trigger] envelope_value(*final(self), k)
                    == envelope_value(*old(self), k),
            r ==> same_but_message(*old(self), *final(self)),
    {
        proof {
            reveal_strlit("EXCEPTIONS");
        }
        match &mut self.message {
            Some(Message::Document(d)) => {
                let ghost d0 = *d;
                let ghost p0 = DocumentMessage::primary_entries(d0.data@);
                let ghost m = message@;
                let entry = JsonValue::String(message);
                let ghost ge = entry;
                let existing = d.take(EXCEPTIONS);
                let ghost d1 = *d;
                let ghost ex = existing;
                let list = match existing {
                    Some(JsonValue::Array(a)) => {
                        let mut a = a;
                        let ghost a0 = a@;
                        a.push(entry);
                        proof {
                            assert(a@.drop_last() =~= a0);
                            assert(strings_of(a@) == strings_of(a0).push(m));
                        }
                        a
                    },
                    _ => {
                        let mut a: Vec<JsonValue> = Vec::new();
                        a.push(entry);
                        proof {
                            assert(a@.drop_last() =~= Seq::<JsonValue>::empty());
                            assert(strings_of(a@.drop_last()) =~= Seq::<Seq<char>>::empty());
                            assert(a@.last() == ge);
                            assert(strings_of(a@) == Seq::<Seq<char>>::empty().push(m));
                        }
                        a
                    },
                };
                let ghost old_list = match ex {
                    Some(JsonValue::Array(a)) => strings_of(a@),
                    _ => Seq::<Seq<char>>::empty(),
                };
                assert(strings_of(list@) == old_list.push(m));
                let v = JsonValue::Array(list);
                let ghost gv = v;
                d.put(owned(EXCEPTIONS), v);
                proof {
                    lemma_lookup_after_insert_all(
                        DocumentMessage::primary_entries(d1.data@),
                        "EXCEPTIONS"@,
                        gv,
                    );
                    assert forall|k: Seq<char>| k != "EXCEPTIONS"@ implies lookup(
                        DocumentMessage::primary_entries(d1.data@),
                        k,
                    ) == lookup(p0, k) by {
                        lemma_lookup_after_remove(p0, "EXCEPTIONS"@, k);
                    }
                }
                true
            },
            _ => false,
        }
    }

    /// The texts of the `EXCEPTIONS` list of the document (empty when there is
    /// none).
    pub fn exceptions(&self) -> (r: Vec<String>)
        ensures
            crate::text::views(r@) == exception_list(*self),
    {
        proof {
            reveal_strlit("EXCEPTIONS");
        }
        let mut out: Vec<String> = Vec::new();
        match self.value(EXCEPTIONS) {
            Some(JsonValue::Array(a)) => {
                let mut i: usize = 0;
                while i < a.len()
                    invariant
                        i <= a@.len(),
                        crate::text::views(out@) == strings_of(a@.take(i as int)),
                    decreases a@.len() - i,
                {
                    proof {
                        assert(a@.take(i + 1).drop_last() =~= a@.take(i as int));
                        assert(a@.take(i + 1).last() == a@[i as int]);
                    }
                    match &a[i] {
                        JsonValue::String(s) => {
                            let ghost before = out@;
                            out.push(s.clone());
                            proof {
                                assert(crate::text::views(out@) =~= crate::text::views(before).push(
                                    s@,
                                ));
                            }
                        },
                        _ => {},
                    }
                    i = i + 1;
                }
                proof {
                    assert(a@.take(a@.len() as int) =~= a@);
                }
            },
            _ => {
                assert(crate::text::views(out@) =~= Seq::<Seq<char>>::empty());
            },
        }
        out
    }

    /// Appends an error message to the message, if there is one (nothing
    /// changes otherwise).
    pub fn add_error_message(&mut self, message: String)
        ensures
            old(self).message is None ==> *final(self) == *old(self),
            old(self).message matches Some(m) ==> (final(self).message matches Some(n)
                && message_errors(n) == message_errors(m).push(message)),
            same_but_message(*old(self), *final(self)),
    {
        match &mut self.message {
            Some(m) => m.add_error_message(message),
            None => {},
        }
    }

    /// The message's error messages (none without a message).
    pub fn error_messages(&self) -> (r: Vec<String>)
        ensures
            match self.message {
                Some(m) => r@ == message_errors(m),
                None => r@.len() == 0,
            },
    {
        match &self.message {
            Some(m) => {
                let errs = m.error_messages();
                let mut out: Vec<String> = Vec::new();
                let mut i: usize = 0;
                while i < errs.len()
                    invariant
                        i <= errs@.len(),
                        out@ == errs@.take(i as int),
                    decreases errs@.len() - i,
                {
                    out.push(errs[i].clone());
                    i = i + 1;
                    assert(out@ =~= errs@.take(i as int));
                }
                assert(errs@.take(errs@.len() as int) =~= errs@);
                out
            },
            None => Vec::new(),
        }
    }

    // ---- markers

    /// Whether `marker` was added.
    pub fn marker_present(&self, marker: &str) -> (r: bool)
        ensures
            r == exists|i: int| 0 <= i < self.markers@.len() && #[trigger] self.markers@[i]@ == marker@,
    {
        let mut i: usize = 0;
        while i < self.markers.len()
            invariant
                i <= self.markers@.len(),
                forall|j: int| 0 <= j < i ==> #[trigger] self.markers@[j]@ != marker@,
            decreases self.markers@.len() - i,
        {
            if str_eq(self.markers[i].as_str(), marker) {
                return true;
            }
            i = i + 1;
        }
        false
    }

    /// Adds a marker.
    pub fn mark(&mut self, marker: String)
        ensures
            final(self).markers@ == old(self).markers@.push(marker),
            final(self).message == old(self).message,
            final(self).headers == old(self).headers,
            final(self).id == old(self).id,
    {
        self.markers.push(marker);
    }
}

impl Default for Envelope {
    /// A new envelope with a fresh random id and no message.
    fn default() -> (r: Envelope)
        ensures
            is_uuid_v4_text(r.id@),
            fresh_settings(r),
            r.message is None,
    {
        Envelope::with_message(new_uuid_v4(), None)
    }
}

impl PartialEq for Envelope {
    fn eq(&self, other: &Envelope) -> (r: bool) {
        str_eq(self.id.as_str(), other.id.as_str())
    }
}

impl vstd::std_specs::cmp::PartialEqSpecImpl for Envelope {
    open spec fn obeys_eq_spec() -> bool {
        true
    }

    open spec fn eq_spec(&self, other: &Envelope) -> bool {
        self.id@ == other.id@
    }
}

impl Eq for Envelope {

}

} // verus!
