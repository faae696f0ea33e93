//! Document messages: buckets of named values.

use crate::json::{JsonObject, JsonValue};
use crate::util::string_map::{lookup, sorted_insert, without_key, StringMap};
use vstd::prelude::*;

verus! {

/// Key of the content payload in the primary bucket.
pub const CONTENT: &'static str = "CONTENT";

/// Key of a domain entity payload in the primary bucket.
pub const ENTITY: &'static str = "ENTITY";

/// Key of the list of accumulated exceptions in the primary bucket.
pub const EXCEPTIONS: &'static str = "EXCEPTIONS";

/// A message carrying one or more buckets of named values. `data[0]` is the
/// primary bucket, used by the envelope's content, entity and value helpers.
#[derive(Debug, Clone)]
pub struct DocumentMessage {
    pub error_messages: Vec<String>,
    pub data: Vec<JsonObject>,
}

/// The value under `key` in the primary bucket of `data`.
pub open spec fn primary_value(data: Seq<JsonObject>, key: Seq<char>) -> Option<JsonValue> {
    if data.len() == 0 {
        None
    } else {
        lookup(data[0]@, key)
    }
}

impl Default for DocumentMessage {
    /// No error messages and a single empty bucket.
    fn default() -> (r: DocumentMessage)
        ensures
            r.error_messages@.len() == 0,
            r.data@.len() == 1,
            r.data@[0]@.len() == 0,
    {
        DocumentMessage::new()
    }
}

impl DocumentMessage {
    /// A document message with a single empty bucket.
    pub fn new() -> (r: DocumentMessage)
        ensures
            r.error_messages@.len() == 0,
            r.data@.len() == 1,
            r.data@[0]@.len() == 0,
    {
        let mut data: Vec<JsonObject> = Vec::new();
        data.push(StringMap::new());
        DocumentMessage { error_messages: Vec::new(), data }
    }

    /// The value under `key` in the primary bucket.
    pub fn get(&self, key: &str) -> (r: Option<&JsonValue>)
        ensures
            match primary_value(self.data@, key@) {
                Some(v) => r matches Some(x) && *x == v,
                None => r is None,
            },
    {
        if self.data.len() == 0 {
            None
        } else {
            self.data[0].get(key)
        }
    }

    /// The buckets after the primary one.
    pub open spec fn other_buckets(data: Seq<JsonObject>) -> Seq<JsonObject> {
        if data.len() == 0 {
            data
        } else {
            data.drop_first()
        }
    }

    /// The primary bucket's entries (none when there is no bucket).
    pub open spec fn primary_entries(data: Seq<JsonObject>) -> Seq<(Seq<char>, JsonValue)> {
        if data.len() == 0 {
            Seq::empty()
        } else {
            data[0]@
        }
    }

    /// The primary bucket, for changing it in place (created when there is
    /// none).
    pub fn primary(&mut self) -> (r: &mut JsonObject)
        ensures
            r@ == Self::primary_entries(old(self).data@),
            final(self).data@.len() >= 1,
            final(self).data@[0] == *final(r),
            final(self).data@.drop_first() == Self::other_buckets(old(self).data@),
            final(self).error_messages == old(self).error_messages,
    {
        if self.data.len() == 0 {
            self.data.push(StringMap::new());
            assert(self.data@[0]@ =~= Seq::<(Seq<char>, JsonValue)>::empty());
        }
        &mut self.data[0]
    }

    /// Takes the primary bucket out (an empty one when there is none).
    fn take_primary(&mut self) -> (r: JsonObject)
        ensures
            r@ == Self::primary_entries(old(self).data@),
            final(self).data@ == Self::other_buckets(old(self).data@),
            final(self).error_messages == old(self).error_messages,
    {
        if self.data.len() == 0 {
            let b: JsonObject = StringMap::new();
            assert(b@ =~= Seq::<(Seq<char>, JsonValue)>::empty());
            b
        } else {
            self.data.remove(0)
        }
    }

    /// Puts `value` under `key` in the primary bucket (creating the bucket when
    /// there is none).
    pub fn put(&mut self, key: String, value: JsonValue)
        ensures
            final(self).data@.len() >= 1,
            final(self).data@[0]@ == sorted_insert(
                Self::primary_entries(old(self).data@),
                key@,
                value,
            ),
            final(self).data@.drop_first() == Self::other_buckets(old(self).data@),
            final(self).error_messages == old(self).error_messages,
    {
        let mut bucket = self.take_primary();
        bucket.insert(key, value);
        self.data.insert(0, bucket);
        assert(self.data@.drop_first() =~= Self::other_buckets(old(self).data@));
    }

    /// Takes the value under `key` out of the primary bucket (creating the
    /// bucket when there is none).
    pub fn take(&mut self, key: &str) -> (r: Option<JsonValue>)
        ensures
            r == lookup(Self::primary_entries(old(self).data@), key@),
            final(self).data@.len() >= 1,
            final(self).data@[0]@ == without_key(Self::primary_entries(old(self).data@), key@),
            final(self).data@.drop_first() == Self::other_buckets(old(self).data@),
            final(self).error_messages == old(self).error_messages,
    {
        let mut bucket = self.take_primary();
        let r = bucket.remove(key);
        self.data.insert(0, bucket);
        assert(self.data@.drop_first() =~= Self::other_buckets(old(self).data@));
        r
    }
}

} // verus!
