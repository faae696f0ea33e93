//! Typed content submitted to the network for dissemination: a body plus its
//! metadata (hashes, encryption labels, keywords and a tree of children).

use crate::crypto::encryption::EncryptionAlgorithm;
use crate::crypto::hash;
use crate::crypto::hash::HashAlgorithm;
use crate::crypto::hash_util::{
    digest_of,
    generate_fingerprint,
    generate_hash,
    grouped_hex,
    is_password_hash_of,
    is_salted_hash_of,
};
use crate::encoding::hex_text;
use crate::error::{RaError, Result};
use crate::text::{
    concat2,
    decimal,
    join_spec,
    join_strings,
    owned,
    second_piece,
    second_piece_of,
    starts_with,
    has_prefix,
    u64_text,
    views,
};
use crate::util::random::{is_alphanumeric, random_alphanumeric};
use vstd::prelude::*;
use vstd::utf8::{decode_utf8, encode_utf8, valid_utf8};

verus! {

/// Milliseconds since the Unix epoch, from `SystemTime::elapsed` on the epoch
/// (0 if the clock is before the epoch); nothing is stated of the value, which
/// depends on the clock.
#[verifier::external_body]
fn now_millis() -> (r: i64) {
    std::time::UNIX_EPOCH.elapsed().map(|d| d.as_millis() as i64).unwrap_or(0)
}

/// The flavour of a [`Content`].
#[derive(Debug, Clone, Copy, PartialEq, Eq, Hash, Structural)]
pub enum ContentKind {
    Text,
    Html,
    Json,
    Image,
    Audio,
    Video,
    Binary,
}

impl ContentKind {
    /// The kind a MIME type stands for, by its prefix.
    pub open spec fn kind_for(content_type: Seq<char>) -> Option<ContentKind> {
        if has_prefix(content_type, "text/plain"@) {
            Some(ContentKind::Text)
        } else if has_prefix(content_type, "text/html"@) {
            Some(ContentKind::Html)
        } else if has_prefix(content_type, "application/json"@) {
            Some(ContentKind::Json)
        } else if has_prefix(content_type, "image/"@) {
            Some(ContentKind::Image)
        } else if has_prefix(content_type, "audio/"@) {
            Some(ContentKind::Audio)
        } else if has_prefix(content_type, "video/"@) {
            Some(ContentKind::Video)
        } else {
            None
        }
    }

    /// Best-guess kind for a MIME type.
    pub fn for_content_type(content_type: &str) -> (r: Option<ContentKind>)
        ensures
            r == Self::kind_for(content_type@),
    {
        if starts_with(content_type, "text/plain") {
            Some(ContentKind::Text)
        } else if starts_with(content_type, "text/html") {
            Some(ContentKind::Html)
        } else if starts_with(content_type, "application/json") {
            Some(ContentKind::Json)
        } else if starts_with(content_type, "image/") {
            Some(ContentKind::Image)
        } else if starts_with(content_type, "audio/") {
            Some(ContentKind::Audio)
        } else if starts_with(content_type, "video/") {
            Some(ContentKind::Video)
        } else {
            None
        }
    }

    /// Whether the body is stored/serialized as text rather than base64.
    pub fn is_text(&self) -> (r: bool)
        ensures
            r == (*self == ContentKind::Text || *self == ContentKind::Html || *self
                == ContentKind::Json),
    {
        match self {
            ContentKind::Text | ContentKind::Html | ContentKind::Json => true,
            _ => false,
        }
    }
}

/// Each MIME prefix stands for its own kind, and only it: `text/plain` for
/// text, `text/html` for HTML, `application/json` for JSON, `image/` for
/// images, `audio/` for audio and `video/` for video; no type is binary.
pub proof fn lemma_kind_by_prefix(t: Seq<char>)
    ensures
        ContentKind::kind_for(t) == Some(ContentKind::Text) <==> has_prefix(t, "text/plain"@),
        ContentKind::kind_for(t) == Some(ContentKind::Html) <==> has_prefix(t, "text/html"@),
        ContentKind::kind_for(t) == Some(ContentKind::Json) <==> has_prefix(t, "application/json"@),
        ContentKind::kind_for(t) == Some(ContentKind::Image) <==> has_prefix(t, "image/"@),
        ContentKind::kind_for(t) == Some(ContentKind::Audio) <==> has_prefix(t, "audio/"@),
        ContentKind::kind_for(t) == Some(ContentKind::Video) <==> has_prefix(t, "video/"@),
        ContentKind::kind_for(t) != Some(ContentKind::Binary),
{
    reveal_strlit("text/plain");
    reveal_strlit("text/html");
    reveal_strlit("application/json");
    reveal_strlit("image/");
    reveal_strlit("audio/");
    reveal_strlit("video/");
    if has_prefix(t, "text/html"@) {
        assert(t.subrange(0, 9)[5] == t[5]);
        assert(!has_prefix(t, "text/plain"@)) by {
            if has_prefix(t, "text/plain"@) {
                assert(t.subrange(0, 10)[5] == t[5]);
            }
        }
    }
    if has_prefix(t, "audio/"@) {
        assert(t.subrange(0, 6)[1] == t[1]);
        assert(!has_prefix(t, "application/json"@)) by {
            if has_prefix(t, "application/json"@) {
                assert(t.subrange(0, 16)[1] == t[1]);
            }
        }
    }
    if has_prefix(t, "text/plain"@) { assert(t.subrange(0, 10)[0] == t[0]); }
    if has_prefix(t, "text/html"@) { assert(t.subrange(0, 9)[0] == t[0]); }
    if has_prefix(t, "application/json"@) { assert(t.subrange(0, 16)[0] == t[0]); }
    if has_prefix(t, "image/"@) { assert(t.subrange(0, 6)[0] == t[0]); }
    if has_prefix(t, "audio/"@) { assert(t.subrange(0, 6)[0] == t[0]); }
    if has_prefix(t, "video/"@) { assert(t.subrange(0, 6)[0] == t[0]); }
}

/// Whether `t` is a hash text of `body` under `algorithm`, as
/// [`generate_hash`] makes them.
pub open spec fn is_hash_text_of(body: Seq<u8>, algorithm: HashAlgorithm, t: Seq<char>) -> bool {
    if algorithm == HashAlgorithm::Pbkdf2HmacSha1 {
        valid_utf8(body) && is_password_hash_of(encode_utf8(decode_utf8(body)), t)
    } else {
        is_salted_hash_of(body, t, algorithm)
    }
}

/// Whether [`generate_hash`] succeeds on `body` under `algorithm`.
pub open spec fn can_hash(body: Seq<u8>, algorithm: HashAlgorithm) -> bool {
    algorithm != HashAlgorithm::Pbkdf2HmacSha1 || valid_utf8(body)
}

/// The lower-case name of an algorithm, as used in magnet links.
pub open spec fn lower_name(a: HashAlgorithm) -> Seq<char> {
    match a {
        HashAlgorithm::Sha1 => "sha-1"@,
        HashAlgorithm::Sha256 => "sha-256"@,
        HashAlgorithm::Sha512 => "sha-512"@,
        HashAlgorithm::Pbkdf2HmacSha1 => "pbkdf2withhmacsha1"@,
    }
}

/// A unit of content plus its metadata.
#[derive(Debug)]
pub struct Content {
    pub kind: ContentKind,
    pub content_type: String,
    pub version: i32,
    pub id: Option<String>,
    pub label: Option<String>,
    pub name: Option<String>,
    pub location: Option<String>,
    pub size: i64,
    pub author_alias: Option<String>,
    pub author_address: Option<String>,
    /// The payload bytes; `None` means "metadata only".
    pub body: Option<Vec<u8>>,
    pub body_encoding: Option<String>,
    pub body_base64_encoded: bool,
    pub created_at: Option<i64>,
    pub hash: Option<hash::Hash>,
    pub hash_algorithm: HashAlgorithm,
    pub fingerprint: Option<hash::Hash>,
    pub fingerprint_algorithm: HashAlgorithm,
    pub children: Vec<Content>,
    pub encrypted: bool,
    pub encryption_algorithm: Option<EncryptionAlgorithm>,
    pub encryption_passphrase: Option<String>,
    pub encryption_passphrase_encrypted: bool,
    pub encryption_passphrase_algorithm: Option<EncryptionAlgorithm>,
    pub base64_encoded_iv: Option<String>,
    pub keywords: Vec<String>,
    /// Everyone has read access (e.g. an article).
    pub readable: bool,
    /// Everyone has write access (e.g. a wiki).
    pub writeable: bool,
}

impl Content {
    /// Whether every metadata field holds its initial value: no body, no ids or
    /// labels, no hashes (SHA-256 for the hash, SHA-1 for the fingerprint), no
    /// encryption, no children or keywords, version 0.
    pub open spec fn is_fresh(&self) -> bool {
        &&& self.version == 0
        &&& self.id is None
        &&& self.label is None
        &&& self.name is None
        &&& self.location is None
        &&& self.size == 0
        &&& self.author_alias is None
        &&& self.author_address is None
        &&& self.body is None
        &&& self.body_encoding is None
        &&& !self.body_base64_encoded
        &&& self.created_at is None
        &&& self.hash is None
        &&& self.hash_algorithm == HashAlgorithm::Sha256
        &&& self.fingerprint is None
        &&& self.fingerprint_algorithm == HashAlgorithm::Sha1
        &&& self.children@.len() == 0
        &&& !self.encrypted
        &&& self.encryption_algorithm is None
        &&& self.encryption_passphrase is None
        &&& !self.encryption_passphrase_encrypted
        &&& self.encryption_passphrase_algorithm is None
        &&& self.base64_encoded_iv is None
        &&& self.keywords@.len() == 0
        &&& !self.readable
        &&& !self.writeable
    }

    /// An empty content of the given kind and MIME type.
    pub fn new(kind: ContentKind, content_type: String) -> (r: Content)
        ensures
            r.kind == kind,
            r.content_type@ == content_type@,
            r.is_fresh(),
    {
        Content {
            kind,
            content_type,
            version: 0,
            id: None,
            label: None,
            name: None,
            location: None,
            size: 0,
            author_alias: None,
            author_address: None,
            body: None,
            body_encoding: None,
            body_base64_encoded: false,
            created_at: None,
            hash: None,
            hash_algorithm: HashAlgorithm::Sha256,
            fingerprint: None,
            fingerprint_algorithm: HashAlgorithm::Sha1,
            children: Vec::new(),
            encrypted: false,
            encryption_algorithm: None,
            encryption_passphrase: None,
            encryption_passphrase_encrypted: false,
            encryption_passphrase_algorithm: None,
            base64_encoded_iv: None,
            keywords: Vec::new(),
            readable: false,
            writeable: false,
        }
    }

    /// Replaces the body, updates `size`, bumps `version`, and (optionally)
    /// recomputes the hash and the fingerprint of the hash.
    ///
    /// Errors, with the body and version left as they were: [`RaError::Invalid`]
    /// when hashing with PBKDF2 a body that is not UTF-8 (the size is already
    /// updated); [`RaError::Crypto`] when fingerprinting with PBKDF2 (the size and
    /// hash are already updated).
    pub fn set_body(&mut self, body: Vec<u8>, generate_hash_flag: bool, generate_fingerprint_flag: bool) -> (r: Result<()>)
        requires
            old(self).version < i32::MAX,
        ensures
            final(self).size == body@.len() as i64,
            *final(self) == (Content {
                size: final(self).size,
                body: final(self).body,
                version: final(self).version,
                hash: final(self).hash,
                fingerprint: final(self).fingerprint,
                ..*old(self)
            }),
            generate_hash_flag && !can_hash(body@, old(self).hash_algorithm) ==> {
                &&& r matches Err(RaError::Invalid(_))
                &&& final(self).hash == old(self).hash
                &&& final(self).fingerprint == old(self).fingerprint
                &&& final(self).body == old(self).body
                &&& final(self).version == old(self).version
            },
            !generate_hash_flag ==> final(self).hash == old(self).hash,
            generate_hash_flag && can_hash(body@, old(self).hash_algorithm) ==> (final(self).hash matches Some(h)
                && h.algorithm == old(self).hash_algorithm && is_hash_text_of(
                body@,
                old(self).hash_algorithm,
                h.hash@,
            )),
            !generate_hash_flag || can_hash(body@, old(self).hash_algorithm) ==> {
                let fp_fails = generate_fingerprint_flag && final(self).hash is Some && digest_of(
                    encode_utf8(final(self).hash.unwrap().hash@),
                    old(self).fingerprint_algorithm,
                ) is None;
                &&& fp_fails ==> (r matches Err(RaError::Crypto(_)) && final(self).body
                    == old(self).body && final(self).version == old(self).version
                    && final(self).fingerprint == old(self).fingerprint)
                &&& !fp_fails ==> (r is Ok && final(self).body == Some(body) && final(self).version
                    == old(self).version + 1)
                &&& (!fp_fails && generate_fingerprint_flag && final(self).hash is Some) ==> (
                final(self).fingerprint matches Some(f) && f.algorithm
                    == old(self).fingerprint_algorithm && f.hash@ == grouped_hex(
                    hex_text(
                        digest_of(
                            encode_utf8(final(self).hash.unwrap().hash@),
                            old(self).fingerprint_algorithm,
                        ).unwrap(),
                        true,
                    ),
                ))
                &&& (!generate_fingerprint_flag || final(self).hash is None) ==> final(self).fingerprint == old(self).fingerprint
            },
    {
        self.size = body.len() as i64;
        if generate_hash_flag {
            let h = generate_hash(&body, self.hash_algorithm)?;
            self.hash = Some(hash::Hash::new(h, self.hash_algorithm));
        }
        if generate_fingerprint_flag {
            match &self.hash {
                Some(h) => {
                    let fp = generate_fingerprint(h.hash.as_str().as_bytes(), self.fingerprint_algorithm)?;
                    self.fingerprint = Some(hash::Hash::new(fp, self.fingerprint_algorithm));
                },
                None => {},
            }
        }
        self.body = Some(body);
        self.version = self.version + 1;
        Ok(())
    }

    /// Builds content from a body and MIME type, assigning a fresh 32-character
    /// alphanumeric id and `created_at`, and optionally the hash and fingerprint.
    /// The body encoding is the text after `charset:` in the MIME type, if any.
    ///
    /// Errors: [`RaError::Invalid`] if the MIME type maps to no known kind, or as
    /// [`Content::set_body`].
    pub fn build(
        body: Vec<u8>,
        content_type: &str,
        label: Option<String>,
        name: Option<String>,
        generate_hash_flag: bool,
        generate_fingerprint_flag: bool,
    ) -> (r: Result<Content>)
        ensures
            ContentKind::kind_for(content_type@) is None ==> r matches Err(RaError::Invalid(_)),
            generate_hash_flag && !can_hash(body@, HashAlgorithm::Sha256) ==> r is Err,
            ContentKind::kind_for(content_type@) is Some ==> (r matches Ok(c) && {
                &&& c.kind == ContentKind::kind_for(content_type@).unwrap()
                &&& c.content_type@ == content_type@
                &&& c.label == label
                &&& c.name == name
                &&& c.body == Some(body)
                &&& c.size == body@.len() as i64
                &&& c.version == 1
                &&& c.created_at is Some
                &&& (c.id matches Some(id) && id@.len() == 32 && forall|i: int|
                    0 <= i < 32 ==> is_alphanumeric(#[trigger] id@[i]))
                &&& (match second_piece(content_type@, "charset:"@) {
                    Some(p) => c.body_encoding matches Some(e) && e@ == p,
                    None => c.body_encoding is None,
                })
                &&& generate_hash_flag ==> (c.hash matches Some(h) && h.algorithm
                    == HashAlgorithm::Sha256 && is_hash_text_of(body@, HashAlgorithm::Sha256, h.hash@))
                &&& !generate_hash_flag ==> c.hash is None
                &&& (generate_hash_flag && generate_fingerprint_flag) ==> (c.hash matches Some(h)
                    && c.fingerprint matches Some(f) && f.algorithm == HashAlgorithm::Sha1 && f.hash@
                    == grouped_hex(
                    hex_text(digest_of(encode_utf8(h.hash@), HashAlgorithm::Sha1).unwrap(), true),
                ))
                &&& !(generate_hash_flag && generate_fingerprint_flag) ==> c.fingerprint is None
                &&& c.hash_algorithm == HashAlgorithm::Sha256
                &&& c.fingerprint_algorithm == HashAlgorithm::Sha1
                &&& c.keywords@.len() == 0
                &&& c.children@.len() == 0
                &&& c.location is None
                &&& c.author_alias is None
                &&& c.author_address is None
                &&& !c.body_base64_encoded
                &&& !c.encrypted
                &&& c.encryption_algorithm is None
                &&& c.encryption_passphrase is None
                &&& !c.encryption_passphrase_encrypted
                &&& c.encryption_passphrase_algorithm is None
                &&& c.base64_encoded_iv is None
                &&& !c.readable
                &&& !c.writeable
            }),
    {
        let kind = match ContentKind::for_content_type(content_type) {
            Some(k) => k,
            None => {
                return Err(RaError::invalid(concat2("unsupported content type: ", content_type)));
            },
        };
        let mut c = Content::new(kind, owned(content_type));
        c.label = label;
        c.name = name;
        match second_piece_of(content_type, "charset:") {
            Some(cs) => {
                c.body_encoding = Some(cs);
            },
            None => {},
        }
        c.set_body(body, generate_hash_flag, generate_fingerprint_flag)?;
        c.created_at = Some(now_millis());
        c.id = Some(random_alphanumeric(32));
        Ok(c)
    }

    /// True if there is no body (metadata only).
    pub fn meta_only(&self) -> (r: bool)
        ensures
            r == self.body is None,
    {
        self.body.is_none()
    }

    /// Adds a keyword.
    pub fn add_keyword(&mut self, keyword: String)
        ensures
            final(self).keywords@ == old(self).keywords@.push(keyword),
            final(self).body == old(self).body,
            final(self).hash == old(self).hash,
            final(self).children == old(self).children,
    {
        self.keywords.push(keyword);
    }

    /// Adds a child content.
    pub fn add_child(&mut self, child: Content)
        ensures
            final(self).children@ == old(self).children@.push(child),
            final(self).keywords == old(self).keywords,
            final(self).body == old(self).body,
    {
        self.children.push(child);
    }

    /// The exact-length part of the magnet link, if there is a body.
    pub open spec fn magnet_xl(&self) -> Seq<Seq<char>> {
        match self.body {
            Some(b) => seq!["xl="@ + decimal(b@.len())],
            None => Seq::empty(),
        }
    }

    /// The exact-topic part of the magnet link, if there is a hash.
    pub open spec fn magnet_xt(&self) -> Seq<Seq<char>> {
        match self.hash {
            Some(h) => seq!["xt=urn:"@ + lower_name(h.algorithm) + ":"@ + h.hash@],
            None => Seq::empty(),
        }
    }

    /// The keyword part of the magnet link, if there are keywords.
    pub open spec fn magnet_kt(&self) -> Seq<Seq<char>> {
        if self.keywords@.len() > 0 {
            seq!["kt="@ + join_spec(views(self.keywords@), "+"@)]
        } else {
            Seq::empty()
        }
    }

    /// The parts of the magnet link of this content, in order.
    pub open spec fn magnet_parts(&self) -> Seq<Seq<char>> {
        self.magnet_xl() + self.magnet_xt() + self.magnet_kt()
    }

    /// A magnet URI for this content (length, hash, keywords), or `None` if
    /// there is nothing to describe.
    pub fn magnet_link(&self) -> (r: Option<String>)
        ensures
            self.magnet_parts().len() == 0 ==> r is None,
            self.magnet_parts().len() > 0 ==> (r matches Some(m) && m@ == "magnet:?"@ + join_spec(
                self.magnet_parts(),
                "&"@,
            )),
    {
        let mut parts: Vec<String> = Vec::new();
        match &self.body {
            Some(body) => {
                let n = u64_text(body.len() as u64, 10);
                parts.push(concat2("xl=", n.as_str()));
            },
            None => {},
        }
        assert(views(parts@) =~= self.magnet_xl());
        match &self.hash {
            Some(h) => {
                let name = match h.algorithm {
                    HashAlgorithm::Sha1 => "sha-1",
                    HashAlgorithm::Sha256 => "sha-256",
                    HashAlgorithm::Sha512 => "sha-512",
                    HashAlgorithm::Pbkdf2HmacSha1 => "pbkdf2withhmacsha1",
                };
                let mut p = concat2("xt=urn:", name);
                p.append(":");
                p.append(h.hash.as_str());
                parts.push(p);
            },
            None => {},
        }
        assert(views(parts@) =~= self.magnet_xl() + self.magnet_xt());
        if self.keywords.len() > 0 {
            let kws = join_strings(&self.keywords, "+");
            parts.push(concat2("kt=", kws.as_str()));
        }
        assert(views(parts@) =~= self.magnet_parts());
        if parts.len() == 0 {
            None
        } else {
            let joined = join_strings(&parts, "&");
            Some(concat2("magnet:?", joined.as_str()))
        }
    }
}

} // verus!
