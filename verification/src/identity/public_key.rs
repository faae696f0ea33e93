//! Public keys with their encoding flags and (optionally signed) attributes.

use crate::crypto::addressable::Addressable;
use crate::identity::signature::Signature;
use crate::json::{JsonObject, JsonValue};
use crate::util::string_map::{
    lemma_lookup_after_insert, lemma_lookup_after_remove, lookup, sorted_insert, StringMap,
};
use vstd::prelude::*;

verus! {

/// A public key plus how it is encoded and any (optionally signed) attributes.
///
/// The key material itself is [`PublicKey::address`] (the encoded key
/// string); the `is_*` flags say which encoding was used.
#[derive(Debug, Clone)]
pub struct PublicKey {
    pub alias: Option<String>,
    pub fingerprint: Option<String>,
    pub address: Option<String>,
    /// Key type label (e.g. curve name).
    pub key_type: Option<String>,
    pub is_identity_key: bool,
    pub is_encryption_key: bool,
    pub is_base64_encoded: bool,
    pub is_base58_encoded: bool,
    pub is_pem: bool,
    pub is_hex: bool,
    /// Free-form attributes.
    pub attributes: JsonObject,
    /// Attribute name -> signatures over it.
    pub signed_attributes: StringMap<Vec<Signature>>,
}

impl Default for PublicKey {
    /// A key with no address, fingerprint, flags or attributes.
    fn default() -> (r: PublicKey)
        ensures
            r.alias is None && r.fingerprint is None && r.address is None && r.key_type is None,
            !r.is_identity_key && !r.is_encryption_key && !r.is_base64_encoded
                && !r.is_base58_encoded && !r.is_pem && !r.is_hex,
            r.attributes@.len() == 0,
            r.signed_attributes@.len() == 0,
    {
        PublicKey {
            alias: None,
            fingerprint: None,
            address: None,
            key_type: None,
            is_identity_key: false,
            is_encryption_key: false,
            is_base64_encoded: false,
            is_base58_encoded: false,
            is_pem: false,
            is_hex: false,
            attributes: StringMap::new(),
            signed_attributes: StringMap::new(),
        }
    }
}

/// `sigs` without every signature made by the key at `address`.
pub open spec fn without_signer(sigs: Seq<Signature>, address: Seq<char>) -> Seq<Signature>
    decreases sigs.len(),
{
    if sigs.len() == 0 {
        sigs
    } else {
        let rest = without_signer(sigs.drop_last(), address);
        if sigs.last().signed_by_address matches Some(a) && a@ == address {
            rest
        } else {
            rest.push(sigs.last())
        }
    }
}

impl PublicKey {
    /// A key holding only its encoded address.
    pub fn from_address(address: String) -> (r: PublicKey)
        ensures
            r.address matches Some(a) && a@ == address@,
            r.alias is None && r.fingerprint is None && r.key_type is None,
            !r.is_identity_key && !r.is_encryption_key && !r.is_base64_encoded
                && !r.is_base58_encoded && !r.is_pem && !r.is_hex,
            r.attributes@.len() == 0,
            r.signed_attributes@.len() == 0,
    {
        let mut k = PublicKey::default();
        k.address = Some(address);
        k
    }

    /// Sets an attribute.
    pub fn add_attribute(&mut self, name: String, value: JsonValue)
        ensures
            final(self).attributes@ == sorted_insert(old(self).attributes@, name@, value),
            final(self).signed_attributes@ == old(self).signed_attributes@,
    {
        self.attributes.insert(name, value);
    }

    /// The attribute `name`, if set.
    pub fn attribute(&self, name: &str) -> (r: Option<&JsonValue>)
        ensures
            match lookup(self.attributes@, name@) {
                Some(v) => r matches Some(x) && *x == v,
                None => r is None,
            },
    {
        self.attributes.get(name)
    }

    /// Appends a signature to attribute `name`'s list of signatures.
    pub fn add_signed_attribute(&mut self, name: String, signature: Signature)
        ensures
            lookup(final(self).signed_attributes@, name@) matches Some(v) && v@ == match lookup(
                old(self).signed_attributes@,
                name@,
            ) {
                Some(w) => w@.push(signature),
                None => seq![signature],
            },
            forall|k: Seq<char>|
                k != name@ ==> #[trigger] lookup(final(self).signed_attributes@, k) == lookup(
                    old(self).signed_attributes@,
                    k,
                ),
            final(self).attributes@ == old(self).attributes@,
    {
        let ghost before = self.signed_attributes@;
        let mut sigs = match self.signed_attributes.remove(name.as_str()) {
            Some(v) => v,
            None => Vec::new(),
        };
        let ghost middle = self.signed_attributes@;
        sigs.push(signature);
        let ghost kv = name@;
        let ghost sv = sigs;
        self.signed_attributes.insert(name, sigs);
        proof {
            lemma_lookup_after_insert(middle, kv, sv, kv);
            assert forall|k: Seq<char>| k != kv implies #[trigger] lookup(
                self.signed_attributes@,
                k,
            ) == lookup(before, k) by {
                lemma_lookup_after_insert(middle, kv, sv, k);
                lemma_lookup_after_remove(before, kv, k);
            }
        }
    }

    /// Removes from attribute `name`'s signatures every one made by the key at
    /// `signed_by_address`.
    pub fn remove_signature(&mut self, name: &str, signed_by_address: &str)
        ensures
            match lookup(old(self).signed_attributes@, name@) {
                Some(w) => lookup(final(self).signed_attributes@, name@) matches Some(v) && v@
                    == without_signer(w@, signed_by_address@),
                None => lookup(final(self).signed_attributes@, name@) is None,
            },
            forall|k: Seq<char>|
                k != name@ ==> #[trigger] lookup(final(self).signed_attributes@, k) == lookup(
                    old(self).signed_attributes@,
                    k,
                ),
            final(self).attributes@ == old(self).attributes@,
    {
        let ghost before = self.signed_attributes@;
        match self.signed_attributes.remove(name) {
            None => {
                proof {
                    assert forall|k: Seq<char>| k != name@ implies #[trigger] lookup(
                        self.signed_attributes@,
                        k,
                    ) == lookup(before, k) by {
                        lemma_lookup_after_remove(before, name@, k);
                    }
                    lemma_lookup_after_remove(before, name@, name@);
                }
            },
            Some(sigs) => {
                let ghost middle = self.signed_attributes@;
                let mut kept: Vec<Signature> = Vec::new();
                let mut i: usize = 0;
                while i < sigs.len()
                    invariant
                        i <= sigs@.len(),
                        kept@ == without_signer(sigs@.take(i as int), signed_by_address@),
                    decreases sigs@.len() - i,
                {
                    proof {
                        assert(sigs@.take(i + 1).drop_last() =~= sigs@.take(i as int));
                        assert(sigs@.take(i + 1).last() == sigs@[i as int]);
                    }
                    let signed_here = match &sigs[i].signed_by_address {
                        Some(a) => crate::text::str_eq(a.as_str(), signed_by_address),
                        None => false,
                    };
                    if !signed_here {
                        kept.push(sigs[i].clone());
                    }
                    i = i + 1;
                }
                assert(sigs@.take(sigs@.len() as int) =~= sigs@);
                let ghost kv = name@;
                let ghost sv = kept;
                self.signed_attributes.insert(crate::text::owned(name), kept);
                proof {
                    lemma_lookup_after_insert(middle, kv, sv, kv);
                    assert forall|k: Seq<char>| k != kv implies #[trigger] lookup(
                        self.signed_attributes@,
                        k,
                    ) == lookup(before, k) by {
                        lemma_lookup_after_insert(middle, kv, sv, k);
                        lemma_lookup_after_remove(before, kv, k);
                    }
                }
            },
        }
    }
}

impl Addressable for PublicKey {
    fn fingerprint(&self) -> (r: Option<&str>)
        ensures
            match self.fingerprint {
                Some(f) => r matches Some(x) && x@ == f@,
                None => r is None,
            },
    {
        match &self.fingerprint {
            Some(f) => Some(f.as_str()),
            None => None,
        }
    }

    fn set_fingerprint(&mut self, fingerprint: Option<String>)
        ensures
            *final(self) == (PublicKey { fingerprint, ..*old(self) }),
    {
        self.fingerprint = fingerprint;
    }

    fn address(&self) -> (r: Option<&str>)
        ensures
            match self.address {
                Some(a) => r matches Some(x) && x@ == a@,
                None => r is None,
            },
    {
        match &self.address {
            Some(a) => Some(a.as_str()),
            None => None,
        }
    }

    fn set_address(&mut self, address: Option<String>)
        ensures
            *final(self) == (PublicKey { address, ..*old(self) }),
    {
        self.address = address;
    }
}

} // verus!
