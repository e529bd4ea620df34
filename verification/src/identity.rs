//! Identities as the envelope sees them: a fingerprint, private key material,
//! and the key-agreement keys that references resolve to.
//!
//! The envelope names identities by reference, `did:key:` followed by the
//! identity's fingerprint. What a reference resolves to is handed in by the
//! caller as a directory of resolved keys: did_key's own resolver panics on
//! malformed references, so it is not called from here.
//!
//! Key agreement is did_key's. Its dependency did_url builds only with the
//! default features of form_urlencoded, which is why the manifest names that
//! crate though nothing here calls it.

use did_key::Generate;
use did_key::KeyMaterial;
use vstd::prelude::*;
use vstd::string::StringExecFns;

verus! {

/// Length in bytes of a signing private key and of a key-agreement key.
pub const AGREEMENT_KEY_LEN: usize = 32;

/// An identity: the fingerprint of its public key and, where the holder has
/// it, its signing private key. An empty private key stands for none.
#[derive(Debug, PartialEq, Eq)]
pub struct Identity {
    pub fingerprint: String,
    pub private_key: Vec<u8>,
}

/// An identity as a mathematical value.
pub struct IdentityView {
    pub fingerprint: Seq<char>,
    pub private_key: Seq<u8>,
}

impl View for Identity {
    type V = IdentityView;

    open spec fn view(&self) -> IdentityView {
        IdentityView { fingerprint: self.fingerprint@, private_key: self.private_key@ }
    }
}

impl DeepView for Identity {
    type V = IdentityView;

    open spec fn deep_view(&self) -> IdentityView {
        self@
    }
}

/// What one reference resolves to: the public key-agreement key of the
/// identity it names.
#[derive(Debug, PartialEq, Eq)]
pub struct ResolvedKey {
    pub reference: String,
    pub agreement_key: Vec<u8>,
}

/// A resolved key as a mathematical value.
pub struct ResolvedKeyView {
    pub reference: Seq<char>,
    pub agreement_key: Seq<u8>,
}

impl View for ResolvedKey {
    type V = ResolvedKeyView;

    open spec fn view(&self) -> ResolvedKeyView {
        ResolvedKeyView { reference: self.reference@, agreement_key: self.agreement_key@ }
    }
}

impl DeepView for ResolvedKey {
    type V = ResolvedKeyView;

    open spec fn deep_view(&self) -> ResolvedKeyView {
        self@
    }
}

/// The secret that X25519 key agreement yields between the key-agreement
/// secret derived from an Ed25519 private key and a public key-agreement key.
pub uninterp spec fn agreed_secret(private_key: Seq<u8>, agreement_key: Seq<u8>) -> Seq<u8>;

/// The public key-agreement key that belongs to an Ed25519 private key: the
/// X25519 public key of the key-agreement secret derived from it.
pub uninterp spec fn agreement_key_of(private_key: Seq<u8>) -> Seq<u8>;

/// Whether `secret` is what both sides agree on: whoever holds a private key
/// that `agreement_key` belongs to, agrees on `secret` with the agreement
/// key that belongs to `private_key`.
pub open spec fn agrees_both_ways(
    private_key: Seq<u8>,
    agreement_key: Seq<u8>,
    secret: Seq<u8>,
) -> bool {
    forall|other: Seq<u8>|
        other.len() == AGREEMENT_KEY_LEN && agreement_key == #[trigger] agreement_key_of(other)
            ==> secret == agreed_secret(other, agreement_key_of(private_key))
}

/// Calls did_key's `Ed25519KeyPair::from_secret_key` and `get_x25519` on the
/// private key, then `ECDH::key_exchange` with
/// `X25519KeyPair::from_public_key` of the agreement key.
/// Trusted: the result is a function of the two keys and has 32 bytes; and
/// Diffie-Hellman is symmetric: the holder of the private key that the
/// agreement key belongs to gets the same secret from the agreement key that
/// belongs to this private key.
#[verifier::external_body]
fn key_exchange(private_key: &[u8], agreement_key: &[u8]) -> (secret: Vec<u8>)
    requires
        private_key@.len() == AGREEMENT_KEY_LEN,
        agreement_key@.len() == AGREEMENT_KEY_LEN,
    ensures
        secret@ == agreed_secret(private_key@, agreement_key@),
        secret@.len() == AGREEMENT_KEY_LEN,
        agrees_both_ways(private_key@, agreement_key@, secret@),
{
    let own = did_key::Ed25519KeyPair::from_secret_key(private_key).get_x25519();
    let theirs = did_key::X25519KeyPair::from_public_key(agreement_key);
    did_key::ECDH::key_exchange(&own, &theirs)
}

/// Calls did_key's `Ed25519KeyPair::from_secret_key` and `get_x25519` on the
/// private key, then `KeyMaterial::public_key_bytes`.
/// Trusted: the result is a function of the private key and has 32 bytes.
#[verifier::external_body]
fn derive_agreement_key(private_key: &[u8]) -> (key: Vec<u8>)
    requires
        private_key@.len() == AGREEMENT_KEY_LEN,
    ensures
        key@ == agreement_key_of(private_key@),
        key@.len() == AGREEMENT_KEY_LEN,
{
    did_key::Ed25519KeyPair::from_secret_key(private_key).get_x25519().public_key_bytes()
}

/// The reference of the identity with this fingerprint.
pub open spec fn reference_of(fingerprint: Seq<char>) -> Seq<char> {
    "did:key:"@ + fingerprint
}

/// The key that the first entry for `reference` holds, if there is one.
pub open spec fn resolved(directory: Seq<ResolvedKeyView>, reference: Seq<char>) -> Option<Seq<u8>>
    decreases directory.len(),
{
    if directory.len() == 0 {
        None
    } else if directory[0].reference == reference {
        Some(directory[0].agreement_key)
    } else {
        resolved(directory.drop_first(), reference)
    }
}

/// The secret shared between the holder of `private_key` and the identity
/// that `reference` names. `None` where the private key is not one, the
/// reference does not resolve, or it resolves to something that is no key.
pub open spec fn shared_secret(
    private_key: Seq<u8>,
    directory: Seq<ResolvedKeyView>,
    reference: Seq<char>,
) -> Option<Seq<u8>> {
    match resolved(directory, reference) {
        Some(key) => if private_key.len() == AGREEMENT_KEY_LEN && key.len() == AGREEMENT_KEY_LEN {
            Some(agreed_secret(private_key, key))
        } else {
            None
        },
        None => None,
    }
}

impl Clone for Identity {
    fn clone(&self) -> (who: Identity)
        ensures
            who@ == self@,
    {
        let private_key = self.private_key.clone();
        assert(private_key@ =~= self.private_key@);
        Identity { fingerprint: self.fingerprint.clone(), private_key }
    }
}

impl Clone for ResolvedKey {
    fn clone(&self) -> (key: ResolvedKey)
        ensures
            key@ == self@,
    {
        let agreement_key = self.agreement_key.clone();
        assert(agreement_key@ =~= self.agreement_key@);
        ResolvedKey { reference: self.reference.clone(), agreement_key }
    }
}

impl Identity {
    /// An identity with this fingerprint and private key.
    pub fn new(fingerprint: String, private_key: Vec<u8>) -> (who: Identity)
        ensures
            who@ == (IdentityView { fingerprint: fingerprint@, private_key: private_key@ }),
    {
        Identity { fingerprint, private_key }
    }

    /// The stable reference of the identity: `did:key:` and its fingerprint.
    pub fn reference(&self) -> (reference: String)
        ensures
            reference@ == reference_of(self@.fingerprint),
    {
        "did:key:".to_owned().concat(self.fingerprint.as_str())
    }

    /// The public key-agreement key that belongs to the identity's private
    /// key; `None` where it carries no 32-byte private key.
    pub fn agreement_key(&self) -> (key: Option<Vec<u8>>)
        ensures
            match key {
                Some(k) => self@.private_key.len() == AGREEMENT_KEY_LEN && k@ == agreement_key_of(
                    self@.private_key,
                ) && k@.len() == AGREEMENT_KEY_LEN,
                None => self@.private_key.len() != AGREEMENT_KEY_LEN,
            },
    {
        if self.private_key.len() == AGREEMENT_KEY_LEN {
            Some(derive_agreement_key(self.private_key.as_slice()))
        } else {
            None
        }
    }

    /// Whether the identity carries a private key that key agreement can use.
    pub fn has_private_key(&self) -> (b: bool)
        ensures
            b == (self@.private_key.len() == AGREEMENT_KEY_LEN),
    {
        self.private_key.len() == AGREEMENT_KEY_LEN
    }
}

impl ResolvedKey {
    /// An entry that resolves `reference` to `agreement_key`.
    pub fn new(reference: String, agreement_key: Vec<u8>) -> (key: ResolvedKey)
        ensures
            key@ == (ResolvedKeyView { reference: reference@, agreement_key: agreement_key@ }),
    {
        ResolvedKey { reference, agreement_key }
    }
}

/// Whether `i` is the position of the first entry for `reference`.
pub open spec fn first_entry_at(
    directory: Seq<ResolvedKeyView>,
    reference: Seq<char>,
    i: int,
) -> bool {
    &&& 0 <= i < directory.len()
    &&& directory[i].reference == reference
    &&& forall|j: int| 0 <= j < i ==> directory[j].reference != reference
}

/// Looks `reference` up in the directory: the position of its first entry,
/// `None` where it has none.
pub fn resolve(directory: &Vec<ResolvedKey>, reference: &String) -> (found: Option<usize>)
    ensures
        match found {
            Some(i) => first_entry_at(directory.deep_view(), reference@, i as int) && resolved(
                directory.deep_view(),
                reference@,
            ) == Some(directory@[i as int]@.agreement_key),
            None => resolved(directory.deep_view(), reference@) is None && forall|j: int|
                0 <= j < directory@.len() ==> directory.deep_view()[j].reference != reference@,
        },
{
    let ghost all = directory.deep_view();
    let mut i: usize = 0;
    assert(all.skip(0) =~= all);
    while i < directory.len()
        invariant
            i <= directory@.len(),
            all == directory.deep_view(),
            resolved(all, reference@) == resolved(all.skip(i as int), reference@),
            forall|j: int| 0 <= j < i ==> all[j].reference != reference@,
        decreases directory@.len() - i,
    {
        proof {
            let rest = all.skip(i as int);
            assert(rest[0] == directory@[i as int]@);
            assert(rest.drop_first() =~= all.skip(i + 1));
        }
        if directory[i].reference == *reference {
            return Some(i);
        }
        i = i + 1;
    }
    assert(all.skip(i as int).len() == 0);
    None
}

/// Computes the secret shared between the holder of `private_key` and the
/// identity that `reference` names in the directory. The secret has 32
/// bytes, and the other side agrees on it too.
pub fn agree(private_key: &[u8], directory: &Vec<ResolvedKey>, reference: &String) -> (secret:
    Option<Vec<u8>>)
    ensures
        match secret {
            Some(s) => shared_secret(private_key@, directory.deep_view(), reference@) == Some(s@)
                && s@.len() == AGREEMENT_KEY_LEN && agrees_both_ways(
                private_key@,
                resolved(directory.deep_view(), reference@).unwrap(),
                s@,
            ),
            None => shared_secret(private_key@, directory.deep_view(), reference@) is None,
        },
{
    match resolve(directory, reference) {
        Some(i) => {
            let key = &directory[i].agreement_key;
            if private_key.len() == AGREEMENT_KEY_LEN && key.len() == AGREEMENT_KEY_LEN {
                Some(key_exchange(private_key, key.as_slice()))
            } else {
                None
            }
        },
        None => None,
    }
}

} // verus!
