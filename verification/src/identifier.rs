//! Content identifiers: a version, a codec tag and the digest of the encoded
//! bytes they were built from.

use crate::cipher::sha256;
use crate::cipher::sha256_hash;
use crate::cipher::KEY_LEN;
use crate::codec::Codec;
use vstd::prelude::*;

verus! {

/// Version of the identifier's layout.
#[derive(Clone, Copy, Debug, PartialEq, Eq, Structural)]
pub enum Version {
    /// The older layout, kept for the legacy codec.
    V0,
    /// The current layout.
    V1,
}

/// A content identifier.
#[derive(Debug, PartialEq, Eq)]
pub struct ContentId {
    pub version: Version,
    pub codec: u64,
    pub digest: Vec<u8>,
}

/// A content identifier as a mathematical value.
pub struct ContentIdView {
    pub version: Version,
    pub codec: u64,
    pub digest: Seq<u8>,
}

impl View for ContentId {
    type V = ContentIdView;

    open spec fn view(&self) -> ContentIdView {
        ContentIdView { version: self.version, codec: self.codec, digest: self.digest@ }
    }
}

/// The version that identifiers built for `codec` carry: the older one for the
/// legacy codec, the current one for all others.
pub open spec fn version_for(codec: Codec) -> Version {
    if codec == Codec::DagPb {
        Version::V0
    } else {
        Version::V1
    }
}

/// The identifier of `encoded` under `codec`.
pub open spec fn content_id(codec: Codec, encoded: Seq<u8>) -> ContentIdView {
    ContentIdView { version: version_for(codec), codec: codec.tag_spec(), digest: sha256(encoded) }
}

/// The identifier of an envelope that holds nothing yet.
pub open spec fn unset_id() -> ContentIdView {
    ContentIdView { version: Version::V1, codec: 0, digest: Seq::empty() }
}

impl ContentIdView {
    /// Whether the identifier carries a digest.
    pub open spec fn is_set(self) -> bool {
        self.digest.len() == KEY_LEN
    }

    /// Whether `candidate` has the digest that the identifier carries.
    pub open spec fn matches(self, candidate: Seq<u8>) -> bool {
        sha256(candidate) == self.digest
    }
}

impl Clone for ContentId {
    fn clone(&self) -> (id: ContentId)
        ensures
            id@ == self@,
    {
        let digest = self.digest.clone();
        assert(digest@ =~= self.digest@);
        ContentId { version: self.version, codec: self.codec, digest }
    }
}

impl Default for ContentId {
    fn default() -> (id: ContentId)
        ensures
            id@ == unset_id(),
    {
        ContentId { version: Version::V1, codec: 0, digest: Vec::new() }
    }
}

impl ContentId {
    /// Builds the identifier of `encoded` under `codec`.
    pub fn build(codec: Codec, encoded: &[u8]) -> (id: ContentId)
        ensures
            id@ == content_id(codec, encoded@),
            id@.is_set(),
    {
        let version = if codec.is_legacy() {
            Version::V0
        } else {
            Version::V1
        };
        ContentId { version, codec: codec.tag(), digest: sha256_hash(encoded, None) }
    }

    /// Whether the digest of `candidate` is, byte for byte, the one that the
    /// identifier carries.
    pub fn verify(&self, candidate: &[u8]) -> (b: bool)
        ensures
            b == self@.matches(candidate@),
    {
        let digest = sha256_hash(candidate, None);
        bytes_equal(digest.as_slice(), self.digest.as_slice())
    }

    /// Whether the identifier carries a digest.
    pub fn is_set(&self) -> (b: bool)
        ensures
            b == self@.is_set(),
    {
        self.digest.len() == KEY_LEN
    }
}

/// Whether two byte strings are equal.
pub fn bytes_equal(a: &[u8], b: &[u8]) -> (eq: bool)
    ensures
        eq == (a@ == b@),
{
    if a.len() != b.len() {
        return false;
    }
    let mut i: usize = 0;
    while i < a.len()
        invariant
            i <= a@.len(),
            a@.len() == b@.len(),
            forall|j: int| 0 <= j < i ==> a@[j] == b@[j],
        decreases a@.len() - i,
    {
        if a[i] != b[i] {
            return false;
        }
        i = i + 1;
    }
    assert(a@ =~= b@);
    true
}

/// An identifier matches the bytes it was built from.
pub proof fn lemma_content_id_matches_its_bytes(codec: Codec, encoded: Seq<u8>)
    ensures
        content_id(codec, encoded).matches(encoded),
{
}

} // verus!
