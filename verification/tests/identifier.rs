use sata::cipher::sha256_hash;
use sata::identifier::Version;
use sata::{Codec, ContentId};

#[test]
fn build_packs_version_codec_and_digest() {
    let id = ContentId::build(Codec::DagCbor, b"encoded bytes");
    assert_eq!(id.version, Version::V1);
    assert_eq!(id.codec, 0x71);
    assert_eq!(id.digest, sha256_hash(b"encoded bytes", None));
    assert_eq!(id.digest.len(), 32);
    assert!(id.is_set());
}

#[test]
fn build_gives_the_legacy_codec_the_older_version() {
    assert_eq!(ContentId::build(Codec::DagPb, b"x").version, Version::V0);
    assert_eq!(ContentId::build(Codec::Raw, b"x").version, Version::V1);
    assert_eq!(ContentId::build(Codec::DagJson, b"x").version, Version::V1);
    assert_eq!(ContentId::build(Codec::DagCbor, b"x").version, Version::V1);
}

#[test]
fn build_is_reproducible() {
    assert_eq!(
        ContentId::build(Codec::DagCbor, b"same"),
        ContentId::build(Codec::DagCbor, b"same")
    );
    assert_ne!(
        ContentId::build(Codec::DagCbor, b"same"),
        ContentId::build(Codec::DagJson, b"same")
    );
}

#[test]
fn verify_accepts_the_bytes_it_was_built_from() {
    let id = ContentId::build(Codec::DagCbor, b"encoded bytes");
    assert!(id.verify(b"encoded bytes"));
}

#[test]
fn verify_refuses_any_other_bytes() {
    let bytes = b"encoded bytes".to_vec();
    let id = ContentId::build(Codec::DagCbor, &bytes);
    for at in 0..bytes.len() {
        for bit in 0..8 {
            let mut altered = bytes.clone();
            altered[at] ^= 1 << bit;
            assert!(!id.verify(&altered));
        }
    }
    assert!(!id.verify(b""));
    assert!(!id.verify(b"encoded bytes "));
}

#[test]
fn verify_compares_the_whole_digest() {
    let mut id = ContentId::build(Codec::DagCbor, b"encoded bytes");
    id.digest.pop();
    assert!(!id.verify(b"encoded bytes"));
    assert!(!id.is_set());
}

#[test]
fn the_default_identifier_is_unset() {
    let id = ContentId::default();
    assert_eq!(id.version, Version::V1);
    assert_eq!(id.codec, 0);
    assert!(id.digest.is_empty());
    assert!(!id.is_set());
    assert_eq!(id.clone(), id);
}

#[test]
fn bytes_equal_compares_byte_for_byte() {
    assert!(sata::identifier::bytes_equal(b"", b""));
    assert!(sata::identifier::bytes_equal(b"abc", b"abc"));
    assert!(!sata::identifier::bytes_equal(b"abc", b"abd"));
    assert!(!sata::identifier::bytes_equal(b"abc", b"ab"));
}
