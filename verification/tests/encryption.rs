use did_key::{generate, Ed25519KeyPair, Fingerprint, Generate, KeyMaterial, PatchedKeyPair};
use sata::cipher::{aes256gcm_encrypt, seal_with_nonce, sha256_hash};
use sata::identity::agree;
use sata::wire::{read_sealed_list, write_sealed_list};
use sata::{Codec, ContentId, Error, Identity, Kind, ResolvedKey, Sata, State};

/// The library's view of a key pair.
fn identity(key: &PatchedKeyPair) -> Identity {
    Identity::new(key.fingerprint(), key.private_key_bytes())
}

/// What a key pair's reference resolves to.
fn resolved(key: &PatchedKeyPair) -> ResolvedKey {
    let agreement = Ed25519KeyPair::from_public_key(&key.public_key_bytes()).get_x25519();
    ResolvedKey::new(
        format!("did:key:{}", key.fingerprint()),
        agreement.public_key_bytes(),
    )
}

/// The envelope with its payload replaced.
fn with_data(env: &Sata, data: Vec<u8>) -> Sata {
    Sata::restore(
        env.id(),
        env.version(),
        env.kind(),
        env.state(),
        env.timestamp(),
        data,
        env.sender(),
        env.recipients(),
    )
    .unwrap()
}

#[test]
fn encryption_test_default() {
    let plaintext = b"Hello, Bob!";

    let alice_did = generate::<Ed25519KeyPair>(None);
    let bob_did = generate::<Ed25519KeyPair>(None);
    let directory = vec![resolved(&alice_did), resolved(&bob_did)];

    let mut data = Sata::default();
    data.add_recipient(&identity(&bob_did)).unwrap();
    let encrypted_data = data
        .encrypt(
            Codec::DagCbor,
            &identity(&alice_did),
            Kind::Reference,
            plaintext.to_vec(),
            &directory,
        )
        .unwrap();

    let extracted_data_by_bob: Vec<u8> = encrypted_data
        .decrypt(&identity(&bob_did), &directory)
        .unwrap();

    assert_eq!(extracted_data_by_bob, plaintext.to_vec());
}

#[test]
fn encryption_mutliple_recipient() {
    let plaintext = "Hello, Everybody!";

    let alice_did = generate::<Ed25519KeyPair>(None);

    let list = (0..50)
        .into_iter()
        .map(|_| generate::<Ed25519KeyPair>(None))
        .collect::<Vec<_>>();
    let mut directory = vec![resolved(&alice_did)];
    directory.extend(list.iter().map(resolved));

    let mut data = Sata::default();

    for recipient in list.iter() {
        data.add_recipient(&identity(recipient)).unwrap();
    }

    let encrypted_data = data
        .encrypt(
            Codec::DagCbor,
            &identity(&alice_did),
            Kind::Reference,
            plaintext.as_bytes().to_vec(),
            &directory,
        )
        .unwrap();

    for recipient in list {
        let decrypted_data = encrypted_data
            .decrypt(&identity(&recipient), &directory)
            .unwrap();
        assert_eq!(String::from_utf8(decrypted_data).unwrap(), plaintext)
    }
}

#[test]
fn an_unregistered_identity_is_refused() {
    let alice = generate::<Ed25519KeyPair>(None);
    let bob = generate::<Ed25519KeyPair>(None);
    let carol = generate::<Ed25519KeyPair>(None);
    let directory = vec![resolved(&alice), resolved(&bob), resolved(&carol)];

    let mut data = Sata::default();
    data.add_recipient(&identity(&bob)).unwrap();
    let encrypted = data
        .encrypt(
            Codec::DagCbor,
            &identity(&alice),
            Kind::Reference,
            b"Hello, Bob!".to_vec(),
            &directory,
        )
        .unwrap();

    assert_eq!(
        encrypted.decrypt(&identity(&carol), &directory),
        Err(Error::RecipientDoesntExist)
    );
    // the sender is no recipient either
    assert_eq!(
        encrypted.decrypt(&identity(&alice), &directory),
        Err(Error::RecipientDoesntExist)
    );
    assert_eq!(
        encrypted.decrypt(&identity(&bob), &directory),
        Ok(b"Hello, Bob!".to_vec())
    );
}

#[test]
fn an_envelope_without_recipients_is_for_nobody() {
    let alice = generate::<Ed25519KeyPair>(None);
    let directory = vec![resolved(&alice)];
    let encrypted = Sata::default()
        .encrypt(
            Codec::DagCbor,
            &identity(&alice),
            Kind::Reference,
            b"Hello".to_vec(),
            &directory,
        )
        .unwrap();
    assert_eq!(encrypted.data(), b"[]".to_vec());
    assert_eq!(encrypted.recipients(), None);
    assert_eq!(
        encrypted.decrypt(&identity(&alice), &directory),
        Err(Error::RecipientRequired)
    );
}

#[test]
fn encrypt_sets_state_identifier_and_sender() {
    let alice = generate::<Ed25519KeyPair>(None);
    let bob = generate::<Ed25519KeyPair>(None);
    let directory = vec![resolved(&bob)];
    let mut data = Sata::default();
    data.set_version(4);
    data.add_recipient(&identity(&bob)).unwrap();
    let encrypted = data
        .encrypt(
            Codec::DagJson,
            &identity(&alice),
            Kind::Static,
            b"Hi".to_vec(),
            &directory,
        )
        .unwrap();
    assert_eq!(encrypted.state(), State::Encrypted);
    assert_eq!(encrypted.kind(), Kind::Static);
    assert_eq!(encrypted.version(), 4);
    assert_eq!(encrypted.id(), ContentId::build(Codec::DagJson, b"[72,105]"));
    assert_eq!(encrypted.id().digest, sha256_hash(b"[72,105]", None));
    assert_eq!(
        encrypted.sender(),
        Some(format!("did:key:{}", alice.fingerprint()))
    );
    assert_eq!(
        encrypted.recipients(),
        Some(vec![format!("did:key:{}", bob.fingerprint())])
    );
    let list = read_sealed_list(&encrypted.data()).unwrap();
    assert_eq!(list.len(), 1);
    assert_eq!(list[0].len(), 8 + 16 + 12);
}

#[test]
fn encrypt_at_seals_with_the_nonces_given_at_the_time_given() {
    let alice = generate::<Ed25519KeyPair>(None);
    let bob = generate::<Ed25519KeyPair>(None);
    let carol = generate::<Ed25519KeyPair>(None);
    let directory = vec![resolved(&bob), resolved(&carol)];
    let nonces = vec![vec![1u8; 12], vec![2u8; 12]];

    let mut data = Sata::default();
    data.add_recipient(&identity(&bob)).unwrap();
    data.add_recipient(&identity(&carol)).unwrap();
    let encrypted = data
        .encrypt_at(
            Codec::DagCbor,
            &identity(&alice),
            Kind::Reference,
            b"Blob".to_vec(),
            &directory,
            &nonces,
            1_700_000_000_000_000_000,
        )
        .unwrap();
    assert_eq!(encrypted.timestamp(), 1_700_000_000_000_000_000);

    let encoded = Codec::DagCbor.encode(b"Blob").unwrap();
    let private = alice.private_key_bytes();
    let for_bob = agree(&private, &directory, &identity(&bob).reference()).unwrap();
    let for_carol = agree(&private, &directory, &identity(&carol).reference()).unwrap();
    let expected = write_sealed_list(&vec![
        seal_with_nonce(&for_bob, &[1; 12], &encoded).unwrap(),
        seal_with_nonce(&for_carol, &[2; 12], &encoded).unwrap(),
    ])
    .unwrap();
    assert_eq!(encrypted.data(), expected);
    assert_eq!(encrypted.id(), ContentId::build(Codec::DagCbor, &encoded));
}

#[test]
fn a_recipient_that_does_not_resolve_is_passed_over() {
    let alice = generate::<Ed25519KeyPair>(None);
    let bob = generate::<Ed25519KeyPair>(None);
    let carol = generate::<Ed25519KeyPair>(None);
    let directory = vec![resolved(&alice), resolved(&carol)];

    let mut data = Sata::default();
    data.add_recipient(&identity(&bob)).unwrap();
    data.add_recipient(&identity(&carol)).unwrap();
    let encrypted = data
        .encrypt(
            Codec::DagCbor,
            &identity(&alice),
            Kind::Reference,
            b"Hello".to_vec(),
            &directory,
        )
        .unwrap();

    assert_eq!(read_sealed_list(&encrypted.data()).unwrap().len(), 1);
    assert_eq!(encrypted.recipients().unwrap().len(), 2);
    let full = vec![resolved(&alice), resolved(&bob), resolved(&carol)];
    assert_eq!(encrypted.decrypt(&identity(&carol), &full), Ok(b"Hello".to_vec()));
    assert_eq!(
        encrypted.decrypt(&identity(&bob), &full),
        Err(Error::PositionNotFound)
    );
}

#[test]
fn encrypt_needs_a_private_key() {
    let alice = generate::<Ed25519KeyPair>(None);
    let public_only = Identity::new(alice.fingerprint(), Vec::new());
    assert_eq!(
        Sata::default().encrypt(
            Codec::DagCbor,
            &public_only,
            Kind::Reference,
            b"Hello".to_vec(),
            &Vec::new(),
        ),
        Err(Error::PrivateKeyRequired)
    );
    let short = Identity::new(alice.fingerprint(), vec![1; 16]);
    assert_eq!(
        Sata::default().encrypt(
            Codec::DagCbor,
            &short,
            Kind::Reference,
            b"Hello".to_vec(),
            &Vec::new(),
        ),
        Err(Error::PrivateKeyRequired)
    );
}

#[test]
fn encrypt_refuses_the_sentinel_kind_and_a_second_transition() {
    let alice = generate::<Ed25519KeyPair>(None);
    let me = identity(&alice);
    assert_eq!(
        Sata::default().encrypt(
            Codec::DagCbor,
            &me,
            Kind::Uninitialized,
            b"Hello".to_vec(),
            &Vec::new(),
        ),
        Err(Error::InitializedData)
    );
    let encrypted = Sata::default()
        .encrypt(Codec::DagCbor, &me, Kind::Static, b"Hello".to_vec(), &Vec::new())
        .unwrap();
    assert_eq!(
        encrypted
            .clone()
            .encrypt(Codec::DagCbor, &me, Kind::Static, b"Hello".to_vec(), &Vec::new()),
        Err(Error::InitializedData)
    );
    assert_eq!(
        encrypted.encode(Codec::DagCbor, Kind::Static, b"Hello".to_vec()),
        Err(Error::InitializedData)
    );
    let encoded = Sata::default()
        .encode(Codec::DagCbor, Kind::Static, b"Hello".to_vec())
        .unwrap();
    assert_eq!(
        encoded.encrypt(Codec::DagCbor, &me, Kind::Static, b"Hello".to_vec(), &Vec::new()),
        Err(Error::InitializedData)
    );
}

#[test]
fn encrypt_fails_where_the_codec_refuses() {
    let alice = generate::<Ed25519KeyPair>(None);
    assert_eq!(
        Sata::default().encrypt(
            Codec::Raw,
            &identity(&alice),
            Kind::Static,
            b"Hello".to_vec(),
            &Vec::new(),
        ),
        Err(Error::AnyhowError)
    );
}

#[test]
fn reads_are_gated_by_the_state() {
    let alice = generate::<Ed25519KeyPair>(None);
    let bob = generate::<Ed25519KeyPair>(None);
    let directory = vec![resolved(&alice), resolved(&bob)];

    let mut data = Sata::default();
    data.add_recipient(&identity(&bob)).unwrap();
    assert_eq!(
        data.decrypt(&identity(&bob), &directory),
        Err(Error::InvalidData)
    );

    let encoded = data
        .clone()
        .encode(Codec::DagCbor, Kind::Static, b"Hello".to_vec())
        .unwrap();
    let before = encoded.clone();
    assert_eq!(
        encoded.decrypt(&identity(&bob), &directory),
        Err(Error::AlreadyEncrypted)
    );
    assert_eq!(encoded, before);

    let encrypted = data
        .encrypt(
            Codec::DagCbor,
            &identity(&alice),
            Kind::Static,
            b"Hello".to_vec(),
            &directory,
        )
        .unwrap();
    let before = encrypted.clone();
    assert_eq!(encrypted.decode(), Err(Error::CannotDecodeEncrypted));
    assert_eq!(encrypted, before);
}

#[test]
fn recipients_are_frozen_once_encrypted() {
    let alice = generate::<Ed25519KeyPair>(None);
    let bob = generate::<Ed25519KeyPair>(None);
    let directory = vec![resolved(&alice), resolved(&bob)];
    let mut data = Sata::default();
    data.add_recipient(&identity(&bob)).unwrap();
    let mut encrypted = data
        .encrypt(
            Codec::DagCbor,
            &identity(&alice),
            Kind::Static,
            b"Hello".to_vec(),
            &directory,
        )
        .unwrap();
    let before = encrypted.clone();
    let bob_reference = identity(&bob).reference();
    assert_eq!(
        encrypted.add_recipient(&identity(&alice)),
        Err(Error::InitializedData)
    );
    assert_eq!(
        encrypted.add_recipients(&vec![identity(&alice)]),
        Err(Error::InitializedData)
    );
    assert_eq!(
        encrypted.remove_recipient(&bob_reference),
        Err(Error::InitializedData)
    );
    assert_eq!(
        encrypted.address(&vec![identity(&alice)], &identity(&bob)),
        Err(Error::InitializedData)
    );
    assert_eq!(encrypted, before);
}

#[test]
fn decrypt_twice_gives_the_same() {
    let alice = generate::<Ed25519KeyPair>(None);
    let bob = generate::<Ed25519KeyPair>(None);
    let directory = vec![resolved(&alice), resolved(&bob)];
    let mut data = Sata::default();
    data.add_recipient(&identity(&bob)).unwrap();
    let encrypted = data
        .encrypt(
            Codec::DagCbor,
            &identity(&alice),
            Kind::Static,
            b"Hello".to_vec(),
            &directory,
        )
        .unwrap();
    let before = encrypted.clone();
    let first = encrypted.decrypt(&identity(&bob), &directory);
    let second = encrypted.decrypt(&identity(&bob), &directory);
    assert_eq!(first, Ok(b"Hello".to_vec()));
    assert_eq!(first, second);
    assert_eq!(encrypted, before);
}

#[test]
fn decrypt_needs_sender_and_keys() {
    let alice = generate::<Ed25519KeyPair>(None);
    let bob = generate::<Ed25519KeyPair>(None);
    let directory = vec![resolved(&alice), resolved(&bob)];
    let mut data = Sata::default();
    data.add_recipient(&identity(&bob)).unwrap();
    let encrypted = data
        .encrypt(
            Codec::DagCbor,
            &identity(&alice),
            Kind::Static,
            b"Hello".to_vec(),
            &directory,
        )
        .unwrap();

    // the sender does not resolve
    assert_eq!(
        encrypted.decrypt(&identity(&bob), &vec![resolved(&bob)]),
        Err(Error::AnyhowError)
    );
    // the sender resolves to something that is no key
    let broken = vec![ResolvedKey::new(identity(&alice).reference(), vec![1, 2, 3])];
    assert_eq!(
        encrypted.decrypt(&identity(&bob), &broken),
        Err(Error::AnyhowError)
    );
    // the recipient holds no private key
    let public_only = Identity::new(bob.fingerprint(), Vec::new());
    assert_eq!(
        encrypted.decrypt(&public_only, &directory),
        Err(Error::PrivateKeyRequired)
    );
    // no sender is set
    let unsigned = Sata::restore(
        encrypted.id(),
        encrypted.version(),
        encrypted.kind(),
        encrypted.state(),
        encrypted.timestamp(),
        encrypted.data(),
        None,
        encrypted.recipients(),
    )
    .unwrap();
    assert_eq!(
        unsigned.decrypt(&identity(&bob), &directory),
        Err(Error::Unknown)
    );
}

#[test]
fn a_recipient_with_another_key_finds_nothing() {
    let alice = generate::<Ed25519KeyPair>(None);
    let bob = generate::<Ed25519KeyPair>(None);
    let mallory = generate::<Ed25519KeyPair>(None);
    let directory = vec![resolved(&alice), resolved(&bob)];
    let mut data = Sata::default();
    data.add_recipient(&identity(&bob)).unwrap();
    let encrypted = data
        .encrypt(
            Codec::DagCbor,
            &identity(&alice),
            Kind::Static,
            b"Hello".to_vec(),
            &directory,
        )
        .unwrap();
    let forged = Identity::new(bob.fingerprint(), mallory.private_key_bytes());
    assert_eq!(
        encrypted.decrypt(&forged, &directory),
        Err(Error::PositionNotFound)
    );
}

#[test]
fn a_tampered_payload_does_not_decrypt() {
    let alice = generate::<Ed25519KeyPair>(None);
    let bob = generate::<Ed25519KeyPair>(None);
    let directory = vec![resolved(&alice), resolved(&bob)];
    let mut data = Sata::default();
    data.add_recipient(&identity(&bob)).unwrap();
    let encrypted = data
        .encrypt(
            Codec::DagCbor,
            &identity(&alice),
            Kind::Static,
            b"Hello".to_vec(),
            &directory,
        )
        .unwrap();

    let payload = encrypted.data();
    for at in 0..payload.len() {
        let mut altered = payload.clone();
        altered[at] ^= 1;
        let result = with_data(&encrypted, altered).decrypt(&identity(&bob), &directory);
        assert!(matches!(
            result,
            Err(Error::SerdeJsonError) | Err(Error::PositionNotFound) | Err(Error::InvalidData)
        ));
    }
    assert_eq!(
        with_data(&encrypted, b"no list".to_vec()).decrypt(&identity(&bob), &directory),
        Err(Error::SerdeJsonError)
    );
    assert_eq!(
        with_data(&encrypted, b"[]".to_vec()).decrypt(&identity(&bob), &directory),
        Err(Error::PositionNotFound)
    );
}

#[test]
fn a_swapped_plaintext_is_an_integrity_violation() {
    let alice = generate::<Ed25519KeyPair>(None);
    let bob = generate::<Ed25519KeyPair>(None);
    let directory = vec![resolved(&alice), resolved(&bob)];
    let mut data = Sata::default();
    data.add_recipient(&identity(&bob)).unwrap();
    let encrypted = data
        .encrypt(
            Codec::DagCbor,
            &identity(&alice),
            Kind::Static,
            b"Hello".to_vec(),
            &directory,
        )
        .unwrap();

    // sealed under the right secret, but not what the identifier stands for
    let secret = agree(
        &alice.private_key_bytes(),
        &directory,
        &identity(&bob).reference(),
    )
    .unwrap();
    let other = Codec::DagCbor.encode(b"Howdy").unwrap();
    let swapped = write_sealed_list(&vec![aes256gcm_encrypt(&secret, &other).unwrap()]).unwrap();
    assert_eq!(
        with_data(&encrypted, swapped).decrypt(&identity(&bob), &directory),
        Err(Error::InvalidData)
    );
}

#[test]
fn resolved_sender_and_recipients_come_from_the_directory() {
    let alice = generate::<Ed25519KeyPair>(None);
    let bob = generate::<Ed25519KeyPair>(None);
    let carol = generate::<Ed25519KeyPair>(None);
    let directory = vec![resolved(&alice), resolved(&carol)];

    let mut data = Sata::default();
    assert_eq!(data.resolved_recipients(&directory), None);
    assert_eq!(data.resolved_sender(&directory), None);
    data.address(
        &vec![identity(&bob), identity(&carol)],
        &identity(&alice),
    )
    .unwrap();
    assert_eq!(data.resolved_recipients(&directory), Some(vec![resolved(&carol)]));
    assert_eq!(data.resolved_sender(&directory), Some(resolved(&alice)));
    assert_eq!(data.resolved_sender(&Vec::new()), None);
    assert_eq!(data.resolved_recipients(&Vec::new()), Some(Vec::new()));
}

#[test]
fn check_sender_names_the_first_obstacle() {
    let alice = generate::<Ed25519KeyPair>(None);
    let me = identity(&alice);
    let nobody = Identity::new(alice.fingerprint(), Vec::new());
    let fresh = Sata::default();
    assert_eq!(fresh.check_sender(&me, Kind::Static), Ok(()));
    assert_eq!(
        fresh.check_sender(&me, Kind::Uninitialized),
        Err(Error::InitializedData)
    );
    assert_eq!(
        fresh.check_sender(&nobody, Kind::Uninitialized),
        Err(Error::InitializedData)
    );
    assert_eq!(
        fresh.check_sender(&nobody, Kind::Static),
        Err(Error::PrivateKeyRequired)
    );
    let encoded = Sata::default()
        .encode(Codec::DagCbor, Kind::Static, b"x".to_vec())
        .unwrap();
    assert_eq!(
        encoded.check_sender(&me, Kind::Static),
        Err(Error::InitializedData)
    );
}

#[test]
fn check_access_names_the_first_obstacle() {
    let alice = generate::<Ed25519KeyPair>(None);
    let bob = generate::<Ed25519KeyPair>(None);
    let carol = generate::<Ed25519KeyPair>(None);
    let directory = vec![resolved(&alice), resolved(&bob)];

    let mut data = Sata::default();
    data.add_recipient(&identity(&bob)).unwrap();
    assert_eq!(data.check_access(&identity(&bob)), Err(Error::InvalidData));
    let encoded = data
        .clone()
        .encode(Codec::DagCbor, Kind::Static, b"x".to_vec())
        .unwrap();
    assert_eq!(
        encoded.check_access(&identity(&bob)),
        Err(Error::AlreadyEncrypted)
    );
    let encrypted = data
        .encrypt(
            Codec::DagCbor,
            &identity(&alice),
            Kind::Static,
            b"x".to_vec(),
            &directory,
        )
        .unwrap();
    assert_eq!(encrypted.check_access(&identity(&bob)), Ok(()));
    assert_eq!(
        encrypted.check_access(&identity(&carol)),
        Err(Error::RecipientDoesntExist)
    );
    // a recipient without a private key may ask, but cannot read
    let public_only = Identity::new(bob.fingerprint(), Vec::new());
    assert_eq!(encrypted.check_access(&public_only), Ok(()));
}

#[test]
fn draw_nonces_gives_one_nonce_for_each() {
    assert!(sata::envelope::draw_nonces(0).is_empty());
    let nonces = sata::envelope::draw_nonces(5);
    assert_eq!(nonces.len(), 5);
    for nonce in &nonces {
        assert_eq!(nonce.len(), 12);
    }
    assert_ne!(nonces[0], nonces[1]);
}

#[test]
fn read_checked_checks_codec_digest_and_shape() {
    let encoded = Codec::DagCbor.encode(b"Blob").unwrap();
    let id = ContentId::build(Codec::DagCbor, &encoded);
    assert_eq!(sata::envelope::read_checked(&id, &encoded), Ok(b"Blob".to_vec()));
    let other = Codec::DagCbor.encode(b"Blot").unwrap();
    assert_eq!(
        sata::envelope::read_checked(&id, &other),
        Err(Error::InvalidData)
    );
    let mut unknown = id.clone();
    unknown.codec = 1;
    assert_eq!(
        sata::envelope::read_checked(&unknown, &encoded),
        Err(Error::IpldCodecError)
    );
    // the codec is looked up before the digest is compared
    assert_eq!(
        sata::envelope::read_checked(&unknown, &other),
        Err(Error::IpldCodecError)
    );
    let text = vec![0x61, 0x61];
    let id = ContentId::build(Codec::DagCbor, &text);
    assert_eq!(sata::envelope::read_checked(&id, &text), Err(Error::AnyhowError));
}

#[test]
fn every_resolvable_recipient_gets_one_buffer_of_its_own_length() {
    let alice = generate::<Ed25519KeyPair>(None);
    let list = (0..5)
        .map(|_| generate::<Ed25519KeyPair>(None))
        .collect::<Vec<_>>();
    let directory = list.iter().map(resolved).collect::<Vec<_>>();
    let nonces = (1..=5u8).map(|n| vec![n; 12]).collect::<Vec<_>>();
    let mut data = Sata::default();
    for recipient in list.iter() {
        data.add_recipient(&identity(recipient)).unwrap();
    }
    let encrypted = data
        .encrypt_at(
            Codec::DagCbor,
            &identity(&alice),
            Kind::Reference,
            b"Blob".to_vec(),
            &directory,
            &nonces,
            5,
        )
        .unwrap();
    let encoded = Codec::DagCbor.encode(b"Blob").unwrap();
    let buffers = read_sealed_list(&encrypted.data()).unwrap();
    assert_eq!(buffers.len(), 5);
    for (i, buffer) in buffers.iter().enumerate() {
        assert_eq!(buffer.len(), encoded.len() + 16 + 12);
        assert_eq!(&buffer[buffer.len() - 12..], &nonces[i][..]);
        let secret = agree(
            &alice.private_key_bytes(),
            &directory,
            &identity(&list[i]).reference(),
        )
        .unwrap();
        assert_eq!(
            sata::cipher::aes256gcm_decrypt(&secret, buffer),
            Ok(encoded.clone())
        );
    }
}

#[test]
fn the_directory_may_be_made_from_the_identities_own_keys() {
    let alice = generate::<Ed25519KeyPair>(None);
    let bob = generate::<Ed25519KeyPair>(None);
    let a = identity(&alice);
    let b = identity(&bob);
    let directory = vec![
        ResolvedKey::new(a.reference(), a.agreement_key().unwrap()),
        ResolvedKey::new(b.reference(), b.agreement_key().unwrap()),
    ];
    assert_eq!(directory, vec![resolved(&alice), resolved(&bob)]);
    let mut data = Sata::default();
    data.add_recipient(&b).unwrap();
    let encrypted = data
        .encrypt(Codec::DagJson, &a, Kind::Static, b"Hello".to_vec(), &directory)
        .unwrap();
    assert!(encrypted.timestamp() >= 0);
    assert_eq!(encrypted.decrypt(&b, &directory), Ok(b"Hello".to_vec()));
}
