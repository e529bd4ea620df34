//! Laws of the envelope, stated over the functions that say what each
//! operation returns.

use crate::cipher::nonce_of;
use crate::cipher::open_spec;
use crate::cipher::sha256;
use crate::cipher::MAX_PLAINTEXT_LEN;
use crate::cipher::NONCE_LEN;
use crate::cipher::TAG_LEN;
use crate::codec::Codec;
use crate::model::add_recipient_spec;
use crate::model::add_recipients_spec;
use crate::model::address_spec;
use crate::model::checked_payload;
use crate::model::decode_spec;
use crate::model::decrypt_spec;
use crate::model::encode_failure;
use crate::model::encode_returns;
use crate::model::encrypt_failure;
use crate::model::encrypt_returns;
use crate::model::remove_recipient_failure;
use crate::model::SataView;
use crate::error::Error;
use crate::identity::agreed_secret;
use crate::identity::agreement_key_of;
use crate::identity::agrees_both_ways;
use crate::identity::reference_of;
use crate::identity::resolved;
use crate::identity::shared_secret;
use crate::identity::AGREEMENT_KEY_LEN;
use crate::model::drawn;
use crate::identity::IdentityView;
use crate::identity::ResolvedKeyView;
use crate::state::Kind;
use crate::state::State;
use crate::wire::first_opened;
use crate::wire::json_read;
use crate::wire::nonce_at;
use crate::wire::sealed_for;
use crate::wire::sealed_list;
use vstd::prelude::*;

verus! {

/// Whether every buffer sealed for a recipient before position `i` fails
/// closed under `secret`: it does not open, or it opens to `encoded`.
pub open spec fn earlier_fail_closed(
    secret: Seq<u8>,
    private_key: Seq<u8>,
    directory: Seq<ResolvedKeyView>,
    recipients: Seq<Seq<char>>,
    nonces: Seq<Seq<u8>>,
    encoded: Seq<u8>,
    i: int,
) -> bool {
    forall|j: int|
        0 <= j < i ==> match #[trigger] sealed_for(
            private_key,
            directory,
            recipients[j],
            nonce_at(nonces, j),
            encoded,
        ) {
            Some(sealed) => open_spec(secret, sealed) is None || open_spec(secret, sealed) == Some(
                encoded,
            ),
            None => true,
        }
}

/// Trial recovery finds `encoded` where a buffer that opens to it follows
/// only buffers that fail closed.
proof fn lemma_first_opened_after_closed(
    secret: Seq<u8>,
    closed: Seq<Seq<u8>>,
    hit: Seq<u8>,
    rest: Seq<Seq<u8>>,
    encoded: Seq<u8>,
)
    requires
        forall|k: int|
            0 <= k < closed.len() ==> open_spec(secret, #[trigger] closed[k]) is None || open_spec(
                secret,
                closed[k],
            ) == Some(encoded),
        open_spec(secret, hit) == Some(encoded),
    ensures
        first_opened(secret, closed.push(hit) + rest) == Some(encoded),
    decreases closed.len(),
{
    let all = closed.push(hit) + rest;
    if closed.len() == 0 {
        assert(all[0] == hit);
    } else {
        assert(all[0] == closed[0]);
        if open_spec(secret, closed[0]) is None {
            let shorter = closed.drop_first();
            assert(all.drop_first() =~= shorter.push(hit) + rest);
            assert forall|k: int| 0 <= k < shorter.len() implies open_spec(
                secret,
                #[trigger] shorter[k],
            ) is None || open_spec(secret, shorter[k]) == Some(encoded) by {
                assert(shorter[k] == closed[k + 1]);
            }
            lemma_first_opened_after_closed(secret, shorter, hit, rest, encoded);
        }
    }
}

/// The list sealed for the first `n` recipients begins with the list sealed
/// for the first `i`, followed by the buffer sealed for the recipient at `i`.
proof fn lemma_sealed_list_extends(
    private_key: Seq<u8>,
    directory: Seq<ResolvedKeyView>,
    recipients: Seq<Seq<char>>,
    nonces: Seq<Seq<u8>>,
    encoded: Seq<u8>,
    i: int,
    n: int,
)
    requires
        0 <= i < n <= recipients.len(),
        sealed_for(private_key, directory, recipients[i], nonce_at(nonces, i), encoded) is Some,
    ensures
        sealed_list(private_key, directory, recipients.take(i), nonces, encoded).push(
            sealed_for(private_key, directory, recipients[i], nonce_at(nonces, i), encoded)
                .unwrap(),
        ).is_prefix_of(sealed_list(private_key, directory, recipients.take(n), nonces, encoded)),
    decreases n,
{
    let upto = recipients.take(n);
    assert(upto.drop_last() =~= recipients.take(n - 1));
    assert(upto.last() == recipients[n - 1]);
    if n > i + 1 {
        lemma_sealed_list_extends(private_key, directory, recipients, nonces, encoded, i, n - 1);
    }
}

/// Every buffer in the list sealed for the first `n` recipients was sealed
/// for one of them.
proof fn lemma_sealed_list_members(
    private_key: Seq<u8>,
    directory: Seq<ResolvedKeyView>,
    recipients: Seq<Seq<char>>,
    nonces: Seq<Seq<u8>>,
    encoded: Seq<u8>,
    n: int,
)
    requires
        0 <= n <= recipients.len(),
    ensures
        forall|k: int|
            0 <= k < sealed_list(private_key, directory, recipients.take(n), nonces, encoded).len()
                ==> exists|j: int|
                0 <= j < n && sealed_for(
                    private_key,
                    directory,
                    recipients[j],
                    nonce_at(nonces, j),
                    encoded,
                ) == Some(
                    #[trigger] sealed_list(
                        private_key,
                        directory,
                        recipients.take(n),
                        nonces,
                        encoded,
                    )[k],
                ),
    decreases n,
{
    if n > 0 {
        let upto = recipients.take(n);
        let list = sealed_list(private_key, directory, upto, nonces, encoded);
        let before = sealed_list(private_key, directory, recipients.take(n - 1), nonces, encoded);
        assert(upto.drop_last() =~= recipients.take(n - 1));
        assert(upto.last() == recipients[n - 1]);
        lemma_sealed_list_members(private_key, directory, recipients, nonces, encoded, n - 1);
        assert forall|k: int| 0 <= k < list.len() implies exists|j: int|
            0 <= j < n && sealed_for(
                private_key,
                directory,
                recipients[j],
                nonce_at(nonces, j),
                encoded,
            ) == Some(#[trigger] list[k]) by {
            if k < before.len() {
                assert(list[k] == before[k]);
                let j = choose|j: int|
                    0 <= j < n - 1 && sealed_for(
                        private_key,
                        directory,
                        recipients[j],
                        nonce_at(nonces, j),
                        encoded,
                    ) == Some(before[k]);
                assert(0 <= j < n);
            } else {
                assert(sealed_for(
                    private_key,
                    directory,
                    recipients[n - 1],
                    nonce_at(nonces, n - 1),
                    encoded,
                ) == Some(list[k]));
            }
        }
    }
}

/// Round trip on the plain path: what `encode` made of `data`, `decode` reads
/// back as `data`.
pub proof fn lemma_decode_inverts_encode(
    before: SataView,
    codec: Codec,
    kind: Kind,
    data: Seq<u8>,
    time: i64,
    after: SataView,
)
    requires
        encode_returns(before, codec, kind, data, time, Ok(after)),
    ensures
        decode_spec(after) == Ok::<Seq<u8>, Error>(data),
{
}

/// Whether the directory resolves `reference` to the agreement key that
/// belongs to `private_key`, a key of 32 bytes.
pub open spec fn holds_key_of(
    directory: Seq<ResolvedKeyView>,
    reference: Seq<char>,
    private_key: Seq<u8>,
) -> bool {
    resolved(directory, reference) == Some(agreement_key_of(private_key)) && agreement_key_of(
        private_key,
    ).len() == AGREEMENT_KEY_LEN
}

/// How many of the recipients a buffer is sealed for.
pub open spec fn sealed_count(
    private_key: Seq<u8>,
    directory: Seq<ResolvedKeyView>,
    recipients: Seq<Seq<char>>,
    nonces: Seq<Seq<u8>>,
    encoded: Seq<u8>,
) -> nat
    decreases recipients.len(),
{
    if recipients.len() == 0 {
        0
    } else {
        let before = sealed_count(private_key, directory, recipients.drop_last(), nonces, encoded);
        if sealed_for(
            private_key,
            directory,
            recipients.last(),
            nonce_at(nonces, recipients.len() - 1),
            encoded,
        ) is Some {
            before + 1
        } else {
            before
        }
    }
}

/// For whom a buffer is sealed: for each recipient whose reference resolves
/// to a secret, whose nonce has 12 bytes, where the encoded data are within
/// the cipher's limit; and for no other. The buffer ends with the nonce.
pub proof fn lemma_sealed_for_whom(
    private_key: Seq<u8>,
    directory: Seq<ResolvedKeyView>,
    recipient: Seq<char>,
    nonce: Seq<u8>,
    encoded: Seq<u8>,
)
    ensures
        sealed_for(private_key, directory, recipient, nonce, encoded) is Some <==> (shared_secret(
            private_key,
            directory,
            recipient,
        ) is Some && nonce.len() == NONCE_LEN && encoded.len() <= MAX_PLAINTEXT_LEN),
        sealed_for(private_key, directory, recipient, nonce, encoded) matches Some(sealed)
            ==> nonce_of(sealed) == nonce,
{
    if sealed_for(private_key, directory, recipient, nonce, encoded) is Some {
        let sealed = sealed_for(private_key, directory, recipient, nonce, encoded).unwrap();
        assert(nonce_of(sealed) =~= nonce);
    }
}

/// Partial delivery: the list of sealed buffers holds one buffer for each
/// recipient that one is sealed for, and no more.
pub proof fn lemma_sealed_list_len(
    private_key: Seq<u8>,
    directory: Seq<ResolvedKeyView>,
    recipients: Seq<Seq<char>>,
    nonces: Seq<Seq<u8>>,
    encoded: Seq<u8>,
)
    ensures
        sealed_list(private_key, directory, recipients, nonces, encoded).len() == sealed_count(
            private_key,
            directory,
            recipients,
            nonces,
            encoded,
        ),
        sealed_count(private_key, directory, recipients, nonces, encoded) <= recipients.len(),
    decreases recipients.len(),
{
    if recipients.len() > 0 {
        lemma_sealed_list_len(private_key, directory, recipients.drop_last(), nonces, encoded);
    }
}

/// Where a buffer is sealed for each of the first `n` recipients, the list
/// sealed for them holds those buffers, one for each, at the recipients'
/// positions.
proof fn lemma_sealed_list_is_whole(
    private_key: Seq<u8>,
    directory: Seq<ResolvedKeyView>,
    recipients: Seq<Seq<char>>,
    nonces: Seq<Seq<u8>>,
    encoded: Seq<u8>,
    n: int,
)
    requires
        0 <= n <= recipients.len(),
        forall|i: int|
            0 <= i < n ==> (#[trigger] sealed_for(
                private_key,
                directory,
                recipients[i],
                nonce_at(nonces, i),
                encoded,
            )) is Some,
    ensures
        sealed_list(private_key, directory, recipients.take(n), nonces, encoded).len() == n,
        forall|i: int|
            0 <= i < n ==> Some(
                #[trigger] sealed_list(
                    private_key,
                    directory,
                    recipients.take(n),
                    nonces,
                    encoded,
                )[i],
            ) == sealed_for(private_key, directory, recipients[i], nonce_at(nonces, i), encoded),
    decreases n,
{
    if n > 0 {
        let upto = recipients.take(n);
        assert(upto.drop_last() =~= recipients.take(n - 1));
        assert(upto.last() == recipients[n - 1]);
        lemma_sealed_list_is_whole(private_key, directory, recipients, nonces, encoded, n - 1);
        assert(sealed_for(
            private_key,
            directory,
            recipients[n - 1],
            nonce_at(nonces, n - 1),
            encoded,
        ) is Some);
    }
}

/// What `encrypt` writes where every recipient resolves: the payload reads
/// back as a list with one buffer for each recipient, at the recipient's
/// position; each is as long as the encoded data, a 16-byte tag and the
/// 12-byte nonce, ends with the recipient's nonce, and opens under the
/// secret shared with the recipient to the encoded data.
pub proof fn lemma_encrypt_seals_for_every_recipient(
    before: SataView,
    codec: Codec,
    sender: IdentityView,
    kind: Kind,
    data: Seq<u8>,
    directory: Seq<ResolvedKeyView>,
    nonces: Seq<Seq<u8>>,
    time: i64,
    after: SataView,
)
    requires
        encrypt_returns(before, codec, sender, kind, data, directory, nonces, time, Ok(after)),
        drawn(nonces, before.recipient_list().len()),
        codec.encoded_spec(data).unwrap().len() <= MAX_PLAINTEXT_LEN,
        forall|i: int|
            0 <= i < before.recipient_list().len() ==> (#[trigger] shared_secret(
                sender.private_key,
                directory,
                before.recipient_list()[i],
            )) is Some,
    ensures
        json_read(after.data) is Some,
        json_read(after.data).unwrap().len() == before.recipient_list().len(),
        forall|i: int|
            0 <= i < before.recipient_list().len() ==> {
                let sealed = #[trigger] json_read(after.data).unwrap()[i];
                let secret = shared_secret(
                    sender.private_key,
                    directory,
                    before.recipient_list()[i],
                ).unwrap();
                &&& sealed.len() == codec.encoded_spec(data).unwrap().len() + TAG_LEN + NONCE_LEN
                &&& nonce_of(sealed) == nonces[i]
                &&& open_spec(secret, sealed) == Some(codec.encoded_spec(data).unwrap())
            },
{
    let encoded = codec.encoded_spec(data).unwrap();
    let recipients = before.recipient_list();
    let key = sender.private_key;
    let count = recipients.len() as int;
    assert(recipients.take(count) =~= recipients);
    assert forall|i: int| 0 <= i < count implies (#[trigger] sealed_for(
        key,
        directory,
        recipients[i],
        nonce_at(nonces, i),
        encoded,
    )) is Some by {
        assert(shared_secret(key, directory, recipients[i]) is Some);
        assert(nonces[i].len() == NONCE_LEN);
    }
    lemma_sealed_list_is_whole(key, directory, recipients, nonces, encoded, count);
    let list = sealed_list(key, directory, recipients, nonces, encoded);
    assert(json_read(after.data) == Some(list));
    assert forall|i: int| 0 <= i < count implies {
        let sealed = #[trigger] list[i];
        let secret = shared_secret(key, directory, recipients[i]).unwrap();
        &&& sealed.len() == encoded.len() + TAG_LEN + NONCE_LEN
        &&& nonce_of(sealed) == nonces[i]
        &&& open_spec(secret, sealed) == Some(encoded)
    } by {
        assert(shared_secret(key, directory, recipients[i]) is Some);
        assert(nonces[i].len() == NONCE_LEN);
        lemma_sealed_for_whom(key, directory, recipients[i], nonce_at(nonces, i), encoded);
        assert(Some(list[i]) == sealed_for(
            key,
            directory,
            recipients[i],
            nonce_at(nonces, i),
            encoded,
        ));
    }
}

/// Round trip for any number of recipients: from an envelope that `encrypt`
/// made, the recipient at position `i` recovers the data. It is asked that
/// the two directories hold the agreement keys that belong to the private
/// keys of recipient and sender, that the recipient's nonce has 12 bytes and
/// the encoded data are within the cipher's limit, and that the buffers
/// sealed for earlier recipients fail closed under the shared secret.
pub proof fn lemma_recipient_recovers(
    before: SataView,
    codec: Codec,
    sender: IdentityView,
    kind: Kind,
    data: Seq<u8>,
    directory: Seq<ResolvedKeyView>,
    nonces: Seq<Seq<u8>>,
    time: i64,
    after: SataView,
    who: IdentityView,
    their_directory: Seq<ResolvedKeyView>,
    i: int,
)
    requires
        encrypt_returns(before, codec, sender, kind, data, directory, nonces, time, Ok(after)),
        before.recipients is Some,
        0 <= i < before.recipient_list().len(),
        before.recipient_list()[i] == reference_of(who.fingerprint),
        nonce_at(nonces, i).len() == NONCE_LEN,
        codec.encoded_spec(data).unwrap().len() <= MAX_PLAINTEXT_LEN,
        who.private_key.len() == AGREEMENT_KEY_LEN,
        holds_key_of(directory, reference_of(who.fingerprint), who.private_key),
        holds_key_of(their_directory, reference_of(sender.fingerprint), sender.private_key),
        earlier_fail_closed(
            agreed_secret(sender.private_key, agreement_key_of(who.private_key)),
            sender.private_key,
            directory,
            before.recipient_list(),
            nonces,
            codec.encoded_spec(data).unwrap(),
            i,
        ),
    ensures
        decrypt_spec(after, who, their_directory) == Ok::<Seq<u8>, Error>(data),
{
    let encoded = codec.encoded_spec(data).unwrap();
    let recipients = after.recipient_list();
    let key = sender.private_key;
    assert(shared_secret(key, directory, recipients[i]) is Some);
    let secret = shared_secret(key, directory, recipients[i]).unwrap();
    assert(secret == agreed_secret(key, agreement_key_of(who.private_key)));
    assert(agrees_both_ways(key, agreement_key_of(who.private_key), secret));
    assert(secret == agreed_secret(who.private_key, agreement_key_of(key)));
    assert(shared_secret(who.private_key, their_directory, reference_of(sender.fingerprint))
        == Some(secret));
    let hit = sealed_for(key, directory, recipients[i], nonce_at(nonces, i), encoded).unwrap();
    let closed = sealed_list(key, directory, recipients.take(i), nonces, encoded);
    let list = sealed_list(key, directory, recipients, nonces, encoded);
    assert(recipients.take(recipients.len() as int) =~= recipients);
    let count = recipients.len() as int;
    lemma_sealed_list_extends(key, directory, recipients, nonces, encoded, i, count);
    let rest = list.subrange(closed.len() as int + 1, list.len() as int);
    assert(list =~= closed.push(hit) + rest);
    lemma_sealed_list_members(key, directory, recipients, nonces, encoded, i);
    assert forall|k: int| 0 <= k < closed.len() implies open_spec(secret, #[trigger] closed[k])
        is None || open_spec(secret, closed[k]) == Some(encoded) by {
        let j = choose|j: int|
            0 <= j < i && sealed_for(key, directory, recipients[j], nonce_at(nonces, j), encoded)
                == Some(closed[k]);
        assert(sealed_for(key, directory, recipients[j], nonce_at(nonces, j), encoded) == Some(
            closed[k],
        ));
    }
    assert(open_spec(secret, hit) == Some(encoded));
    lemma_first_opened_after_closed(secret, closed, hit, rest, encoded);
    assert(json_read(after.data) == Some(list));
    assert(recipients.contains(reference_of(who.fingerprint)));
}

/// Round trip for a single recipient: from an envelope that `encrypt` made
/// for one recipient, that recipient recovers the data. It is asked that the
/// two directories hold the agreement keys that belong to the private keys
/// of recipient and sender, that the nonce has 12 bytes, and that the
/// encoded data are within the cipher's limit.
pub proof fn lemma_single_recipient_recovers(
    before: SataView,
    codec: Codec,
    sender: IdentityView,
    kind: Kind,
    data: Seq<u8>,
    directory: Seq<ResolvedKeyView>,
    nonces: Seq<Seq<u8>>,
    time: i64,
    after: SataView,
    who: IdentityView,
    their_directory: Seq<ResolvedKeyView>,
)
    requires
        encrypt_returns(before, codec, sender, kind, data, directory, nonces, time, Ok(after)),
        before.recipients == Some(seq![reference_of(who.fingerprint)]),
        drawn(nonces, 1),
        codec.encoded_spec(data).unwrap().len() <= MAX_PLAINTEXT_LEN,
        who.private_key.len() == AGREEMENT_KEY_LEN,
        holds_key_of(directory, reference_of(who.fingerprint), who.private_key),
        holds_key_of(their_directory, reference_of(sender.fingerprint), sender.private_key),
    ensures
        decrypt_spec(after, who, their_directory) == Ok::<Seq<u8>, Error>(data),
{
    assert(nonces[0].len() == NONCE_LEN);
    lemma_recipient_recovers(
        before,
        codec,
        sender,
        kind,
        data,
        directory,
        nonces,
        time,
        after,
        who,
        their_directory,
        0,
    );
}

/// Tamper detection after `encode`: where the payload of an envelope that
/// `encode` made is replaced by bytes with another digest, `decode` fails
/// with `InvalidData`.
pub proof fn lemma_tampering_after_encode_is_detected(
    before: SataView,
    codec: Codec,
    kind: Kind,
    data: Seq<u8>,
    time: i64,
    after: SataView,
    tampered: Seq<u8>,
)
    requires
        encode_returns(before, codec, kind, data, time, Ok(after)),
        sha256(tampered) != sha256(after.data),
    ensures
        decode_spec(SataView { data: tampered, ..after }) == Err::<Seq<u8>, Error>(
            Error::InvalidData,
        ),
{
}

/// Tamper detection on any encoded envelope: bytes that do not have the
/// identifier's digest are refused as its payload, and with `InvalidData`
/// where they are not empty and the identifier names a known codec.
pub proof fn lemma_tampered_payload_is_refused(env: SataView, tampered: Seq<u8>)
    requires
        env.state == State::Encoded,
        !env.id.matches(tampered),
    ensures
        decode_spec(SataView { data: tampered, ..env }) is Err,
        tampered.len() > 0 && Codec::from_tag_spec(env.id.codec) is Some ==> decode_spec(
            SataView { data: tampered, ..env },
        ) == Err::<Seq<u8>, Error>(Error::InvalidData),
{
}

/// Tamper detection on both paths: what `decode` or `decrypt` returns was
/// read, by the codec that the identifier names, from bytes that have the
/// identifier's digest.
pub proof fn lemma_recovered_data_is_vouched_for(
    env: SataView,
    who: IdentityView,
    directory: Seq<ResolvedKeyView>,
    data: Seq<u8>,
)
    requires
        decode_spec(env) == Ok::<Seq<u8>, Error>(data) || decrypt_spec(env, who, directory) == Ok::<
            Seq<u8>,
            Error,
        >(data),
    ensures
        exists|encoded: Seq<u8>|
            env.id.matches(encoded) && #[trigger] checked_payload(env.id, encoded) == Ok::<
                Seq<u8>,
                Error,
            >(data),
{
    if decode_spec(env) == Ok::<Seq<u8>, Error>(data) {
        assert(checked_payload(env.id, env.data) == Ok::<Seq<u8>, Error>(data));
    } else {
        let key = crate::identity::resolved(directory, env.sender.unwrap()).unwrap();
        let secret = crate::identity::agreed_secret(who.private_key, key);
        let encoded = first_opened(secret, json_read(env.data).unwrap()).unwrap();
        assert(checked_payload(env.id, encoded) == Ok::<Seq<u8>, Error>(data));
    }
}

/// Tamper detection on the sealed path: where the first buffer that the
/// recipient's secret opens holds bytes that do not have the identifier's
/// digest, `decrypt` fails, and with `InvalidData` where the identifier names
/// a known codec.
pub proof fn lemma_tampered_buffer_is_refused(
    env: SataView,
    who: IdentityView,
    directory: Seq<ResolvedKeyView>,
    opened: Seq<u8>,
)
    requires
        env.state == State::Encrypted,
        env.data.len() > 0,
        env.recipients is Some,
        env.recipient_list().contains(reference_of(who.fingerprint)),
        env.sender is Some,
        shared_secret(who.private_key, directory, env.sender.unwrap()) is Some,
        json_read(env.data) is Some,
        first_opened(
            shared_secret(who.private_key, directory, env.sender.unwrap()).unwrap(),
            json_read(env.data).unwrap(),
        ) == Some(opened),
        !env.id.matches(opened),
    ensures
        decrypt_spec(env, who, directory) is Err,
        Codec::from_tag_spec(env.id.codec) is Some ==> decrypt_spec(env, who, directory) == Err::<
            Seq<u8>,
            Error,
        >(Error::InvalidData),
{
}

/// Non-recipient rejection: an identity that is none of the recipients gets
/// nothing from `decrypt`, whatever keys it holds; on an encrypted envelope
/// the error is `RecipientRequired` where no recipients are set, and
/// `RecipientDoesntExist` else.
pub proof fn lemma_non_recipient_is_rejected(
    env: SataView,
    who: IdentityView,
    directory: Seq<ResolvedKeyView>,
)
    requires
        !env.recipient_list().contains(reference_of(who.fingerprint)),
    ensures
        decrypt_spec(env, who, directory) is Err,
        env.wf() && env.state == State::Encrypted ==> decrypt_spec(env, who, directory) == Err::<
            Seq<u8>,
            Error,
        >(
            if env.recipients is None {
                Error::RecipientRequired
            } else {
                Error::RecipientDoesntExist
            },
        ),
{
}

/// State gating of the reads: `decode` refuses an encrypted envelope and
/// `decrypt` an encoded one, each with its state error.
pub proof fn lemma_reads_are_state_gated(
    env: SataView,
    who: IdentityView,
    directory: Seq<ResolvedKeyView>,
)
    requires
        env.wf(),
    ensures
        env.state == State::Encrypted ==> decode_spec(env) == Err::<Seq<u8>, Error>(
            Error::CannotDecodeEncrypted,
        ),
        env.state == State::Encoded ==> decrypt_spec(env, who, directory) == Err::<Seq<u8>, Error>(
            Error::AlreadyEncrypted,
        ),
{
}

/// State gating of the writes: once an envelope has left its initial state,
/// its recipients and sender cannot be changed, and it cannot be encoded or
/// encrypted again; each attempt fails with `InitializedData`.
pub proof fn lemma_writes_are_state_gated(
    env: SataView,
    reference: Seq<char>,
    list: Seq<Seq<char>>,
    codec: Codec,
    sender: IdentityView,
    kind: Kind,
)
    requires
        env.wf(),
        env.state != State::Uninitialized,
    ensures
        add_recipient_spec(env, reference) == Err::<SataView, Error>(Error::InitializedData),
        add_recipients_spec(env, list) == Err::<SataView, Error>(Error::InitializedData),
        address_spec(env, list, reference) == Err::<SataView, Error>(Error::InitializedData),
        remove_recipient_failure(env, reference) == Some(Error::InitializedData),
        encode_failure(env, codec, kind) == Some(Error::InitializedData),
        encrypt_failure(env, codec, sender, kind) == Some(Error::InitializedData),
{
}

/// Idempotent read: two reads of the same envelope, by the same identity
/// with the same directory, return the same.
pub proof fn lemma_reads_agree(
    env: SataView,
    who: IdentityView,
    directory: Seq<ResolvedKeyView>,
    first: Result<Seq<u8>, Error>,
    second: Result<Seq<u8>, Error>,
)
    requires
        (first == decode_spec(env) && second == decode_spec(env)) || (first == decrypt_spec(
            env,
            who,
            directory,
        ) && second == decrypt_spec(env, who, directory)),
    ensures
        first == second,
{
}

} // verus!
