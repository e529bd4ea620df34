//! What the envelope's operations return, as functions of mathematical
//! values.

use crate::cipher::NONCE_LEN;
use crate::codec::holds_lists;
use crate::codec::Codec;
use crate::error::Error;
use crate::identifier::content_id;
use crate::identifier::unset_id;
use crate::identifier::ContentIdView;
use crate::identity::agreed_secret;
use crate::identity::reference_of;
use crate::identity::resolved;
use crate::identity::IdentityView;
use crate::identity::ResolvedKeyView;
use crate::identity::AGREEMENT_KEY_LEN;
use crate::state::Kind;
use crate::state::State;
use crate::wire::first_opened;
use crate::wire::json_read;
use crate::wire::json_written;
use crate::wire::opens_back;
use crate::wire::sealed_list;
use vstd::prelude::*;

verus! {

/// An envelope as a mathematical value.
pub struct SataView {
    pub id: ContentIdView,
    pub version: u32,
    pub kind: Kind,
    pub state: State,
    pub timestamp: i64,
    pub data: Seq<u8>,
    pub sender: Option<Seq<char>>,
    pub recipients: Option<Seq<Seq<char>>>,
}

impl SataView {
    /// What holds of every envelope: it has left its initial state exactly
    /// when it has a kind, when it has a payload, and when its identifier is
    /// set.
    pub open spec fn wf(self) -> bool {
        &&& (self.state == State::Uninitialized) == (self.kind == Kind::Uninitialized)
        &&& (self.state == State::Uninitialized) == (self.data.len() == 0)
        &&& if self.state == State::Uninitialized {
            self.id == unset_id()
        } else {
            self.id.is_set()
        }
    }

    /// The envelope's recipients; none where the list is unset.
    pub open spec fn recipient_list(self) -> Seq<Seq<char>> {
        match self.recipients {
            Some(list) => list,
            None => Seq::empty(),
        }
    }
}

/// A result that holds bytes, as a mathematical value.
pub open spec fn bytes_view(r: Result<Vec<u8>, Error>) -> Result<Seq<u8>, Error> {
    match r {
        Ok(bytes) => Ok(bytes@),
        Err(e) => Err(e),
    }
}

/// The references of the identities, in their order.
pub open spec fn references(identities: Seq<IdentityView>) -> Seq<Seq<char>> {
    identities.map_values(|who: IdentityView| reference_of(who.fingerprint))
}

/// Whether `i` is the first position at which the list holds `reference`.
pub open spec fn first_at(list: Seq<Seq<char>>, reference: Seq<char>, i: int) -> bool {
    &&& 0 <= i < list.len()
    &&& list[i] == reference
    &&& forall|j: int| 0 <= j < i ==> list[j] != reference
}

/// Whether recipients and sender may still be changed: only while the
/// envelope is in its initial state.
pub open spec fn open_for_addressing(env: SataView) -> bool {
    env.state == State::Uninitialized && env.kind == Kind::Uninitialized
}

/// What adding one recipient makes of an envelope.
pub open spec fn add_recipient_spec(env: SataView, reference: Seq<char>) -> Result<
    SataView,
    Error,
> {
    if !open_for_addressing(env) {
        Err(Error::InitializedData)
    } else if env.recipient_list().contains(reference) {
        Err(Error::RecipientExist)
    } else {
        Ok(SataView { recipients: Some(env.recipient_list().push(reference)), ..env })
    }
}

/// What replacing the recipients makes of an envelope.
pub open spec fn add_recipients_spec(env: SataView, list: Seq<Seq<char>>) -> Result<
    SataView,
    Error,
> {
    if !open_for_addressing(env) {
        Err(Error::InitializedData)
    } else {
        Ok(SataView { recipients: Some(list), ..env })
    }
}

/// What setting recipients and sender makes of an envelope.
pub open spec fn address_spec(env: SataView, list: Seq<Seq<char>>, sender: Seq<char>) -> Result<
    SataView,
    Error,
> {
    if !open_for_addressing(env) {
        Err(Error::InitializedData)
    } else {
        Ok(SataView { recipients: Some(list), sender: Some(sender), ..env })
    }
}

/// Why a recipient cannot be removed, if it cannot.
pub open spec fn remove_recipient_failure(env: SataView, reference: Seq<char>) -> Option<Error> {
    if env.state != State::Uninitialized {
        Some(Error::InitializedData)
    } else if !env.recipient_list().contains(reference) {
        Some(Error::PositionNotFound)
    } else {
        None
    }
}

/// The envelope in its initial state, stamped with `timestamp`.
pub open spec fn initial_envelope(timestamp: i64) -> SataView {
    SataView {
        id: unset_id(),
        version: 0,
        kind: Kind::Uninitialized,
        state: State::Uninitialized,
        timestamp,
        data: Seq::empty(),
        sender: None,
        recipients: None,
    }
}

/// Whether an envelope may be given a payload of this kind: it is still in
/// its initial state, and `kind` is a kind and not the sentinel.
pub open spec fn may_transition(env: SataView, kind: Kind) -> bool {
    kind != Kind::Uninitialized && env.kind == Kind::Uninitialized && env.state
        == State::Uninitialized
}

/// The timestamp of the envelope that a result holds; 0 for an error.
pub open spec fn time_of(r: Result<SataView, Error>) -> i64 {
    match r {
        Ok(out) => out.timestamp,
        Err(_) => 0,
    }
}

/// Why `encode` fails, if it fails: `InitializedData` where the envelope may
/// not take a payload of this kind, `AnyhowError` where the codec writes no
/// byte payloads.
pub open spec fn encode_failure(env: SataView, codec: Codec, kind: Kind) -> Option<Error> {
    if !may_transition(env, kind) {
        Some(Error::InitializedData)
    } else if !holds_lists(codec.tag_spec()) {
        Some(Error::AnyhowError)
    } else {
        None
    }
}

/// The envelope that `encode` makes, stamped with `timestamp`.
pub open spec fn encoded_envelope(
    env: SataView,
    codec: Codec,
    kind: Kind,
    data: Seq<u8>,
    timestamp: i64,
) -> SataView
    recommends
        encode_failure(env, codec, kind) is None,
{
    let encoded = codec.encoded_spec(data).unwrap();
    SataView {
        id: content_id(codec, encoded),
        kind,
        state: State::Encoded,
        timestamp,
        data: encoded,
        ..env
    }
}

/// Whether `r` is what `encode` returns at the time `time`: an error exactly
/// where `encode_failure` names one, and else the encoded envelope stamped
/// with `time`, from which `decode` reads `data` again.
pub open spec fn encode_returns(
    env: SataView,
    codec: Codec,
    kind: Kind,
    data: Seq<u8>,
    time: i64,
    r: Result<SataView, Error>,
) -> bool {
    match r {
        Ok(out) => {
            &&& encode_failure(env, codec, kind) is None
            &&& out == encoded_envelope(env, codec, kind, data, time)
            &&& out.wf()
            &&& decode_spec(out) == Ok::<Seq<u8>, Error>(data)
        },
        Err(e) => encode_failure(env, codec, kind) == Some(e),
    }
}

/// What is read from encoded bytes that an identifier vouches for: the
/// codec that the identifier names must be known, the bytes must have the
/// identifier's digest, and the codec must read a byte payload from them.
pub open spec fn checked_payload(id: ContentIdView, encoded: Seq<u8>) -> Result<Seq<u8>, Error> {
    match Codec::from_tag_spec(id.codec) {
        None => Err(Error::IpldCodecError),
        Some(codec) => if !id.matches(encoded) {
            Err(Error::InvalidData)
        } else {
            match codec.decoded_spec(encoded) {
                None => Err(Error::AnyhowError),
                Some(data) => Ok(data),
            }
        },
    }
}

/// What `decode` returns.
pub open spec fn decode_spec(env: SataView) -> Result<Seq<u8>, Error> {
    if env.data.len() == 0 {
        Err(Error::InvalidData)
    } else if env.state == State::Encrypted {
        Err(Error::CannotDecodeEncrypted)
    } else if env.state == State::Uninitialized {
        Err(Error::Unknown)
    } else {
        checked_payload(env.id, env.data)
    }
}

/// Why an identity may not seal a payload of this kind into an envelope, if
/// it may not; nothing is encoded and no key is looked up.
pub open spec fn sender_failure(env: SataView, sender: IdentityView, kind: Kind) -> Option<Error> {
    if !may_transition(env, kind) {
        Some(Error::InitializedData)
    } else if sender.private_key.len() != AGREEMENT_KEY_LEN {
        Some(Error::PrivateKeyRequired)
    } else {
        None
    }
}

/// Whether `nonces` holds one 12-byte nonce for each of `count` recipients.
pub open spec fn drawn(nonces: Seq<Seq<u8>>, count: nat) -> bool {
    &&& nonces.len() == count
    &&& forall|i: int| 0 <= i < nonces.len() ==> (#[trigger] nonces[i]).len() == NONCE_LEN
}

/// The payload of the envelope that `encrypt` makes: the list of the buffers
/// sealed for the envelope's recipients, as it is written.
pub open spec fn sealed_payload(
    env: SataView,
    sender: IdentityView,
    directory: Seq<ResolvedKeyView>,
    nonces: Seq<Seq<u8>>,
    encoded: Seq<u8>,
) -> Seq<u8> {
    json_written(sealed_list(sender.private_key, directory, env.recipient_list(), nonces, encoded))
}

/// Why `encrypt` fails, if it fails: as `sender_failure` says, and with
/// `AnyhowError` where the codec writes no byte payloads. Recipients and
/// nonces decide nothing of it.
pub open spec fn encrypt_failure(
    env: SataView,
    codec: Codec,
    sender: IdentityView,
    kind: Kind,
) -> Option<Error> {
    match sender_failure(env, sender, kind) {
        Some(e) => Some(e),
        None => if !holds_lists(codec.tag_spec()) {
            Some(Error::AnyhowError)
        } else {
            None
        },
    }
}

/// The envelope that `encrypt` makes when it seals with these nonces,
/// stamped with `timestamp`.
pub open spec fn encrypted_envelope(
    env: SataView,
    codec: Codec,
    sender: IdentityView,
    kind: Kind,
    data: Seq<u8>,
    directory: Seq<ResolvedKeyView>,
    nonces: Seq<Seq<u8>>,
    timestamp: i64,
) -> SataView
    recommends
        encrypt_failure(env, codec, sender, kind) is None,
{
    let encoded = codec.encoded_spec(data).unwrap();
    SataView {
        id: content_id(codec, encoded),
        kind,
        state: State::Encrypted,
        timestamp,
        data: sealed_payload(env, sender, directory, nonces, encoded),
        sender: Some(reference_of(sender.fingerprint)),
        ..env
    }
}

/// What makes the payload of an encrypted envelope recoverable: its
/// identifier vouches for the encoded data and the codec reads `data` from
/// them, the payload reads back as the list of sealed buffers, and each
/// buffer has its length and opens under the secret it was sealed with.
pub open spec fn recoverable(
    env: SataView,
    codec: Codec,
    sender: IdentityView,
    directory: Seq<ResolvedKeyView>,
    nonces: Seq<Seq<u8>>,
    data: Seq<u8>,
) -> bool {
    let encoded = codec.encoded_spec(data).unwrap();
    &&& checked_payload(env.id, encoded) == Ok::<Seq<u8>, Error>(data)
    &&& json_read(env.data) == Some(
        sealed_list(sender.private_key, directory, env.recipient_list(), nonces, encoded),
    )
    &&& opens_back(sender.private_key, directory, env.recipient_list(), nonces, encoded)
}

/// Whether `r` is what `encrypt` returns at the time `time` when it seals
/// with these nonces: an error exactly where `encrypt_failure` names one,
/// and else the encrypted envelope stamped with `time`, whose payload is
/// recoverable.
pub open spec fn encrypt_returns(
    env: SataView,
    codec: Codec,
    sender: IdentityView,
    kind: Kind,
    data: Seq<u8>,
    directory: Seq<ResolvedKeyView>,
    nonces: Seq<Seq<u8>>,
    time: i64,
    r: Result<SataView, Error>,
) -> bool {
    match r {
        Ok(out) => {
            &&& encrypt_failure(env, codec, sender, kind) is None
            &&& out == encrypted_envelope(env, codec, sender, kind, data, directory, nonces, time)
            &&& out.wf()
            &&& recoverable(out, codec, sender, directory, nonces, data)
        },
        Err(e) => encrypt_failure(env, codec, sender, kind) == Some(e),
    }
}

/// Why an identity may not read an encrypted envelope, if it may not; no key
/// is looked at.
pub open spec fn access_failure(env: SataView, who: IdentityView) -> Option<Error> {
    if env.data.len() == 0 {
        Some(Error::InvalidData)
    } else if env.state == State::Encoded {
        Some(Error::AlreadyEncrypted)
    } else if env.state == State::Uninitialized {
        Some(Error::Unknown)
    } else if env.recipients is None {
        Some(Error::RecipientRequired)
    } else if !env.recipient_list().contains(reference_of(who.fingerprint)) {
        Some(Error::RecipientDoesntExist)
    } else if env.sender is None {
        Some(Error::Unknown)
    } else {
        None
    }
}

/// What `decrypt` returns.
pub open spec fn decrypt_spec(
    env: SataView,
    who: IdentityView,
    directory: Seq<ResolvedKeyView>,
) -> Result<Seq<u8>, Error> {
    match access_failure(env, who) {
        Some(e) => Err(e),
        None => match resolved(directory, env.sender.unwrap()) {
            None => Err(Error::AnyhowError),
            Some(key) => if key.len() != AGREEMENT_KEY_LEN {
                Err(Error::AnyhowError)
            } else if who.private_key.len() != AGREEMENT_KEY_LEN {
                Err(Error::PrivateKeyRequired)
            } else {
                match json_read(env.data) {
                    None => Err(Error::SerdeJsonError),
                    Some(list) => match first_opened(agreed_secret(who.private_key, key), list) {
                        None => Err(Error::PositionNotFound),
                        Some(encoded) => checked_payload(env.id, encoded),
                    },
                }
            },
        },
    }
}

/// The directory's entries for those references of the list that resolve,
/// in the order of the list.
pub open spec fn resolved_entries(
    directory: Seq<ResolvedKeyView>,
    list: Seq<Seq<char>>,
) -> Seq<ResolvedKeyView>
    decreases list.len(),
{
    if list.len() == 0 {
        Seq::empty()
    } else {
        let before = resolved_entries(directory, list.drop_last());
        match resolved(directory, list.last()) {
            Some(key) => before.push(
                ResolvedKeyView { reference: list.last(), agreement_key: key },
            ),
            None => before,
        }
    }
}

} // verus!
