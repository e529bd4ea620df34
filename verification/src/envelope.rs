//! The envelope: a payload with its content identifier, its processing state,
//! and the list of identities it is sealed for.

use crate::cipher::generate;
use crate::cipher::NONCE_LEN;
use crate::clock::now;
use crate::codec::Codec;
use crate::error::Error;
use crate::identifier::unset_id;
use crate::identifier::ContentId;
use crate::identifier::Version;
use crate::identity::agree;
use crate::identity::reference_of;
use crate::identity::resolve;
use crate::identity::resolved;
use crate::identity::Identity;
use crate::identity::ResolvedKey;
use crate::identity::ResolvedKeyView;
use crate::identity::AGREEMENT_KEY_LEN;
use crate::model::access_failure;
use crate::model::add_recipient_spec;
use crate::model::bytes_view;
use crate::model::add_recipients_spec;
use crate::model::address_spec;
use crate::model::checked_payload;
use crate::model::decode_spec;
use crate::model::decrypt_spec;
use crate::model::drawn;
use crate::model::encode_returns;
use crate::model::encrypt_returns;
use crate::model::time_of;
use crate::model::first_at;
use crate::model::initial_envelope;
use crate::model::references;
use crate::model::remove_recipient_failure;
use crate::model::resolved_entries;
use crate::model::sender_failure;
use crate::model::SataView;
use crate::state::Kind;
use crate::state::State;
use crate::traits::Time;
use crate::wire::read_sealed_list;
use crate::wire::recover;
use crate::wire::seal_for_recipients;
use crate::wire::write_sealed_list;
use vstd::prelude::*;

verus! {

/// The data envelope.
#[derive(Debug, PartialEq, Eq)]
pub struct Sata {
    /// Identifier of the encoded payload.
    id: ContentId,
    /// Version given by the caller.
    version: u32,
    /// What the payload is for.
    kind: Kind,
    /// How far the envelope has been processed.
    state: State,
    /// When the envelope was made or last processed, in nanoseconds since
    /// the Unix epoch.
    timestamp: i64,
    /// The payload: empty at first, then the encoded bytes, or the list of
    /// sealed buffers.
    data: Vec<u8>,
    /// Reference of the sender.
    sender: Option<String>,
    /// References of the recipients, in the order they were added.
    recipients: Option<Vec<String>>,
}

impl View for Sata {
    type V = SataView;

    closed spec fn view(&self) -> SataView {
        SataView {
            id: self.id@,
            version: self.version,
            kind: self.kind,
            state: self.state,
            timestamp: self.timestamp,
            data: self.data@,
            sender: self.sender.deep_view(),
            recipients: self.recipients.deep_view(),
        }
    }
}

impl Default for Sata {
    /// An envelope in its initial state, stamped with the current time,
    /// which is not negative.
    fn default() -> (env: Sata)
        ensures
            env@ == initial_envelope(env@.timestamp),
            env@.timestamp >= 0,
            env@.wf(),
    {
        Sata::at(now())
    }
}

impl Clone for Sata {
    fn clone(&self) -> (env: Sata)
        ensures
            env@ == self@,
    {
        proof {
            use_type_invariant(self);
        }
        Sata {
            id: self.id.clone(),
            version: self.version,
            kind: self.kind,
            state: self.state,
            timestamp: self.timestamp,
            data: copy_bytes(&self.data),
            sender: copy_reference(&self.sender),
            recipients: copy_references(&self.recipients),
        }
    }
}

impl Time for Sata {
    /// Stamps the envelope with the current time; nothing else changes.
    fn clock_update(&mut self)
        ensures
            final(self)@ == (SataView { timestamp: final(self)@.timestamp, ..old(self)@ }),
            final(self)@.timestamp >= 0,
    {
        let time = now();
        self.stamp(time);
    }

    /// The envelope's timestamp.
    fn get_time(&self) -> (time: i64)
        ensures
            time == self@.timestamp,
    {
        self.timestamp
    }
}

/// A copy of a byte string.
fn copy_bytes(bytes: &Vec<u8>) -> (copy: Vec<u8>)
    ensures
        copy@ == bytes@,
{
    let copy = bytes.clone();
    assert(copy@ =~= bytes@);
    copy
}

/// A copy of an optional reference.
fn copy_reference(reference: &Option<String>) -> (copy: Option<String>)
    ensures
        copy.deep_view() == reference.deep_view(),
{
    match reference {
        Some(r) => Some(r.clone()),
        None => None,
    }
}

/// A copy of a list of references.
fn copy_list(list: &Vec<String>) -> (copy: Vec<String>)
    ensures
        copy.deep_view() == list.deep_view(),
{
    let mut copy: Vec<String> = Vec::new();
    let mut i: usize = 0;
    while i < list.len()
        invariant
            i <= list@.len(),
            copy@.len() == i,
            forall|j: int| 0 <= j < i ==> #[trigger] copy@[j]@ == list@[j]@,
        decreases list@.len() - i,
    {
        copy.push(list[i].clone());
        i = i + 1;
    }
    assert(copy.deep_view() =~= list.deep_view());
    copy
}

/// A copy of an optional list of references.
fn copy_references(list: &Option<Vec<String>>) -> (copy: Option<Vec<String>>)
    ensures
        copy.deep_view() == list.deep_view(),
{
    match list {
        Some(l) => Some(copy_list(l)),
        None => None,
    }
}

/// An envelope or an error, as a mathematical value.
pub open spec fn result_view(r: Result<Sata, Error>) -> Result<SataView, Error> {
    match r {
        Ok(env) => Ok(env@),
        Err(e) => Err(e),
    }
}

/// Checks `encoded` against the identifier and reads the byte payload from
/// it with the codec that the identifier names.
pub fn read_checked(id: &ContentId, encoded: &[u8]) -> (r: Result<Vec<u8>, Error>)
    ensures
        bytes_view(r) == checked_payload(id@, encoded@),
{
    let codec = match Codec::from_tag(id.codec) {
        Ok(codec) => codec,
        Err(e) => {
            return Err(e);
        },
    };
    if !id.verify(encoded) {
        return Err(Error::InvalidData);
    }
    codec.decode(encoded)
}

/// Draws one fresh 12-byte nonce for each of `count` recipients.
pub fn draw_nonces(count: usize) -> (nonces: Vec<Vec<u8>>)
    ensures
        drawn(nonces.deep_view(), count as nat),
{
    let mut nonces: Vec<Vec<u8>> = Vec::new();
    let mut i: usize = 0;
    while i < count
        invariant
            i <= count,
            nonces@.len() == i,
            forall|j: int| 0 <= j < i ==> (#[trigger] nonces@[j])@.len() == NONCE_LEN,
        decreases count - i,
    {
        nonces.push(generate(NONCE_LEN));
        i = i + 1;
    }
    assert forall|j: int| 0 <= j < nonces.deep_view().len() implies (
    #[trigger] nonces.deep_view()[j]).len() == NONCE_LEN by {
        assert(nonces@[j]@.len() == NONCE_LEN);
    }
    nonces
}

/// The first position at which the list holds `reference`, if it holds it.
fn position(list: &Vec<String>, reference: &String) -> (found: Option<usize>)
    ensures
        match found {
            Some(i) => first_at(list.deep_view(), reference@, i as int),
            None => !list.deep_view().contains(reference@),
        },
{
    let mut i: usize = 0;
    while i < list.len()
        invariant
            i <= list@.len(),
            forall|j: int| 0 <= j < i ==> list.deep_view()[j] != reference@,
        decreases list@.len() - i,
    {
        if list[i] == *reference {
            return Some(i);
        }
        i = i + 1;
    }
    None
}

/// The references of the identities, in their order.
fn references_of(identities: &Vec<Identity>) -> (list: Vec<String>)
    ensures
        list.deep_view() == references(identities.deep_view()),
{
    let mut list: Vec<String> = Vec::new();
    let mut i: usize = 0;
    while i < identities.len()
        invariant
            i <= identities@.len(),
            list@.len() == i,
            forall|j: int|
                0 <= j < i ==> #[trigger] list@[j]@ == reference_of(identities@[j]@.fingerprint),
        decreases identities@.len() - i,
    {
        list.push(identities[i].reference());
        i = i + 1;
    }
    assert(list.deep_view() =~= references(identities.deep_view()));
    list
}

impl Sata {
    #[verifier::type_invariant]
    spec fn valid(&self) -> bool {
        self@.wf()
    }

    /// An envelope in its initial state, stamped with `time`.
    pub fn at(time: i64) -> (env: Sata)
        ensures
            env@ == initial_envelope(time),
            env@.wf(),
    {
        Sata {
            id: ContentId::default(),
            version: 0,
            kind: Kind::Uninitialized,
            state: State::Uninitialized,
            timestamp: time,
            data: Vec::new(),
            sender: None,
            recipients: None,
        }
    }

    /// Puts an envelope together from its parts, as they were read from
    /// storage or from the wire.
    ///
    /// Returns `InvalidData` where the parts are not those of an envelope:
    /// exactly where `wf` fails of them.
    pub fn restore(
        id: ContentId,
        version: u32,
        kind: Kind,
        state: State,
        timestamp: i64,
        data: Vec<u8>,
        sender: Option<String>,
        recipients: Option<Vec<String>>,
    ) -> (r: Result<Sata, Error>)
        ensures
            match r {
                Ok(env) => env@ == (SataView {
                    id: id@,
                    version,
                    kind,
                    state,
                    timestamp,
                    data: data@,
                    sender: sender.deep_view(),
                    recipients: recipients.deep_view(),
                }) && env@.wf(),
                Err(e) => e == Error::InvalidData && !(SataView {
                    id: id@,
                    version,
                    kind,
                    state,
                    timestamp,
                    data: data@,
                    sender: sender.deep_view(),
                    recipients: recipients.deep_view(),
                }).wf(),
            },
    {
        let initial = state == State::Uninitialized;
        let id_fits = if initial {
            id.version == Version::V1 && id.codec == 0 && id.digest.len() == 0
        } else {
            id.is_set()
        };
        proof {
            if initial && id_fits {
                assert(id@.digest =~= unset_id().digest);
            }
        }
        if initial != (kind == Kind::Uninitialized) || initial != (data.len() == 0) || !id_fits {
            return Err(Error::InvalidData);
        }
        Ok(Sata { id, version, kind, state, timestamp, data, sender, recipients })
    }

    /// The content identifier; the unset identifier until the envelope is
    /// encoded or encrypted.
    pub fn id(&self) -> (id: ContentId)
        ensures
            id@ == self@.id,
            self@.wf(),
    {
        proof {
            use_type_invariant(self);
        }
        self.id.clone()
    }

    /// The version that the caller gave the envelope.
    pub fn version(&self) -> (version: u32)
        ensures
            version == self@.version,
    {
        self.version
    }

    /// What the payload is for; the sentinel until the envelope is encoded
    /// or encrypted.
    pub fn kind(&self) -> (kind: Kind)
        ensures
            kind == self@.kind,
            self@.wf(),
    {
        proof {
            use_type_invariant(self);
        }
        self.kind
    }

    /// How far the envelope has been processed.
    pub fn state(&self) -> (state: State)
        ensures
            state == self@.state,
            self@.wf(),
    {
        proof {
            use_type_invariant(self);
        }
        self.state
    }

    /// When the envelope was made or last processed, in nanoseconds since
    /// the Unix epoch.
    pub fn timestamp(&self) -> (timestamp: i64)
        ensures
            timestamp == self@.timestamp,
    {
        self.timestamp
    }

    /// A copy of the payload.
    pub fn data(&self) -> (data: Vec<u8>)
        ensures
            data@ == self@.data,
            self@.wf(),
    {
        proof {
            use_type_invariant(self);
        }
        copy_bytes(&self.data)
    }

    /// The sender's reference, where one is set.
    pub fn sender(&self) -> (sender: Option<String>)
        ensures
            sender.deep_view() == self@.sender,
    {
        copy_reference(&self.sender)
    }

    /// The recipients' references in the order they were added, where the
    /// list is set.
    pub fn recipients(&self) -> (recipients: Option<Vec<String>>)
        ensures
            recipients.deep_view() == self@.recipients,
    {
        copy_references(&self.recipients)
    }

    /// Stamps the envelope with `time`, in nanoseconds since the Unix epoch;
    /// nothing else changes.
    pub fn stamp(&mut self, time: i64)
        ensures
            final(self)@ == (SataView { timestamp: time, ..old(self)@ }),
    {
        proof {
            use_type_invariant(&*self);
        }
        self.timestamp = time;
    }

    /// Sets the version; nothing else changes.
    pub fn set_version(&mut self, version: u32)
        ensures
            final(self)@ == (SataView { version, ..old(self)@ }),
    {
        proof {
            use_type_invariant(&*self);
        }
        self.version = version;
    }

    /// Replaces the recipients by the references of `recipients`.
    ///
    /// Fails with `InitializedData`, and changes nothing, once the envelope
    /// has left its initial state.
    pub fn add_recipients(&mut self, recipients: &Vec<Identity>) -> (r: Result<(), Error>)
        ensures
            match r {
                Ok(_) => add_recipients_spec(old(self)@, references(recipients.deep_view()))
                    == Ok::<SataView, Error>(final(self)@),
                Err(e) => add_recipients_spec(old(self)@, references(recipients.deep_view()))
                    == Err::<SataView, Error>(e) && final(self)@ == old(self)@,
            },
    {
        proof {
            use_type_invariant(&*self);
        }
        if self.kind != Kind::Uninitialized || self.state != State::Uninitialized {
            return Err(Error::InitializedData);
        }
        self.recipients = Some(references_of(recipients));
        Ok(())
    }

    /// Adds the reference of `recipient` at the end of the recipients.
    ///
    /// Fails, and changes nothing, with `InitializedData` once the envelope
    /// has left its initial state, and with `RecipientExist` where the list
    /// holds the reference already.
    pub fn add_recipient(&mut self, recipient: &Identity) -> (r: Result<(), Error>)
        ensures
            match r {
                Ok(_) => add_recipient_spec(old(self)@, reference_of(recipient@.fingerprint))
                    == Ok::<SataView, Error>(final(self)@),
                Err(e) => add_recipient_spec(old(self)@, reference_of(recipient@.fingerprint))
                    == Err::<SataView, Error>(e) && final(self)@ == old(self)@,
            },
    {
        proof {
            use_type_invariant(&*self);
        }
        if self.kind != Kind::Uninitialized || self.state != State::Uninitialized {
            return Err(Error::InitializedData);
        }
        let reference = recipient.reference();
        let present = match &self.recipients {
            Some(list) => position(list, &reference).is_some(),
            None => false,
        };
        if present {
            return Err(Error::RecipientExist);
        }
        let ghost before = self@.recipient_list();
        let mut list = match &self.recipients {
            Some(list) => copy_list(list),
            None => Vec::new(),
        };
        assert(list.deep_view() =~= before);
        list.push(reference);
        assert(list.deep_view() =~= before.push(reference_of(recipient@.fingerprint)));
        self.recipients = Some(list);
        Ok(())
    }

    /// Removes the first occurrence of the reference `recipient` and returns
    /// it.
    ///
    /// Fails, and changes nothing, with `InitializedData` once the envelope
    /// has left its initial state, and with `PositionNotFound` where the
    /// recipients do not hold the reference.
    pub fn remove_recipient(&mut self, recipient: &str) -> (r: Result<String, Error>)
        ensures
            match r {
                Ok(removed) => remove_recipient_failure(old(self)@, recipient@) is None
                    && removed@ == recipient@ && exists|i: int|
                    first_at(old(self)@.recipient_list(), recipient@, i) && final(self)@ == (
                    SataView {
                        recipients: Some(#[trigger] old(self)@.recipient_list().remove(i)),
                        ..old(self)@
                    }),
                Err(e) => remove_recipient_failure(old(self)@, recipient@) == Some(e)
                    && final(self)@ == old(self)@,
            },
    {
        proof {
            use_type_invariant(&*self);
        }
        if self.state != State::Uninitialized {
            return Err(Error::InitializedData);
        }
        let reference = recipient.to_owned();
        let found = match &self.recipients {
            Some(list) => position(list, &reference),
            None => None,
        };
        let index = match found {
            Some(index) => index,
            None => {
                return Err(Error::PositionNotFound);
            },
        };
        let ghost before = self@.recipient_list();
        let mut list = match &self.recipients {
            Some(list) => copy_list(list),
            None => Vec::new(),
        };
        assert(list.deep_view() =~= before);
        let item = list.remove(index);
        assert(list.deep_view() =~= before.remove(index as int));
        self.recipients = Some(list);
        Ok(item)
    }

    /// Sets the recipients to the references of `to` and the sender to the
    /// reference of `from`, both at once.
    ///
    /// Fails with `InitializedData`, and changes nothing, once the envelope
    /// has left its initial state.
    pub fn address(&mut self, to: &Vec<Identity>, from: &Identity) -> (r: Result<(), Error>)
        ensures
            match r {
                Ok(_) => address_spec(
                    old(self)@,
                    references(to.deep_view()),
                    reference_of(from@.fingerprint),
                ) == Ok::<SataView, Error>(final(self)@),
                Err(e) => address_spec(
                    old(self)@,
                    references(to.deep_view()),
                    reference_of(from@.fingerprint),
                ) == Err::<SataView, Error>(e) && final(self)@ == old(self)@,
            },
    {
        proof {
            use_type_invariant(&*self);
        }
        if self.kind != Kind::Uninitialized || self.state != State::Uninitialized {
            return Err(Error::InitializedData);
        }
        self.sender = Some(from.reference());
        self.recipients = Some(references_of(to));
        Ok(())
    }

    /// Encodes `data` with `codec` and binds it to its identifier, at the
    /// time `time`.
    ///
    /// Fails with `InitializedData` where the envelope has left its initial
    /// state or `kind` is the sentinel, and with `AnyhowError` where the
    /// codec writes no byte payloads (the raw and the legacy codec). Else the
    /// envelope becomes `Encoded`: it has the kind given, `time` as
    /// timestamp, the encoded bytes as payload and their identifier, and
    /// `decode` returns `data` from it. Version, sender and recipients stay.
    pub fn encode_at(self, codec: Codec, kind: Kind, data: Vec<u8>, time: i64) -> (r: Result<
        Sata,
        Error,
    >)
        ensures
            encode_returns(self@, codec, kind, data@, time, result_view(r)),
    {
        proof {
            use_type_invariant(&self);
        }
        if kind == Kind::Uninitialized || self.kind != Kind::Uninitialized || self.state
            != State::Uninitialized {
            return Err(Error::InitializedData);
        }
        let bytes = match codec.encode(data.as_slice()) {
            Ok(bytes) => bytes,
            Err(e) => {
                return Err(e);
            },
        };
        let id = ContentId::build(codec, bytes.as_slice());
        Ok(
            Sata {
                id,
                version: self.version,
                kind,
                state: State::Encoded,
                timestamp: time,
                data: bytes,
                sender: self.sender,
                recipients: self.recipients,
            },
        )
    }

    /// Encodes `data` with `codec` and binds it to its identifier.
    ///
    /// Does what `encode_at` does at the current time, which is not
    /// negative.
    pub fn encode(self, codec: Codec, kind: Kind, data: Vec<u8>) -> (r: Result<Sata, Error>)
        ensures
            time_of(result_view(r)) >= 0,
            encode_returns(self@, codec, kind, data@, time_of(result_view(r)), result_view(r)),
    {
        self.encode_at(codec, kind, data, now())
    }

    /// Recovers the payload of an encoded envelope.
    ///
    /// Fails with `InvalidData` on an empty payload, with
    /// `CannotDecodeEncrypted` on an encrypted envelope, with `Unknown` on
    /// one in its initial state, with `IpldCodecError` where the identifier
    /// names no known codec, with `InvalidData` where the payload does not
    /// have the identifier's digest, and with `AnyhowError` where the codec
    /// reads no byte payload from it.
    pub fn decode(&self) -> (r: Result<Vec<u8>, Error>)
        ensures
            bytes_view(r) == decode_spec(self@),
    {
        if self.data.len() == 0 {
            return Err(Error::InvalidData);
        }
        match self.state {
            State::Encoded => {},
            State::Encrypted => {
                return Err(Error::CannotDecodeEncrypted);
            },
            State::Uninitialized => {
                return Err(Error::Unknown);
            },
        }
        read_checked(&self.id, self.data.as_slice())
    }

    /// Checks that `keypair` may seal a payload of this kind into the
    /// envelope, without encoding anything or looking up any key.
    ///
    /// Fails with `InitializedData` where the envelope has left its initial
    /// state or `kind` is the sentinel, and with `PrivateKeyRequired` where
    /// `keypair` carries no 32-byte private key.
    pub fn check_sender(&self, keypair: &Identity, kind: Kind) -> (r: Result<(), Error>)
        ensures
            match r {
                Ok(_) => sender_failure(self@, keypair@, kind) is None,
                Err(e) => sender_failure(self@, keypair@, kind) == Some(e),
            },
    {
        proof {
            use_type_invariant(self);
        }
        if kind == Kind::Uninitialized || self.kind != Kind::Uninitialized || self.state
            != State::Uninitialized {
            return Err(Error::InitializedData);
        }
        if !keypair.has_private_key() {
            return Err(Error::PrivateKeyRequired);
        }
        Ok(())
    }

    /// Encodes `data` with `codec`, binds it to its identifier and seals it
    /// for each recipient, with the nonce at the recipient's position in
    /// `nonces`, at the time `time`.
    ///
    /// The secret for a recipient is agreed between the sender's private key
    /// and the key that the recipient's reference resolves to in
    /// `directory`. A recipient is passed over where its reference does not
    /// resolve to a 32-byte key, where `nonces` holds no 12-byte nonce at its
    /// position, and where the encoded data are longer than the cipher
    /// seals; every other recipient gets one buffer, in the recipients'
    /// order.
    ///
    /// Fails as `check_sender` does, and with `AnyhowError` where the codec
    /// writes no byte payloads. Else the envelope becomes `Encrypted`, with
    /// `time` as timestamp and the sender's reference set; version and
    /// recipients stay.
    pub fn encrypt_at(
        self,
        codec: Codec,
        keypair: &Identity,
        kind: Kind,
        data: Vec<u8>,
        directory: &Vec<ResolvedKey>,
        nonces: &Vec<Vec<u8>>,
        time: i64,
    ) -> (r: Result<Sata, Error>)
        ensures
            encrypt_returns(
                self@,
                codec,
                keypair@,
                kind,
                data@,
                directory.deep_view(),
                nonces.deep_view(),
                time,
                result_view(r),
            ),
    {
        proof {
            use_type_invariant(&self);
        }
        match self.check_sender(keypair, kind) {
            Ok(_) => {},
            Err(e) => {
                return Err(e);
            },
        }
        let bytes = match codec.encode(data.as_slice()) {
            Ok(bytes) => bytes,
            Err(e) => {
                return Err(e);
            },
        };
        let id = ContentId::build(codec, bytes.as_slice());
        let nobody: Vec<String> = Vec::new();
        let list = match &self.recipients {
            Some(recipients) => seal_for_recipients(
                keypair.private_key.as_slice(),
                directory,
                recipients,
                nonces,
                bytes.as_slice(),
            ),
            None => seal_for_recipients(
                keypair.private_key.as_slice(),
                directory,
                &nobody,
                nonces,
                bytes.as_slice(),
            ),
        };
        proof {
            if self.recipients is None {
                assert(nobody.deep_view() =~= self@.recipient_list());
            }
        }
        let payload = match write_sealed_list(&list) {
            Ok(payload) => payload,
            Err(e) => {
                return Err(e);
            },
        };
        Ok(
            Sata {
                id,
                version: self.version,
                kind,
                state: State::Encrypted,
                timestamp: time,
                data: payload,
                sender: Some(keypair.reference()),
                recipients: self.recipients,
            },
        )
    }

    /// Encodes `data`, binds it to its identifier and seals it for each
    /// recipient under a fresh random nonce.
    ///
    /// Does what `encrypt_at` does with some list of 12-byte nonces, one for
    /// each recipient, at the current time, which is not negative.
    pub fn encrypt(
        self,
        codec: Codec,
        keypair: &Identity,
        kind: Kind,
        data: Vec<u8>,
        directory: &Vec<ResolvedKey>,
    ) -> (r: Result<Sata, Error>)
        ensures
            time_of(result_view(r)) >= 0,
            exists|nonces: Seq<Seq<u8>>|
                drawn(nonces, self@.recipient_list().len()) && #[trigger] encrypt_returns(
                    self@,
                    codec,
                    keypair@,
                    kind,
                    data@,
                    directory.deep_view(),
                    nonces,
                    time_of(result_view(r)),
                    result_view(r),
                ),
    {
        let count = match &self.recipients {
            Some(recipients) => recipients.len(),
            None => 0,
        };
        let nonces = draw_nonces(count);
        let ghost before = self@;
        let ghost payload = data@;
        let r = self.encrypt_at(codec, keypair, kind, data, directory, &nonces, now());
        assert(encrypt_returns(
            before,
            codec,
            keypair@,
            kind,
            payload,
            directory.deep_view(),
            nonces.deep_view(),
            time_of(result_view(r)),
            result_view(r),
        ));
        r
    }

    /// Checks that `keypair` may read the envelope, without looking at any
    /// key.
    ///
    /// Fails with `InvalidData` on an empty payload, with `AlreadyEncrypted`
    /// on an encoded envelope, with `Unknown` on one in its initial state,
    /// with `RecipientRequired` where no recipients are set, with
    /// `RecipientDoesntExist` where `keypair` is none of them, and with
    /// `Unknown` where no sender is set.
    pub fn check_access(&self, keypair: &Identity) -> (r: Result<(), Error>)
        ensures
            match r {
                Ok(_) => access_failure(self@, keypair@) is None,
                Err(e) => access_failure(self@, keypair@) == Some(e),
            },
    {
        if self.data.len() == 0 {
            return Err(Error::InvalidData);
        }
        match self.state {
            State::Encoded => {
                return Err(Error::AlreadyEncrypted);
            },
            State::Encrypted => {},
            State::Uninitialized => {
                return Err(Error::Unknown);
            },
        }
        match &self.recipients {
            Some(list) => {
                let uri = keypair.reference();
                if position(list, &uri).is_none() {
                    return Err(Error::RecipientDoesntExist);
                }
            },
            None => {
                return Err(Error::RecipientRequired);
            },
        }
        if self.sender.is_none() {
            return Err(Error::Unknown);
        }
        Ok(())
    }

    /// Recovers the payload of an encrypted envelope for one of its
    /// recipients.
    ///
    /// The secret is agreed between the recipient's private key and the key
    /// that the sender's reference resolves to in `directory`; the payload
    /// is what the first sealed buffer that opens under it holds.
    ///
    /// Fails as `check_access` does; then with `AnyhowError` where the sender
    /// does not resolve to a key, with `PrivateKeyRequired` where `keypair`
    /// carries no 32-byte private key, with `SerdeJsonError` where the
    /// payload is no list of buffers, with `PositionNotFound` where no buffer
    /// opens, and then as `decode` does: with `IpldCodecError`, with
    /// `InvalidData` where what was opened does not have the identifier's
    /// digest, and with `AnyhowError`.
    pub fn decrypt(&self, keypair: &Identity, directory: &Vec<ResolvedKey>) -> (r: Result<
        Vec<u8>,
        Error,
    >)
        ensures
            bytes_view(r) == decrypt_spec(self@, keypair@, directory.deep_view()),
    {
        match self.check_access(keypair) {
            Ok(_) => {},
            Err(e) => {
                return Err(e);
            },
        }
        let sender = match &self.sender {
            Some(sender) => sender,
            None => {
                return Err(Error::Unknown);
            },
        };
        match resolve(directory, sender) {
            Some(i) => {
                if directory[i].agreement_key.len() != AGREEMENT_KEY_LEN {
                    return Err(Error::AnyhowError);
                }
            },
            None => {
                return Err(Error::AnyhowError);
            },
        }
        if !keypair.has_private_key() {
            return Err(Error::PrivateKeyRequired);
        }
        let shared_key = match agree(keypair.private_key.as_slice(), directory, sender) {
            Some(shared_key) => shared_key,
            None => {
                return Err(Error::AnyhowError);
            },
        };
        let data_list = match read_sealed_list(self.data.as_slice()) {
            Ok(data_list) => data_list,
            Err(e) => {
                return Err(e);
            },
        };
        let data = match recover(shared_key.as_slice(), &data_list) {
            Ok(data) => data,
            Err(e) => {
                return Err(e);
            },
        };
        read_checked(&self.id, data.as_slice())
    }

    /// What the sender's reference resolves to in `directory`; `None` where
    /// no sender is set or the reference does not resolve.
    pub fn resolved_sender(&self, directory: &Vec<ResolvedKey>) -> (key: Option<ResolvedKey>)
        ensures
            match key {
                Some(key) => self@.sender == Some(key@.reference) && resolved(
                    directory.deep_view(),
                    key@.reference,
                ) == Some(key@.agreement_key),
                None => self@.sender is None || resolved(
                    directory.deep_view(),
                    self@.sender.unwrap(),
                ) is None,
            },
    {
        match &self.sender {
            Some(sender) => match resolve(directory, sender) {
                Some(i) => Some(
                    ResolvedKey::new(sender.clone(), copy_bytes(&directory[i].agreement_key)),
                ),
                None => None,
            },
            None => None,
        }
    }

    /// What the recipients' references resolve to in `directory`, in their
    /// order; a reference that does not resolve is passed over. `None` where
    /// no recipients are set.
    pub fn resolved_recipients(&self, directory: &Vec<ResolvedKey>) -> (keys: Option<
        Vec<ResolvedKey>,
    >)
        ensures
            match keys {
                Some(keys) => self@.recipients is Some && keys.deep_view() == resolved_entries(
                    directory.deep_view(),
                    self@.recipient_list(),
                ),
                None => self@.recipients is None,
            },
    {
        let list = match &self.recipients {
            Some(list) => list,
            None => {
                return None;
            },
        };
        let ghost names = list.deep_view();
        let ghost entries = directory.deep_view();
        let mut keys: Vec<ResolvedKey> = Vec::new();
        let mut i: usize = 0;
        assert(names.take(0) =~= Seq::<Seq<char>>::empty());
        assert(keys.deep_view() =~= Seq::<ResolvedKeyView>::empty());
        while i < list.len()
            invariant
                i <= list@.len(),
                names == list.deep_view(),
                entries == directory.deep_view(),
                keys.deep_view() == resolved_entries(entries, names.take(i as int)),
            decreases list@.len() - i,
        {
            let ghost before = keys.deep_view();
            proof {
                let upto = names.take(i + 1);
                assert(upto.drop_last() =~= names.take(i as int));
                assert(upto.last() == list@[i as int]@);
            }
            match resolve(directory, &list[i]) {
                Some(at) => {
                    let key = ResolvedKey::new(
                        list[i].clone(),
                        copy_bytes(&directory[at].agreement_key),
                    );
                    let ghost added = key@;
                    keys.push(key);
                    assert(keys.deep_view() =~= before.push(added));
                },
                None => {},
            }
            i = i + 1;
        }
        assert(names.take(i as int) =~= names);
        Some(keys)
    }
}

} // verus!
