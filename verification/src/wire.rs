//! The payload of an encrypted envelope: an ordered list of sealed buffers,
//! one for each recipient, written as a JSON array of byte arrays.

use crate::cipher::aes256gcm_decrypt;
use crate::cipher::open_spec;
use crate::cipher::seal_spec;
use crate::cipher::seal_with_nonce;
use crate::cipher::NONCE_LEN;
use crate::cipher::TAG_LEN;
use crate::error::Error;
use crate::identity::agree;
use crate::identity::agrees_both_ways;
use crate::identity::resolved;
use crate::identity::shared_secret;
use crate::identity::ResolvedKey;
use crate::identity::ResolvedKeyView;
use vstd::prelude::*;

verus! {

/// The JSON text that stands for a list of byte strings.
pub uninterp spec fn json_written(list: Seq<Seq<u8>>) -> Seq<u8>;

/// The list of byte strings that a JSON text stands for, or `None` where
/// the text is no such list.
pub uninterp spec fn json_read(bytes: Seq<u8>) -> Option<Seq<Seq<u8>>>;

/// Calls `serde_json::to_vec` on the list; `None` stands for its error.
/// Trusted: a list of byte lists is always written; the result is a function
/// of the list and is not empty; and what was written,
/// `serde_json::from_slice` reads back as the same list.
#[verifier::external_body]
fn json_to_vec(list: &Vec<Vec<u8>>) -> (r: Option<Vec<u8>>)
    ensures
        r is Some,
        r.unwrap()@ == json_written(list.deep_view()),
        r.unwrap()@.len() > 0,
        json_read(r.unwrap()@) == Some(list.deep_view()),
{
    serde_json::to_vec(list).ok()
}

/// Calls `serde_json::from_slice` for a list of byte lists; `None` stands for
/// its error.
/// Trusted: the result is a function of the bytes.
#[verifier::external_body]
fn json_from_slice(bytes: &[u8]) -> (r: Option<Vec<Vec<u8>>>)
    ensures
        match r {
            Some(list) => json_read(bytes@) == Some(list.deep_view()),
            None => json_read(bytes@) is None,
        },
{
    serde_json::from_slice(bytes).ok()
}

/// Writes the list of sealed buffers as a payload.
///
/// Always succeeds, with what `json_written` gives, which is not empty. What
/// it returns, `read_sealed_list` reads back as the same list.
pub fn write_sealed_list(list: &Vec<Vec<u8>>) -> (r: Result<Vec<u8>, Error>)
    ensures
        r is Ok,
        r.unwrap()@ == json_written(list.deep_view()),
        r.unwrap()@.len() > 0,
        json_read(r.unwrap()@) == Some(list.deep_view()),
{
    match json_to_vec(list) {
        Some(bytes) => Ok(bytes),
        None => Err(Error::SerdeJsonError),
    }
}

/// Reads the list of sealed buffers from a payload.
///
/// Returns what `json_read` gives, and `SerdeJsonError` where that is `None`.
pub fn read_sealed_list(bytes: &[u8]) -> (r: Result<Vec<Vec<u8>>, Error>)
    ensures
        match r {
            Ok(list) => json_read(bytes@) == Some(list.deep_view()),
            Err(e) => e == Error::SerdeJsonError && json_read(bytes@) is None,
        },
{
    match json_from_slice(bytes) {
        Some(list) => Ok(list),
        None => Err(Error::SerdeJsonError),
    }
}

/// What the first buffer that `secret` opens, opens to.
pub open spec fn first_opened(secret: Seq<u8>, sealed: Seq<Seq<u8>>) -> Option<Seq<u8>>
    decreases sealed.len(),
{
    if sealed.len() == 0 {
        None
    } else {
        match open_spec(secret, sealed[0]) {
            Some(plaintext) => Some(plaintext),
            None => first_opened(secret, sealed.drop_first()),
        }
    }
}

/// Trial recovery: tries `secret` on each sealed buffer in order and returns
/// what the first one that opens holds; `PositionNotFound` where none opens.
pub fn recover(secret: &[u8], sealed: &Vec<Vec<u8>>) -> (r: Result<Vec<u8>, Error>)
    ensures
        match r {
            Ok(plaintext) => first_opened(secret@, sealed.deep_view()) == Some(plaintext@),
            Err(e) => e == Error::PositionNotFound && first_opened(secret@, sealed.deep_view())
                is None,
        },
{
    let ghost all = sealed.deep_view();
    let mut i: usize = 0;
    assert(all.skip(0) =~= all);
    while i < sealed.len()
        invariant
            i <= sealed@.len(),
            all == sealed.deep_view(),
            first_opened(secret@, all) == first_opened(secret@, all.skip(i as int)),
        decreases sealed@.len() - i,
    {
        proof {
            let rest = all.skip(i as int);
            assert(rest[0] == sealed@[i as int]@);
            assert(rest.drop_first() =~= all.skip(i + 1));
        }
        match aes256gcm_decrypt(secret, sealed[i].as_slice()) {
            Ok(plaintext) => {
                return Ok(plaintext);
            },
            Err(_) => {},
        }
        i = i + 1;
    }
    assert(all.skip(i as int).len() == 0);
    Err(Error::PositionNotFound)
}

/// The nonce drawn for the recipient at position `i`; the empty string where
/// none was drawn.
pub open spec fn nonce_at(nonces: Seq<Seq<u8>>, i: int) -> Seq<u8> {
    if 0 <= i < nonces.len() {
        nonces[i]
    } else {
        Seq::empty()
    }
}

/// The buffer sealed for one recipient: `encoded` under the secret shared
/// with it. `None` where no secret can be agreed, where the nonce is not 12
/// bytes long, and where `encoded` is longer than the cipher seals.
pub open spec fn sealed_for(
    private_key: Seq<u8>,
    directory: Seq<ResolvedKeyView>,
    recipient: Seq<char>,
    nonce: Seq<u8>,
    encoded: Seq<u8>,
) -> Option<Seq<u8>> {
    match shared_secret(private_key, directory, recipient) {
        Some(secret) => seal_spec(secret, nonce, encoded),
        None => None,
    }
}

/// The sealed buffers for the recipients, in their order; a recipient for
/// whom nothing can be sealed is passed over.
pub open spec fn sealed_list(
    private_key: Seq<u8>,
    directory: Seq<ResolvedKeyView>,
    recipients: Seq<Seq<char>>,
    nonces: Seq<Seq<u8>>,
    encoded: Seq<u8>,
) -> Seq<Seq<u8>>
    decreases recipients.len(),
{
    if recipients.len() == 0 {
        Seq::empty()
    } else {
        let before = sealed_list(private_key, directory, recipients.drop_last(), nonces, encoded);
        match sealed_for(
            private_key,
            directory,
            recipients.last(),
            nonce_at(nonces, recipients.len() - 1),
            encoded,
        ) {
            Some(sealed) => before.push(sealed),
            None => before,
        }
    }
}

/// Whether each secret shared with a recipient is one that the recipient
/// agrees on too, and each buffer sealed for a recipient has the length of
/// `encoded`, a 16-byte tag and the 12-byte nonce, and opens again, under
/// the secret shared with that recipient, to `encoded`.
pub open spec fn opens_back(
    private_key: Seq<u8>,
    directory: Seq<ResolvedKeyView>,
    recipients: Seq<Seq<char>>,
    nonces: Seq<Seq<u8>>,
    encoded: Seq<u8>,
) -> bool {
    forall|i: int|
        0 <= i < recipients.len() ==> match #[trigger] shared_secret(
            private_key,
            directory,
            recipients[i],
        ) {
            Some(secret) => agrees_both_ways(
                private_key,
                resolved(directory, recipients[i]).unwrap(),
                secret,
            ) && match seal_spec(secret, nonce_at(nonces, i), encoded) {
                Some(sealed) => sealed.len() == encoded.len() + TAG_LEN + NONCE_LEN && open_spec(
                    secret,
                    sealed,
                ) == Some(encoded),
                None => true,
            },
            None => true,
        }
}

/// Seals `encoded` for each recipient in turn, with the nonce at the
/// recipient's position, and returns the sealed buffers in that order.
pub fn seal_for_recipients(
    private_key: &[u8],
    directory: &Vec<ResolvedKey>,
    recipients: &Vec<String>,
    nonces: &Vec<Vec<u8>>,
    encoded: &[u8],
) -> (list: Vec<Vec<u8>>)
    ensures
        list.deep_view() == sealed_list(
            private_key@,
            directory.deep_view(),
            recipients.deep_view(),
            nonces.deep_view(),
            encoded@,
        ),
        opens_back(
            private_key@,
            directory.deep_view(),
            recipients.deep_view(),
            nonces.deep_view(),
            encoded@,
        ),
{
    let ghost names = recipients.deep_view();
    let ghost drawn = nonces.deep_view();
    let ghost keys = directory.deep_view();
    let mut list: Vec<Vec<u8>> = Vec::new();
    let mut i: usize = 0;
    assert(names.take(0) =~= Seq::<Seq<char>>::empty());
    assert(list.deep_view() =~= Seq::<Seq<u8>>::empty());
    while i < recipients.len()
        invariant
            i <= recipients@.len(),
            names == recipients.deep_view(),
            drawn == nonces.deep_view(),
            keys == directory.deep_view(),
            list.deep_view() == sealed_list(
                private_key@,
                keys,
                names.take(i as int),
                drawn,
                encoded@,
            ),
            opens_back(private_key@, keys, names.take(i as int), drawn, encoded@),
        decreases recipients@.len() - i,
    {
        let ghost before = list.deep_view();
        let ghost upto = names.take(i + 1);
        proof {
            assert(upto.drop_last() =~= names.take(i as int));
            assert(upto.last() == recipients@[i as int]@);
            assert(drawn.len() == nonces@.len());
        }
        let empty: Vec<u8> = Vec::new();
        let nonce: &Vec<u8> = if i < nonces.len() {
            &nonces[i]
        } else {
            &empty
        };
        assert(nonce@ == nonce_at(drawn, i as int));
        match agree(private_key, directory, &recipients[i]) {
            Some(secret) => {
                match seal_with_nonce(secret.as_slice(), nonce.as_slice(), encoded) {
                    Ok(sealed) => {
                        let ghost added = sealed@;
                        list.push(sealed);
                        assert(list@[before.len() as int].deep_view() =~= added);
                        assert(list.deep_view() =~= before.push(added));
                    },
                    Err(_) => {},
                }
            },
            None => {},
        }
        proof {
            assert forall|j: int| 0 <= j < upto.len() implies match #[trigger] shared_secret(
                private_key@,
                keys,
                upto[j],
            ) {
                Some(secret) => agrees_both_ways(
                    private_key@,
                    resolved(keys, upto[j]).unwrap(),
                    secret,
                ) && match seal_spec(secret, nonce_at(drawn, j), encoded@) {
                    Some(sealed) => sealed.len() == encoded@.len() + TAG_LEN + NONCE_LEN
                        && open_spec(secret, sealed) == Some(encoded@),
                    None => true,
                },
                None => true,
            } by {
                if j < i {
                    assert(names.take(i as int)[j] == upto[j]);
                }
            }
        }
        i = i + 1;
    }
    assert(names.take(i as int) =~= names);
    list
}

} // verus!
