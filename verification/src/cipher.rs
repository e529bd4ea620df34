//! Symmetric cipher primitive: a SHA-256 digest, random bytes, and sealing and
//! opening of byte buffers with AES-256-GCM.
//!
//! A sealed buffer is the ciphertext with its authentication tag, followed by
//! the 12-byte nonce it was sealed with.

use crate::error::Error;
use aes_gcm::aead::Aead;
use aes_gcm::aead::NewAead;
use digest::Digest;
use vstd::prelude::*;

verus! {

/// Length in bytes of a nonce.
pub const NONCE_LEN: usize = 12;

/// Length in bytes of a cipher key, and of a digest.
pub const KEY_LEN: usize = 32;

/// Length in bytes of the authentication tag that follows the ciphertext.
pub const TAG_LEN: usize = 16;

/// Longest plaintext, in bytes, that is sealed under one nonce: 2^36 - 32,
/// the limit of GCM's 32-bit block counter.
pub const MAX_PLAINTEXT_LEN: u64 = 0xF_FFFF_FFE0;

/// The SHA-256 digest of `data`.
pub uninterp spec fn sha256(data: Seq<u8>) -> Seq<u8>;

/// What AES-256-GCM makes of `plaintext` under `key` and `nonce`, with no
/// associated data: the ciphertext followed by its tag.
pub uninterp spec fn aes256gcm_sealed(key: Seq<u8>, nonce: Seq<u8>, plaintext: Seq<u8>) -> Seq<u8>;

/// What AES-256-GCM recovers from `sealed` (ciphertext and tag) under `key` and
/// `nonce`, or `None` where the tag does not authenticate it.
pub uninterp spec fn aes256gcm_opened(key: Seq<u8>, nonce: Seq<u8>, sealed: Seq<u8>) -> Option<
    Seq<u8>,
>;

/// Calls `sha2::Sha256` (`new`, `update`, `finalize`) on `data`.
/// Trusted: the result is the SHA-256 digest of `data`, which has 32 bytes.
#[verifier::external_body]
fn sha256_digest(data: &[u8]) -> (out: Vec<u8>)
    ensures
        out@ == sha256(data@),
        out@.len() == KEY_LEN,
{
    let mut hasher = sha2::Sha256::new();
    hasher.update(data);
    hasher.finalize().to_vec()
}

/// Calls `getrandom::getrandom` on `buf`.
/// Trusted: the buffer keeps its length; nothing is claimed of the bytes.
/// Panics where the system's entropy source fails.
#[verifier::external_body]
fn fill_random(buf: &mut Vec<u8>)
    ensures
        final(buf)@.len() == old(buf)@.len(),
{
    getrandom::getrandom(buf).unwrap();
}

/// Calls `Aes256Gcm::encrypt` with no associated data; `None` stands for the
/// cipher's error.
/// Trusted: within the limits asked for, where the counter cannot run out,
/// the cipher does not refuse; the result is a function of key, nonce and
/// plaintext; it is the plaintext's length and a 16-byte tag long; and what
/// was sealed, `Aes256Gcm::decrypt` opens again under the same key and nonce.
#[verifier::external_body]
fn aead_encrypt(key: &[u8], nonce: &[u8], plaintext: &[u8]) -> (r: Option<Vec<u8>>)
    requires
        key@.len() == KEY_LEN,
        nonce@.len() == NONCE_LEN,
        plaintext@.len() <= MAX_PLAINTEXT_LEN,
    ensures
        r is Some,
        r.unwrap()@ == aes256gcm_sealed(key@, nonce@, plaintext@),
        r.unwrap()@.len() == plaintext@.len() + TAG_LEN,
        aes256gcm_opened(key@, nonce@, r.unwrap()@) == Some(plaintext@),
{
    let cipher = aes_gcm::Aes256Gcm::new(aes_gcm::Key::from_slice(key));
    cipher.encrypt(aes_gcm::Nonce::from_slice(nonce), plaintext).ok()
}

/// Calls `Aes256Gcm::decrypt` with no associated data; `None` stands for the
/// cipher's error.
/// Trusted: the result is a function of key, nonce and sealed bytes. The
/// limit asked for keeps the counter from running out.
#[verifier::external_body]
fn aead_decrypt(key: &[u8], nonce: &[u8], sealed: &[u8]) -> (r: Option<Vec<u8>>)
    requires
        key@.len() == KEY_LEN,
        nonce@.len() == NONCE_LEN,
        sealed@.len() <= MAX_PLAINTEXT_LEN + TAG_LEN,
    ensures
        match r {
            Some(plaintext) => aes256gcm_opened(key@, nonce@, sealed@) == Some(plaintext@),
            None => aes256gcm_opened(key@, nonce@, sealed@) is None,
        },
{
    let cipher = aes_gcm::Aes256Gcm::new(aes_gcm::Key::from_slice(key));
    cipher.decrypt(aes_gcm::Nonce::from_slice(nonce), sealed).ok()
}

/// The digest of `data` followed by `salt`, where there is one.
pub open spec fn sha256_hash_spec(data: Seq<u8>, salt: Option<Seq<u8>>) -> Seq<u8> {
    match salt {
        Some(s) => sha256(data + s),
        None => sha256(data),
    }
}

/// The 256-bit key that stands for `key`: `key` itself where it has 32 bytes,
/// else its digest salted with the nonce.
pub open spec fn normalized_key(key: Seq<u8>, nonce: Seq<u8>) -> Seq<u8> {
    if key.len() == KEY_LEN {
        key
    } else {
        sha256(key + nonce)
    }
}

/// The sealed buffer for `plaintext` under `key` and `nonce`: ciphertext, tag,
/// then the nonce. `None` where the nonce is not 12 bytes long or the
/// plaintext is longer than `MAX_PLAINTEXT_LEN`.
pub open spec fn seal_spec(key: Seq<u8>, nonce: Seq<u8>, plaintext: Seq<u8>) -> Option<Seq<u8>> {
    if nonce.len() != NONCE_LEN || plaintext.len() > MAX_PLAINTEXT_LEN {
        None
    } else {
        Some(aes256gcm_sealed(normalized_key(key, nonce), nonce, plaintext) + nonce)
    }
}

/// The nonce that a sealed buffer ends with.
pub open spec fn nonce_of(sealed: Seq<u8>) -> Seq<u8>
    recommends
        sealed.len() >= NONCE_LEN,
{
    sealed.subrange(sealed.len() - NONCE_LEN, sealed.len() as int)
}

/// What `key` opens `sealed` to. `None` where `sealed` is too short to end
/// with a nonce, too long to have been sealed, or the cipher does not
/// authenticate it.
pub open spec fn open_spec(key: Seq<u8>, sealed: Seq<u8>) -> Option<Seq<u8>> {
    if sealed.len() < NONCE_LEN || sealed.len() > MAX_PLAINTEXT_LEN + TAG_LEN + NONCE_LEN {
        None
    } else {
        aes256gcm_opened(
            normalized_key(key, nonce_of(sealed)),
            nonce_of(sealed),
            sealed.subrange(0, sealed.len() - NONCE_LEN),
        )
    }
}

/// Splits `data` into its last `size` bytes and what stands before them.
/// The trailing part comes first in the result.
pub fn extract_data_slice(data: &[u8], size: usize) -> (parts: (&[u8], &[u8]))
    requires
        size <= data@.len(),
    ensures
        parts.0@ == data@.subrange(data@.len() - size, data@.len() as int),
        parts.1@ == data@.subrange(0, data@.len() - size),
{
    let cut: usize = data.len() - size;
    let extracted = vstd::slice::slice_subrange(data, cut, data.len());
    let payload = vstd::slice::slice_subrange(data, 0, cut);
    (extracted, payload)
}

/// SHA-256 of `data` followed by `salt`, where one is given.
pub fn sha256_hash(data: &[u8], salt: Option<Vec<u8>>) -> (out: Vec<u8>)
    ensures
        out@ == sha256_hash_spec(
            data@,
            match salt {
                Some(s) => Some(s@),
                None => None,
            },
        ),
        out@.len() == KEY_LEN,
{
    match salt {
        Some(s) => {
            let mut salted = vstd::slice::slice_to_vec(data);
            salted.extend_from_slice(s.as_slice());
            assert(salted@ =~= data@ + s@);
            sha256_digest(salted.as_slice())
        },
        None => sha256_digest(data),
    }
}

/// `limit` bytes from the system's entropy source.
pub fn generate(limit: usize) -> (out: Vec<u8>)
    ensures
        out@.len() == limit,
{
    let mut buf: Vec<u8> = vec![0u8; limit];
    fill_random(&mut buf);
    buf
}

/// The key that the cipher is run with for `key` and `nonce`.
fn normalize_key(key: &[u8], nonce: &[u8]) -> (out: Vec<u8>)
    ensures
        out@ == normalized_key(key@, nonce@),
        out@.len() == KEY_LEN,
{
    if key.len() == KEY_LEN {
        vstd::slice::slice_to_vec(key)
    } else {
        sha256_hash(key, Some(vstd::slice::slice_to_vec(nonce)))
    }
}

/// Seals `data` under `key` with the nonce given.
///
/// Succeeds exactly where the nonce has 12 bytes and the data are no longer
/// than `MAX_PLAINTEXT_LEN`, with the value of `seal_spec`: ciphertext, a
/// 16-byte tag, then the nonce. Else the error is `Unknown`. What it returns,
/// `aes256gcm_decrypt` opens to `data` under the same key.
pub fn seal_with_nonce(key: &[u8], nonce: &[u8], data: &[u8]) -> (r: Result<Vec<u8>, Error>)
    ensures
        match r {
            Ok(sealed) => seal_spec(key@, nonce@, data@) == Some(sealed@) && sealed@.len()
                == data@.len() + TAG_LEN + NONCE_LEN && nonce_of(sealed@) == nonce@ && open_spec(
                key@,
                sealed@,
            ) == Some(data@),
            Err(e) => e == Error::Unknown && seal_spec(key@, nonce@, data@) is None,
        },
{
    if nonce.len() != NONCE_LEN || data.len() as u64 > MAX_PLAINTEXT_LEN {
        return Err(Error::Unknown);
    }
    let e_key = normalize_key(key, nonce);
    match aead_encrypt(e_key.as_slice(), nonce, data) {
        Some(mut edata) => {
            let ghost body = edata@;
            edata.extend_from_slice(nonce);
            proof {
                assert(edata@ =~= body + nonce@);
                assert(nonce_of(edata@) =~= nonce@);
                assert(edata@.subrange(0, edata@.len() - NONCE_LEN) =~= body);
            }
            Ok(edata)
        },
        None => Err(Error::Unknown),
    }
}

/// Seals `data` under `key` with a fresh random nonce.
///
/// Succeeds exactly where the data are no longer than `MAX_PLAINTEXT_LEN`;
/// else the error is `Unknown`. The result is the sealed buffer for some
/// 12-byte nonce: the data's length, a 16-byte tag and the 12-byte nonce
/// long, ending with that nonce, and opening to `data` under `key`.
pub fn aes256gcm_encrypt(key: &[u8], data: &[u8]) -> (r: Result<Vec<u8>, Error>)
    ensures
        match r {
            Ok(sealed) => sealed@.len() == data@.len() + TAG_LEN + NONCE_LEN && open_spec(
                key@,
                sealed@,
            ) == Some(data@) && seal_spec(key@, nonce_of(sealed@), data@) == Some(sealed@),
            Err(e) => e == Error::Unknown && data@.len() > MAX_PLAINTEXT_LEN,
        },
        data@.len() <= MAX_PLAINTEXT_LEN ==> r is Ok,
{
    let nonce = generate(NONCE_LEN);
    seal_with_nonce(key, nonce.as_slice(), data)
}

/// Opens a sealed buffer under `key`.
///
/// Returns what `open_spec` gives; where that is `None` (a buffer too short
/// or too long, a wrong key, altered bytes) the error is `Unknown`.
pub fn aes256gcm_decrypt(key: &[u8], data: &[u8]) -> (r: Result<Vec<u8>, Error>)
    ensures
        match r {
            Ok(plaintext) => open_spec(key@, data@) == Some(plaintext@),
            Err(e) => e == Error::Unknown && open_spec(key@, data@) is None,
        },
{
    if data.len() < NONCE_LEN {
        return Err(Error::Unknown);
    }
    let (nonce, payload) = extract_data_slice(data, NONCE_LEN);
    if payload.len() as u64 > MAX_PLAINTEXT_LEN + 16 {
        return Err(Error::Unknown);
    }
    let e_key = normalize_key(key, nonce);
    match aead_decrypt(e_key.as_slice(), nonce, payload) {
        Some(plaintext) => Ok(plaintext),
        None => Err(Error::Unknown),
    }
}

} // verus!
