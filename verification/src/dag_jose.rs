//! Record shapes of signed and encrypted JOSE documents.

use vstd::prelude::*;

verus! {

/// One signature over a signed document's payload.
pub struct Signature {
    header: String,
    protected: Vec<u8>,
    signature: Vec<u8>,
}

/// One recipient of an encrypted document, with the content key wrapped for it.
pub struct Recipient {
    encrypted_key: Vec<u8>,
    header: String,
}

/// An encrypted document.
pub struct JWE {
    aad: Vec<u8>,
    ciphertext: Vec<u8>,
    iv: Vec<u8>,
    protected: Vec<u8>,
    recipients: Vec<Recipient>,
    tag: Vec<u8>,
    unprotected: String,
}

/// A signed document.
pub struct JWS {
    payload: String,
    pub signatures: Vec<Signature>,
}

} // verus!
