//! Errors of the envelope's operations.

use vstd::prelude::*;

verus! {

/// Why an operation on an envelope failed.
///
/// `SerdeJsonError`, `AnyhowError`, `CidError` and `IpldCodecError` stand for
/// failures of the JSON serialiser, of the codec or of key resolution, of the
/// identifier and of the codec lookup; the library keeps which of them
/// failed, not what they said.
#[derive(Clone, Copy, Debug, PartialEq, Eq, Structural)]
pub enum Error {
    InitializedData,
    InvalidData,
    PositionNotFound,
    EncodingSetOutOfOrder,
    CannotDecodeEncrypted,
    AlreadyEncrypted,
    PrivateKeyRequired,
    RecipientExist,
    RecipientDoesntExist,
    RecipientRequired,
    SerdeJsonError,
    Unknown,
    AnyhowError,
    CidError,
    IpldCodecError,
}

impl Error {
    /// The text that describes each error.
    pub open spec fn message_spec(self) -> Seq<char> {
        match self {
            Error::InitializedData => "Data is already initialized"@,
            Error::InvalidData => "Data is invalid"@,
            Error::PositionNotFound => "Position in array cannot be found"@,
            Error::EncodingSetOutOfOrder =>
                "Attempted to set encoded on data that has already been initalized."@,
            Error::CannotDecodeEncrypted =>
                "You can't decode encrypted data, please decrypt first."@,
            Error::AlreadyEncrypted => "Data is already encrypted"@,
            Error::PrivateKeyRequired => "Private keys required for encryption"@,
            Error::RecipientExist => "Recipient already exist"@,
            Error::RecipientDoesntExist => "Recipient doesnt exist"@,
            Error::RecipientRequired => "Recipient required"@,
            Error::SerdeJsonError => "JSON serialization failed"@,
            Error::Unknown => "unknown data store error"@,
            Error::AnyhowError => "codec or identity operation failed"@,
            Error::CidError => "content identifier is invalid"@,
            Error::IpldCodecError => "Unsupported codec"@,
        }
    }

    /// Describes the error in words.
    pub fn message(&self) -> (text: String)
        ensures
            text@ == self.message_spec(),
    {
        match self {
            Error::InitializedData => "Data is already initialized".to_owned(),
            Error::InvalidData => "Data is invalid".to_owned(),
            Error::PositionNotFound => "Position in array cannot be found".to_owned(),
            Error::EncodingSetOutOfOrder =>
                "Attempted to set encoded on data that has already been initalized.".to_owned(),
            Error::CannotDecodeEncrypted =>
                "You can't decode encrypted data, please decrypt first.".to_owned(),
            Error::AlreadyEncrypted => "Data is already encrypted".to_owned(),
            Error::PrivateKeyRequired => "Private keys required for encryption".to_owned(),
            Error::RecipientExist => "Recipient already exist".to_owned(),
            Error::RecipientDoesntExist => "Recipient doesnt exist".to_owned(),
            Error::RecipientRequired => "Recipient required".to_owned(),
            Error::SerdeJsonError => "JSON serialization failed".to_owned(),
            Error::Unknown => "unknown data store error".to_owned(),
            Error::AnyhowError => "codec or identity operation failed".to_owned(),
            Error::CidError => "content identifier is invalid".to_owned(),
            Error::IpldCodecError => "Unsupported codec".to_owned(),
        }
    }
}

} // verus!
