//! Errors of the envelope's processing-state checks.

use vstd::prelude::*;

verus! {

/// Why an operation was refused in the envelope's current processing state.
#[derive(Clone, Copy, Debug, PartialEq, Eq, Structural)]
pub enum SataError {
    EncodingSetOutOfOrder,
    NotDecoded,
    NotEncoded,
    UnInitalized,
    CannotDecodeEncrypted,
    CannotEncodeEncrypted,
    AlreadyEncrypted,
    Unknown,
}

impl SataError {
    /// The text that describes each error.
    pub open spec fn message_spec(self) -> Seq<char> {
        match self {
            SataError::EncodingSetOutOfOrder =>
                "Attempted to set encoded on data that has already been initalized."@,
            SataError::NotDecoded => "Cannot encode data that isn't in a `Decoded` state."@,
            SataError::NotEncoded => "Cannot decode data that isn't in a `Encoded` state."@,
            SataError::UnInitalized =>
                "Your Sata is uninitalized, please initalize before attempting."@,
            SataError::CannotDecodeEncrypted =>
                "You can't decode encrypted data, please decrypt first."@,
            SataError::CannotEncodeEncrypted =>
                "You can't encode encrypted data, please decrypt first."@,
            SataError::AlreadyEncrypted =>
                "Your Sata is already encrytped, cannot encrypt twice."@,
            SataError::Unknown => "unknown data store error"@,
        }
    }

    /// Describes the error in words.
    pub fn message(&self) -> (text: String)
        ensures
            text@ == self.message_spec(),
    {
        match self {
            SataError::EncodingSetOutOfOrder =>
                "Attempted to set encoded on data that has already been initalized.".to_owned(),
            SataError::NotDecoded =>
                "Cannot encode data that isn't in a `Decoded` state.".to_owned(),
            SataError::NotEncoded =>
                "Cannot decode data that isn't in a `Encoded` state.".to_owned(),
            SataError::UnInitalized =>
                "Your Sata is uninitalized, please initalize before attempting.".to_owned(),
            SataError::CannotDecodeEncrypted =>
                "You can't decode encrypted data, please decrypt first.".to_owned(),
            SataError::CannotEncodeEncrypted =>
                "You can't encode encrypted data, please decrypt first.".to_owned(),
            SataError::AlreadyEncrypted =>
                "Your Sata is already encrytped, cannot encrypt twice.".to_owned(),
            SataError::Unknown => "unknown data store error".to_owned(),
        }
    }
}

} // verus!
