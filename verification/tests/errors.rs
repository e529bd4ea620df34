use sata::errors::SataError;
use sata::Error;

#[test]
fn error_messages() {
    assert_eq!(Error::InitializedData.message(), "Data is already initialized");
    assert_eq!(Error::InvalidData.message(), "Data is invalid");
    assert_eq!(Error::PositionNotFound.message(), "Position in array cannot be found");
    assert_eq!(
        Error::EncodingSetOutOfOrder.message(),
        "Attempted to set encoded on data that has already been initalized."
    );
    assert_eq!(
        Error::CannotDecodeEncrypted.message(),
        "You can't decode encrypted data, please decrypt first."
    );
    assert_eq!(Error::AlreadyEncrypted.message(), "Data is already encrypted");
    assert_eq!(Error::PrivateKeyRequired.message(), "Private keys required for encryption");
    assert_eq!(Error::RecipientExist.message(), "Recipient already exist");
    assert_eq!(Error::RecipientDoesntExist.message(), "Recipient doesnt exist");
    assert_eq!(Error::RecipientRequired.message(), "Recipient required");
    assert_eq!(Error::Unknown.message(), "unknown data store error");
    assert_eq!(Error::IpldCodecError.message(), "Unsupported codec");
    assert!(!Error::SerdeJsonError.message().is_empty());
    assert!(!Error::AnyhowError.message().is_empty());
    assert!(!Error::CidError.message().is_empty());
}

#[test]
fn state_error_messages() {
    assert_eq!(
        SataError::EncodingSetOutOfOrder.message(),
        "Attempted to set encoded on data that has already been initalized."
    );
    assert_eq!(
        SataError::NotDecoded.message(),
        "Cannot encode data that isn't in a `Decoded` state."
    );
    assert_eq!(
        SataError::NotEncoded.message(),
        "Cannot decode data that isn't in a `Encoded` state."
    );
    assert_eq!(
        SataError::UnInitalized.message(),
        "Your Sata is uninitalized, please initalize before attempting."
    );
    assert_eq!(
        SataError::CannotDecodeEncrypted.message(),
        "You can't decode encrypted data, please decrypt first."
    );
    assert_eq!(
        SataError::CannotEncodeEncrypted.message(),
        "You can't encode encrypted data, please decrypt first."
    );
    assert_eq!(
        SataError::AlreadyEncrypted.message(),
        "Your Sata is already encrytped, cannot encrypt twice."
    );
    assert_eq!(SataError::Unknown.message(), "unknown data store error");
}
