//! The error taxonomy of the store.

use vstd::prelude::*;

verus! {

/// Every way an operation of the store can fail.
#[derive(Clone, Copy, Debug, PartialEq, Eq, Structural)]
pub enum StoreError {
    /// A file could not be read or written (other than being absent on first unlock).
    Io,
    /// The bytes are shorter than the fixed container header.
    MalformedContainer,
    /// The authentication tag did not match: wrong password or corrupted data.
    AuthenticationFailure,
    /// A data operation was attempted before unlock.
    ApplicationLocked,
    /// No note carries the requested id.
    NotFound,
    /// The key derivation primitive rejected its input.
    KeyDerivationFailure,
    /// The cipher rejected the plaintext (it exceeds the cipher's length limit).
    EncryptionFailure,
    /// The serializer reported an error. It reports none for a note
    /// collection, so no operation of the store returns this.
    EncodingFailure,
    /// Authenticated plaintext is not a serialized note collection.
    DecodingFailure,
}

impl StoreError {
    /// The user-facing text of each error.
    pub open spec fn spec_message(self) -> Seq<char> {
        match self {
            StoreError::Io => "File could not be read or written"@,
            StoreError::MalformedContainer => "Encrypted data is too short"@,
            StoreError::AuthenticationFailure => "Invalid password or corrupted data."@,
            StoreError::ApplicationLocked => "Application is locked"@,
            StoreError::NotFound => "Note not found"@,
            StoreError::KeyDerivationFailure => "Key derivation failed"@,
            StoreError::EncryptionFailure => "Encryption failed"@,
            StoreError::EncodingFailure => "Notes could not be serialized"@,
            StoreError::DecodingFailure => "Decrypted data is not a note collection"@,
        }
    }

    /// Returns the user-facing text of the error.
    pub fn message(&self) -> (text: &'static str)
        ensures
            text@ == self.spec_message(),
    {
        match self {
            StoreError::Io => "File could not be read or written",
            StoreError::MalformedContainer => "Encrypted data is too short",
            StoreError::AuthenticationFailure => "Invalid password or corrupted data.",
            StoreError::ApplicationLocked => "Application is locked",
            StoreError::NotFound => "Note not found",
            StoreError::KeyDerivationFailure => "Key derivation failed",
            StoreError::EncryptionFailure => "Encryption failed",
            StoreError::EncodingFailure => "Notes could not be serialized",
            StoreError::DecodingFailure => "Decrypted data is not a note collection",
        }
    }
}

/// The result is the given error.
pub open spec fn fails_with<T>(result: Result<T, StoreError>, error: StoreError) -> bool {
    result is Err && result->Err_0 == error
}

} // verus!
