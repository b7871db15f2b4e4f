//! Why a message could not be decrypted.

use vstd::prelude::*;

verus! {

/// What is wrong with a nonce or a key that cannot be used.
#[derive(Clone, Copy, Debug, PartialEq, Eq, Structural)]
pub enum Malformation {
    /// It is not hexadecimal text.
    NotHex,
    /// It is hexadecimal text, but for another number of bytes.
    WrongLength,
}

/// The ways in which decryption fails. Encryption never fails.
#[derive(Clone, Copy, Debug, PartialEq, Eq, Structural)]
pub enum DecryptError {
    /// The encoded message is shorter than the nonce it must end with.
    MalformedInput,
    /// The nonce is not hexadecimal text of the right length.
    MalformedNonce(Malformation),
    /// The part before the nonce is not hexadecimal text.
    MalformedCiphertext,
    /// The key is not hexadecimal text of the right length.
    MalformedKey(Malformation),
    /// The tag did not verify: a wrong key, a wrong nonce, or altered bytes.
    /// Which of them is deliberately not told.
    DecryptionFailed,
    /// The message opened, but its bytes are not text.
    InvalidPlaintextEncoding,
}

impl DecryptError {
    /// A short description for the caller. It names the step that failed and
    /// never holds key or message material.
    pub fn message(&self) -> (text: &'static str)
        ensures
            text@ == match *self {
                DecryptError::MalformedInput => "Ciphertext is too short to hold a nonce"@,
                DecryptError::MalformedNonce(Malformation::NotHex) => "Failed to decode nonce"@,
                DecryptError::MalformedNonce(Malformation::WrongLength) =>
                    "Failed to convert nonce bytes to Nonce"@,
                DecryptError::MalformedCiphertext => "Failed to decode ciphertext"@,
                DecryptError::MalformedKey(Malformation::NotHex) => "Failed to decode key"@,
                DecryptError::MalformedKey(Malformation::WrongLength) => "Failed to convert key to Key"@,
                DecryptError::DecryptionFailed => "Failed to decrypt ciphertext"@,
                DecryptError::InvalidPlaintextEncoding => "Failed to convert plaintext to string"@,
            },
    {
        match self {
            DecryptError::MalformedInput => "Ciphertext is too short to hold a nonce",
            DecryptError::MalformedNonce(Malformation::NotHex) => "Failed to decode nonce",
            DecryptError::MalformedNonce(Malformation::WrongLength) =>
                "Failed to convert nonce bytes to Nonce",
            DecryptError::MalformedCiphertext => "Failed to decode ciphertext",
            DecryptError::MalformedKey(Malformation::NotHex) => "Failed to decode key",
            DecryptError::MalformedKey(Malformation::WrongLength) => "Failed to convert key to Key",
            DecryptError::DecryptionFailed => "Failed to decrypt ciphertext",
            DecryptError::InvalidPlaintextEncoding => "Failed to convert plaintext to string",
        }
    }
}

} // verus!
