//! The bodies of the two requests and of their replies.

use vstd::prelude::*;

verus! {

/// Asks for `plaintext` to be encrypted.
#[derive(Clone, Debug, PartialEq, Eq)]
pub struct EncryptRequest {
    pub plaintext: String,
}

/// The encoded message and the key that opens it, both as hexadecimal text.
#[derive(Clone, Debug, PartialEq, Eq)]
pub struct EncryptResponse {
    pub ciphertext: String,
    pub key: String,
}

/// Asks for an encoded message to be opened with `key`.
#[derive(Clone, Debug, PartialEq, Eq)]
pub struct DecryptRequest {
    pub ciphertext: String,
    pub key: String,
}

/// The recovered text.
#[derive(Clone, Debug, PartialEq, Eq)]
pub struct DecryptResponse {
    pub plaintext: String,
}

} // verus!
