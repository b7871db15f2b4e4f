//! The authenticated cipher: XSalsa20 with a Poly1305 tag.
//!
//! The cipher itself is not verified here. Its two deterministic operations
//! are given names, and the contracts below say of them only what the rest of
//! the library relies on.

use vstd::prelude::*;

verus! {

/// Length of a key in bytes.
pub const KEY_BYTES: usize = 32;

/// Length of a nonce in bytes.
pub const NONCE_BYTES: usize = 24;

/// Length of the authentication tag in bytes: a sealed message is this much
/// longer than its plaintext.
pub const TAG_BYTES: usize = 16;

/// The bytes that sealing `message` under `nonce` and `key` yields: what
/// `sodiumoxide::crypto::secretbox::seal` returns for them.
pub uninterp spec fn sealed(message: Seq<u8>, nonce: Seq<u8>, key: Seq<u8>) -> Seq<u8>;

/// What opening `sealed_bytes` under `nonce` and `key` yields: the plaintext
/// that `sodiumoxide::crypto::secretbox::open` returns for them, or `None`
/// when it reports that the tag does not verify.
pub uninterp spec fn opened(sealed_bytes: Seq<u8>, nonce: Seq<u8>, key: Seq<u8>) -> Option<Seq<u8>>;

/// Calls `sodiumoxide::crypto::secretbox::gen_nonce`. The nonce is random:
/// nothing is claimed of it beyond its length, which the type carries.
#[verifier::external_body]
pub(crate) fn fresh_nonce() -> (nonce: [u8; NONCE_BYTES]) {
    sodiumoxide::crypto::secretbox::gen_nonce().0
}

/// Calls `sodiumoxide::crypto::secretbox::gen_key`. The key is random:
/// nothing is claimed of it beyond its length, which the type carries.
#[verifier::external_body]
pub(crate) fn fresh_key() -> (key: [u8; KEY_BYTES]) {
    sodiumoxide::crypto::secretbox::gen_key().0
}

/// Calls `sodiumoxide::crypto::secretbox::seal`. The result is the named
/// value `sealed`; it is one tag longer than the message, and opening it
/// under the same nonce and key gives the message back.
#[verifier::external_body]
pub(crate) fn seal(message: &[u8], nonce: &[u8; NONCE_BYTES], key: &[u8; KEY_BYTES]) -> (out: Vec<u8>)
    ensures
        out@ == sealed(message@, nonce@, key@),
        out@.len() == message@.len() + TAG_BYTES,
        opened(out@, nonce@, key@) == Some(message@),
{
    let nonce = sodiumoxide::crypto::secretbox::Nonce(*nonce);
    let key = sodiumoxide::crypto::secretbox::Key(*key);
    sodiumoxide::crypto::secretbox::seal(message, &nonce, &key)
}

/// Calls `sodiumoxide::crypto::secretbox::open`. The result is the named
/// value `opened`: `None` when the tag does not verify, which includes every
/// input shorter than a tag, else the plaintext, one tag shorter than the
/// input.
#[verifier::external_body]
pub(crate) fn open(sealed_bytes: &[u8], nonce: &[u8; NONCE_BYTES], key: &[u8; KEY_BYTES]) -> (out: Option<Vec<u8>>)
    ensures
        match out {
            Some(message) => opened(sealed_bytes@, nonce@, key@) == Some(message@)
                && message@.len() + TAG_BYTES == sealed_bytes@.len(),
            None => opened(sealed_bytes@, nonce@, key@) is None,
        },
{
    let nonce = sodiumoxide::crypto::secretbox::Nonce(*nonce);
    let key = sodiumoxide::crypto::secretbox::Key(*key);
    sodiumoxide::crypto::secretbox::open(sealed_bytes, &nonce, &key).ok()
}

} // verus!
