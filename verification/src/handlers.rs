//! The two requests, from body to reply.

use vstd::prelude::*;
use vstd::string::*;
use vstd::utf8::*;
use crate::codec::{
    decrypt, decrypted, encoded_message, encrypt, parsed, KEY_HEX_LEN, NONCE_HEX_LEN,
};
use crate::error::DecryptError;
use crate::models::{DecryptRequest, DecryptResponse, EncryptRequest, EncryptResponse};
use crate::hexcode::hex_chars;
use crate::secretbox::{opened, sealed, KEY_BYTES, NONCE_BYTES, TAG_BYTES};

verus! {

/// Encrypts the text of the request under a fresh nonce and key. This never
/// fails. The reply encodes the sealed bytes of the text with their nonce
/// and key, and decrypting it gives the text back.
pub fn handler_encrypt(body: &EncryptRequest) -> (out: EncryptResponse)
    ensures
        exists|nonce: Seq<u8>, key: Seq<u8>|
            {
                &&& nonce.len() == NONCE_BYTES
                &&& key.len() == KEY_BYTES
                &&& out.ciphertext@ == #[trigger] encoded_message(
                    sealed(encode_utf8(body.plaintext@), nonce, key),
                    nonce,
                )
                &&& out.key@ == #[trigger] hex_chars(key)
                &&& opened(sealed(encode_utf8(body.plaintext@), nonce, key), nonce, key) == Some(
                    encode_utf8(body.plaintext@),
                )
            },
        decrypted(out.ciphertext@, out.key@) == Ok::<Seq<char>, DecryptError>(body.plaintext@),
        out.ciphertext@.len() == 2 * (encode_utf8(body.plaintext@).len() + TAG_BYTES) + NONCE_HEX_LEN,
        out.key@.len() == KEY_HEX_LEN,
{
    proof {
        encode_utf8_valid_utf8(body.plaintext@);
        encode_utf8_decode_utf8(body.plaintext@);
    }
    encrypt(body.plaintext.as_str().as_bytes())
}

/// Decrypts the message of the request with its key: the recovered text, or
/// the error to report to the caller.
pub fn handler_decrypt(body: &DecryptRequest) -> (out: Result<DecryptResponse, DecryptError>)
    ensures
        match out {
            Ok(reply) => decrypted(body.ciphertext@, body.key@) == Ok::<Seq<char>, DecryptError>(
                reply.plaintext@,
            ),
            Err(e) => decrypted(body.ciphertext@, body.key@) == Err::<Seq<char>, DecryptError>(e),
        },
        encode_utf8(body.ciphertext@).len() < NONCE_HEX_LEN ==> out == Err::<
            DecryptResponse,
            DecryptError,
        >(DecryptError::MalformedInput),
        parsed(body.ciphertext@, body.key@) is Ok && parsed(
            body.ciphertext@,
            body.key@,
        )->Ok_0.sealed.len() < TAG_BYTES ==> out == Err::<DecryptResponse, DecryptError>(
            DecryptError::DecryptionFailed,
        ),
        out matches Ok(reply) ==> parsed(body.ciphertext@, body.key@)->Ok_0.sealed.len()
            == encode_utf8(reply.plaintext@).len() + TAG_BYTES,
{
    match decrypt(body.ciphertext.as_str(), body.key.as_str()) {
        Ok(plaintext) => Ok(DecryptResponse { plaintext }),
        Err(e) => Err(e),
    }
}

} // verus!
