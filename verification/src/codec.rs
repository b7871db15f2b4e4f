//! The wire format and the two operations on it.
//!
//! An encoded message is the hexadecimal text of the sealed bytes followed
//! at once by the hexadecimal text of the nonce. The nonce always takes the
//! last 48 characters, so the two parts are told apart by position alone.

use vstd::prelude::*;
use vstd::string::*;
use vstd::utf8::*;
use crate::error::{DecryptError, Malformation};
use crate::hexcode::{
    decode, encode, hex_chars, hex_decoded, hex_text, lemma_hex_chars_utf8, lemma_hex_round_trip,
    lemma_utf8_concat,
};
use crate::models::EncryptResponse;
use crate::secretbox::{fresh_key, fresh_nonce, open, opened, seal, sealed, KEY_BYTES, NONCE_BYTES, TAG_BYTES};

verus! {

/// Length of the nonce as hexadecimal text: the fixed width of the suffix.
pub const NONCE_HEX_LEN: usize = 48;

/// Length of the key as hexadecimal text.
pub const KEY_HEX_LEN: usize = 64;

/// The decoded parts of a message and its key, ready for the cipher.
pub struct Envelope {
    pub sealed: Vec<u8>,
    pub nonce: [u8; NONCE_BYTES],
    pub key: [u8; KEY_BYTES],
}

/// An `Envelope` as plain sequences of bytes.
pub struct EnvelopeView {
    pub sealed: Seq<u8>,
    pub nonce: Seq<u8>,
    pub key: Seq<u8>,
}

impl View for Envelope {
    type V = EnvelopeView;

    open spec fn view(&self) -> EnvelopeView {
        EnvelopeView { sealed: self.sealed@, nonce: self.nonce@, key: self.key@ }
    }
}

/// The encoded message for sealed bytes and the nonce they were sealed with.
pub open spec fn encoded_message(sealed_bytes: Seq<u8>, nonce: Seq<u8>) -> Seq<char> {
    hex_chars(sealed_bytes) + hex_chars(nonce)
}

/// What is wrong with text that should hold exactly `len` bytes, if
/// anything: text that does not decode is no hexadecimal text, and text that
/// decodes to another number of bytes has the wrong length.
pub open spec fn malformation(text: Seq<u8>, len: nat) -> Option<Malformation> {
    match hex_decoded(text) {
        None => Some(Malformation::NotHex),
        Some(bytes) => if bytes.len() != len {
            Some(Malformation::WrongLength)
        } else {
            None
        },
    }
}

/// Splitting and decoding, on the bytes of the two strings. The nonce is
/// looked at first, then the sealed part, then the key.
pub open spec fn parsed_bytes(message: Seq<u8>, key: Seq<u8>) -> Result<EnvelopeView, DecryptError> {
    if message.len() < NONCE_HEX_LEN {
        Err(DecryptError::MalformedInput)
    } else {
        let split = message.len() - NONCE_HEX_LEN;
        let nonce_text = message.subrange(split, message.len() as int);
        let sealed_text = message.subrange(0, split);
        let nonce_fault = malformation(nonce_text, NONCE_BYTES as nat);
        let key_fault = malformation(key, KEY_BYTES as nat);
        if nonce_fault is Some {
            Err(DecryptError::MalformedNonce(nonce_fault->0))
        } else if hex_decoded(sealed_text) is None {
            Err(DecryptError::MalformedCiphertext)
        } else if key_fault is Some {
            Err(DecryptError::MalformedKey(key_fault->0))
        } else {
            Ok(
                EnvelopeView {
                    sealed: hex_decoded(sealed_text)->0,
                    nonce: hex_decoded(nonce_text)->0,
                    key: hex_decoded(key)->0,
                },
            )
        }
    }
}

/// What an encoded message and an encoded key hold, or why they hold nothing.
pub open spec fn parsed(ciphertext: Seq<char>, key: Seq<char>) -> Result<EnvelopeView, DecryptError> {
    parsed_bytes(encode_utf8(ciphertext), encode_utf8(key))
}

/// What the cipher gave, as a plain sequence of bytes.
pub open spec fn outcome_bytes(outcome: Option<Vec<u8>>) -> Option<Seq<u8>> {
    match outcome {
        Some(bytes) => Some(bytes@),
        None => None,
    }
}

/// The reply for what the cipher gave: a failed tag is reported as such, and
/// opened bytes are returned only when they are text.
pub open spec fn plaintext_of(outcome: Option<Seq<u8>>) -> Result<Seq<char>, DecryptError> {
    match outcome {
        None => Err(DecryptError::DecryptionFailed),
        Some(bytes) => if valid_utf8(bytes) {
            Ok(decode_utf8(bytes))
        } else {
            Err(DecryptError::InvalidPlaintextEncoding)
        },
    }
}

/// Decryption as a whole.
pub open spec fn decrypted(ciphertext: Seq<char>, key: Seq<char>) -> Result<Seq<char>, DecryptError> {
    match parsed(ciphertext, key) {
        Err(e) => Err(e),
        Ok(envelope) => plaintext_of(opened(envelope.sealed, envelope.nonce, envelope.key)),
    }
}

/// Calls `String::from_utf8`, which succeeds exactly on well-formed UTF-8 and
/// then returns the string that those bytes encode.
#[verifier::external_body]
fn text_from_utf8(bytes: Vec<u8>) -> (out: Option<String>)
    ensures
        match out {
            Some(text) => valid_utf8(bytes@) && text@ == decode_utf8(bytes@),
            None => !valid_utf8(bytes@),
        },
{
    String::from_utf8(bytes).ok()
}

/// Copies `bytes` into an array when there are exactly `N` of them.
fn fixed<const N: usize>(bytes: &Vec<u8>) -> (out: Option<[u8; N]>)
    ensures
        match out {
            Some(array) => array@ == bytes@,
            None => bytes@.len() != N,
        },
{
    if bytes.len() != N {
        return None;
    }
    let mut array = [0u8; N];
    let mut i: usize = 0;
    while i < N
        invariant
            i <= N,
            bytes@.len() == N,
            forall|j: int| 0 <= j < i ==> array@[j] == bytes@[j],
        decreases N - i,
    {
        array[i] = bytes[i];
        i += 1;
    }
    assert(array@ =~= bytes@);
    Some(array)
}

/// Splits an encoded message at the fixed width of its nonce and decodes
/// the two parts and the key. Each part that cannot be used has an error of
/// its own, which for nonce and key also tells whether the text did not
/// decode or decoded to the wrong number of bytes. The first error found, in
/// the order nonce, sealed part, key, is returned.
pub fn parse_message(ciphertext: &str, key: &str) -> (out: Result<Envelope, DecryptError>)
    ensures
        match out {
            Ok(envelope) => parsed(ciphertext@, key@) == Ok::<EnvelopeView, DecryptError>(envelope@),
            Err(e) => parsed(ciphertext@, key@) == Err::<EnvelopeView, DecryptError>(e),
        },
        ciphertext.spec_bytes().len() < NONCE_HEX_LEN ==> out == Err::<Envelope, DecryptError>(
            DecryptError::MalformedInput,
        ),
{
    let message = ciphertext.as_bytes();
    if message.len() < NONCE_HEX_LEN {
        return Err(DecryptError::MalformedInput);
    }
    let (sealed_hex, nonce_hex) = message.split_at(message.len() - NONCE_HEX_LEN);
    let nonce = match decode(nonce_hex) {
        Ok(bytes) => match fixed::<NONCE_BYTES>(&bytes) {
            Some(nonce) => nonce,
            None => return Err(DecryptError::MalformedNonce(Malformation::WrongLength)),
        },
        Err(_) => return Err(DecryptError::MalformedNonce(Malformation::NotHex)),
    };
    let sealed_bytes = match decode(sealed_hex) {
        Ok(bytes) => bytes,
        Err(_) => return Err(DecryptError::MalformedCiphertext),
    };
    let key = match decode(key.as_bytes()) {
        Ok(bytes) => match fixed::<KEY_BYTES>(&bytes) {
            Some(key) => key,
            None => return Err(DecryptError::MalformedKey(Malformation::WrongLength)),
        },
        Err(_) => return Err(DecryptError::MalformedKey(Malformation::NotHex)),
    };
    Ok(Envelope { sealed: sealed_bytes, nonce, key })
}

/// Turns what the cipher gave into the reply: `None` means that the tag did
/// not verify, and opened bytes count only when they are text.
pub fn plaintext_from(outcome: Option<Vec<u8>>) -> (out: Result<String, DecryptError>)
    ensures
        match out {
            Ok(text) => plaintext_of(outcome_bytes(outcome)) == Ok::<Seq<char>, DecryptError>(text@),
            Err(e) => plaintext_of(outcome_bytes(outcome)) == Err::<Seq<char>, DecryptError>(e),
        },
{
    match outcome {
        None => Err(DecryptError::DecryptionFailed),
        Some(bytes) => match text_from_utf8(bytes) {
            Some(text) => Ok(text),
            None => Err(DecryptError::InvalidPlaintextEncoding),
        },
    }
}

/// Recovers the text of an encoded message with its encoded key.
///
/// The result is `decrypted` of the two strings: the first malformed part is
/// reported, then a tag that does not verify, then opened bytes that are no
/// text. A sealed part too short to hold a tag never verifies, and text that
/// is returned is one tag shorter than the sealed part it came from.
pub fn decrypt(ciphertext: &str, key: &str) -> (out: Result<String, DecryptError>)
    ensures
        match out {
            Ok(text) => decrypted(ciphertext@, key@) == Ok::<Seq<char>, DecryptError>(text@),
            Err(e) => decrypted(ciphertext@, key@) == Err::<Seq<char>, DecryptError>(e),
        },
        ciphertext.spec_bytes().len() < NONCE_HEX_LEN ==> out == Err::<String, DecryptError>(
            DecryptError::MalformedInput,
        ),
        parsed(ciphertext@, key@) is Ok && parsed(ciphertext@, key@)->Ok_0.sealed.len() < TAG_BYTES
            ==> out == Err::<String, DecryptError>(DecryptError::DecryptionFailed),
        out matches Ok(text) ==> parsed(ciphertext@, key@)->Ok_0.sealed.len() == encode_utf8(
            text@,
        ).len() + TAG_BYTES,
{
    match parse_message(ciphertext, key) {
        Err(e) => Err(e),
        Ok(envelope) => {
            let outcome = open(envelope.sealed.as_slice(), &envelope.nonce, &envelope.key);
            proof {
                if outcome is Some && valid_utf8(outcome->0@) {
                    decode_utf8_encode_utf8(outcome->0@);
                }
            }
            plaintext_from(outcome)
        },
    }
}

/// Writes sealed bytes, their nonce and their key as the two strings of a
/// reply: the sealed bytes and the nonce as one encoded message, the key
/// beside it.
pub fn encode_message(sealed_bytes: &[u8], nonce: &[u8; NONCE_BYTES], key: &[u8; KEY_BYTES]) -> (out:
    EncryptResponse)
    ensures
        out.ciphertext@ == encoded_message(sealed_bytes@, nonce@),
        out.key@ == hex_chars(key@),
        out.ciphertext@.len() == 2 * sealed_bytes@.len() + NONCE_HEX_LEN,
        out.key@.len() == KEY_HEX_LEN,
{
    let sealed_hex = encode(sealed_bytes);
    let nonce_hex = encode(nonce.as_slice());
    let key_hex = encode(key.as_slice());
    EncryptResponse { ciphertext: sealed_hex.concat(nonce_hex.as_str()), key: key_hex }
}

/// Seals `plaintext` under a fresh nonce and a fresh key and returns the
/// encoded message with the encoded key.
///
/// Nonce and key are random, so the reply is not a function of the
/// plaintext. Whatever they were, the reply is the encoding of
/// `sealed(plaintext, nonce, key)`, which the cipher opens to the plaintext
/// again; its length follows from that of the plaintext, and decrypting it
/// gives the plaintext back whenever the plaintext is text.
pub fn encrypt(plaintext: &[u8]) -> (out: EncryptResponse)
    ensures
        exists|nonce: Seq<u8>, key: Seq<u8>|
            {
                &&& nonce.len() == NONCE_BYTES
                &&& key.len() == KEY_BYTES
                &&& out.ciphertext@ == #[trigger] encoded_message(sealed(plaintext@, nonce, key), nonce)
                &&& out.key@ == #[trigger] hex_chars(key)
                &&& opened(sealed(plaintext@, nonce, key), nonce, key) == Some(plaintext@)
            },
        out.ciphertext@.len() == 2 * (plaintext@.len() + TAG_BYTES) + NONCE_HEX_LEN,
        out.key@.len() == KEY_HEX_LEN,
        decrypted(out.ciphertext@, out.key@) == plaintext_of(Some(plaintext@)),
        valid_utf8(plaintext@) ==> decrypted(out.ciphertext@, out.key@) == Ok::<Seq<char>, DecryptError>(
            decode_utf8(plaintext@),
        ),
{
    let nonce = fresh_nonce();
    let key = fresh_key();
    let sealed_bytes = seal(plaintext, &nonce, &key);
    let out = encode_message(sealed_bytes.as_slice(), &nonce, &key);
    proof {
        lemma_decrypt_follows_cipher(sealed_bytes@, nonce@, key@);
        assert(out.ciphertext@ == encoded_message(sealed(plaintext@, nonce@, key@), nonce@));
        assert(out.key@ == hex_chars(key@));
    }
    out
}

/// The wire format loses nothing: an encoded message with its encoded key
/// parses into the very sealed bytes, nonce and key that were written.
pub proof fn lemma_message_parses(sealed_bytes: Seq<u8>, nonce: Seq<u8>, key: Seq<u8>)
    requires
        nonce.len() == NONCE_BYTES,
        key.len() == KEY_BYTES,
    ensures
        parsed(encoded_message(sealed_bytes, nonce), hex_chars(key)) == Ok::<EnvelopeView, DecryptError>(
            EnvelopeView { sealed: sealed_bytes, nonce, key },
        ),
{
    let message = encode_utf8(encoded_message(sealed_bytes, nonce));
    lemma_utf8_concat(hex_chars(sealed_bytes), hex_chars(nonce));
    lemma_hex_chars_utf8(sealed_bytes);
    lemma_hex_chars_utf8(nonce);
    lemma_hex_chars_utf8(key);
    assert(message == hex_text(sealed_bytes) + hex_text(nonce));
    let split = message.len() - NONCE_HEX_LEN;
    assert(split == hex_text(sealed_bytes).len());
    assert(message.subrange(0, split) =~= hex_text(sealed_bytes));
    assert(message.subrange(split, message.len() as int) =~= hex_text(nonce));
    lemma_hex_round_trip(sealed_bytes);
    lemma_hex_round_trip(nonce);
    lemma_hex_round_trip(key);
}

/// The wire format is unambiguous: two encoded messages that read the same
/// hold the same sealed bytes and the same nonce.
pub proof fn lemma_encoding_unambiguous(
    sealed_a: Seq<u8>,
    nonce_a: Seq<u8>,
    sealed_b: Seq<u8>,
    nonce_b: Seq<u8>,
)
    requires
        nonce_a.len() == NONCE_BYTES,
        nonce_b.len() == NONCE_BYTES,
        encoded_message(sealed_a, nonce_a) == encoded_message(sealed_b, nonce_b),
    ensures
        sealed_a == sealed_b,
        nonce_a == nonce_b,
{
    let key = Seq::new(KEY_BYTES as nat, |i: int| 0u8);
    lemma_message_parses(sealed_a, nonce_a, key);
    lemma_message_parses(sealed_b, nonce_b, key);
}

/// The nonce of a message never has the wrong length: the last 48 bytes
/// either are no hexadecimal text or decode to exactly 24 bytes.
pub proof fn lemma_nonce_length_is_fixed(ciphertext: Seq<char>, key: Seq<char>)
    ensures
        parsed(ciphertext, key) != Err::<EnvelopeView, DecryptError>(
            DecryptError::MalformedNonce(Malformation::WrongLength),
        ),
        decrypted(ciphertext, key) != Err::<Seq<char>, DecryptError>(
            DecryptError::MalformedNonce(Malformation::WrongLength),
        ),
{
}

/// Decryption adds nothing to what the cipher decides: for a well-formed
/// message and key it returns what opening the sealed bytes gives.
pub proof fn lemma_decrypt_follows_cipher(sealed_bytes: Seq<u8>, nonce: Seq<u8>, key: Seq<u8>)
    requires
        nonce.len() == NONCE_BYTES,
        key.len() == KEY_BYTES,
    ensures
        decrypted(encoded_message(sealed_bytes, nonce), hex_chars(key)) == plaintext_of(
            opened(sealed_bytes, nonce, key),
        ),
{
    lemma_message_parses(sealed_bytes, nonce, key);
}

/// Round trip: where the cipher opens the sealed bytes to the bytes of
/// `text`, as it does for what it sealed itself, decrypting the encoded
/// message with the encoded key returns `text`.
pub proof fn lemma_round_trip(text: Seq<char>, sealed_bytes: Seq<u8>, nonce: Seq<u8>, key: Seq<u8>)
    requires
        nonce.len() == NONCE_BYTES,
        key.len() == KEY_BYTES,
        opened(sealed_bytes, nonce, key) == Some(encode_utf8(text)),
    ensures
        decrypted(encoded_message(sealed_bytes, nonce), hex_chars(key)) == Ok::<Seq<char>, DecryptError>(
            text,
        ),
{
    lemma_decrypt_follows_cipher(sealed_bytes, nonce, key);
    encode_utf8_valid_utf8(text);
    encode_utf8_decode_utf8(text);
}

/// Rejection: where the cipher does not open the sealed bytes under the
/// nonce and key given, be it for altered bytes, another nonce or another
/// key, decryption fails with `DecryptionFailed` and tells no more.
pub proof fn lemma_rejected_by_cipher(sealed_bytes: Seq<u8>, nonce: Seq<u8>, key: Seq<u8>)
    requires
        nonce.len() == NONCE_BYTES,
        key.len() == KEY_BYTES,
        opened(sealed_bytes, nonce, key) is None,
    ensures
        decrypted(encoded_message(sealed_bytes, nonce), hex_chars(key)) == Err::<Seq<char>, DecryptError>(
            DecryptError::DecryptionFailed,
        ),
{
    lemma_decrypt_follows_cipher(sealed_bytes, nonce, key);
}

/// Decryption never makes text up: whatever it returns is what the cipher
/// opened, under the nonce and key that the two strings hold.
pub proof fn lemma_text_was_opened(ciphertext: Seq<char>, key: Seq<char>, text: Seq<char>)
    requires
        decrypted(ciphertext, key) == Ok::<Seq<char>, DecryptError>(text),
    ensures
        parsed(ciphertext, key) is Ok,
        ({
            let envelope = parsed(ciphertext, key)->Ok_0;
            opened(envelope.sealed, envelope.nonce, envelope.key) == Some(encode_utf8(text))
        }),
{
    let envelope = parsed(ciphertext, key)->Ok_0;
    let bytes = opened(envelope.sealed, envelope.nonce, envelope.key)->0;
    decode_utf8_encode_utf8(bytes);
}

/// A message too short to end with a nonce is rejected as `MalformedInput`,
/// whatever it holds and whatever the key is.
pub proof fn lemma_short_message_rejected(ciphertext: Seq<char>, key: Seq<char>)
    requires
        encode_utf8(ciphertext).len() < NONCE_HEX_LEN,
    ensures
        decrypted(ciphertext, key) == Err::<Seq<char>, DecryptError>(DecryptError::MalformedInput),
{
}

} // verus!
