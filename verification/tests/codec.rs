use secretbox_codec::codec::{decrypt, encode_message, encrypt, parse_message, plaintext_from};
use secretbox_codec::error::{DecryptError, Malformation};
use sodiumoxide::crypto::secretbox;

fn counting_nonce() -> [u8; 24] {
    let mut nonce = [0u8; 24];
    for (i, byte) in nonce.iter_mut().enumerate() {
        *byte = i as u8;
    }
    nonce
}

const COUNTING_NONCE_HEX: &str = "000102030405060708090a0b0c0d0e0f1011121314151617";

const KEY_OF_ABS: &str = "abababababababababababababababababababababababababababababababab";

#[test]
fn round_trip_returns_the_text() {
    let reply = encrypt("hello".as_bytes());
    assert_eq!(decrypt(&reply.ciphertext, &reply.key), Ok("hello".to_string()));
}

#[test]
fn round_trip_keeps_text_beyond_ascii() {
    let text = "zażółć gęślą jaźń — 暗号 🔐";
    let reply = encrypt(text.as_bytes());
    assert_eq!(decrypt(&reply.ciphertext, &reply.key), Ok(text.to_string()));
}

#[test]
fn round_trip_of_a_long_text() {
    let text = "0123456789abcdef".repeat(4096);
    let reply = encrypt(text.as_bytes());
    assert_eq!(reply.ciphertext.len(), 2 * (text.len() + 16) + 48);
    assert_eq!(decrypt(&reply.ciphertext, &reply.key), Ok(text));
}

#[test]
fn reply_lengths_follow_the_plaintext() {
    for len in [0usize, 1, 5, 16, 100] {
        let reply = encrypt(&vec![b'x'; len]);
        assert_eq!(reply.ciphertext.len(), 2 * (len + 16) + 48);
        assert_eq!(reply.key.len(), 64);
    }
}

#[test]
fn reply_is_lowercase_hex() {
    let reply = encrypt(b"some text");
    let is_lower_hex = |c: char| c.is_ascii_digit() || ('a'..='f').contains(&c);
    assert!(reply.ciphertext.chars().all(is_lower_hex));
    assert!(reply.key.chars().all(is_lower_hex));
}

#[test]
fn empty_plaintext_is_tag_and_nonce_only() {
    let reply = encrypt(b"");
    assert_eq!(reply.ciphertext.len(), 32 + 48);
    assert_eq!(decrypt(&reply.ciphertext, &reply.key), Ok(String::new()));
}

#[test]
fn two_encryptions_differ() {
    let first = encrypt(b"same text");
    let second = encrypt(b"same text");
    assert_ne!(first.ciphertext, second.ciphertext);
    assert_ne!(first.key, second.key);
    let split = first.ciphertext.len() - 48;
    assert_ne!(first.ciphertext[split..], second.ciphertext[split..]);
}

#[test]
fn reply_ends_with_the_nonce_that_sealed_it() {
    let reply = encrypt(b"attack at dawn");
    let split = reply.ciphertext.len() - 48;
    let sealed = hex::decode(&reply.ciphertext[..split]).unwrap();
    let nonce = secretbox::Nonce::from_slice(&hex::decode(&reply.ciphertext[split..]).unwrap()).unwrap();
    let key = secretbox::Key::from_slice(&hex::decode(&reply.key).unwrap()).unwrap();
    assert_eq!(secretbox::open(&sealed, &nonce, &key), Ok(b"attack at dawn".to_vec()));
    assert_eq!(secretbox::seal(b"attack at dawn", &nonce, &key), sealed);
}

#[test]
fn every_flipped_bit_of_the_sealed_part_is_detected() {
    let reply = encrypt(b"hi");
    let split = reply.ciphertext.len() - 48;
    let sealed = hex::decode(&reply.ciphertext[..split]).unwrap();
    let nonce_hex = &reply.ciphertext[split..];
    for index in 0..sealed.len() {
        for bit in 0..8u32 {
            let mut altered = sealed.clone();
            altered[index] ^= 1u8 << bit;
            let message = hex::encode(&altered) + nonce_hex;
            assert_eq!(decrypt(&message, &reply.key), Err(DecryptError::DecryptionFailed));
        }
    }
}

#[test]
fn altered_nonce_is_detected() {
    let reply = encrypt(b"hello");
    let split = reply.ciphertext.len() - 48;
    let mut nonce = hex::decode(&reply.ciphertext[split..]).unwrap();
    nonce[0] ^= 0x01;
    let message = reply.ciphertext[..split].to_string() + &hex::encode(&nonce);
    assert_eq!(decrypt(&message, &reply.key), Err(DecryptError::DecryptionFailed));
}

#[test]
fn wrong_key_is_rejected() {
    let reply = encrypt(b"hello");
    let mut key = hex::decode(&reply.key).unwrap();
    key[31] ^= 0x80;
    assert_eq!(decrypt(&reply.ciphertext, &hex::encode(&key)), Err(DecryptError::DecryptionFailed));
    let other = hex::encode(secretbox::gen_key().0);
    assert_ne!(other, reply.key);
    assert_eq!(decrypt(&reply.ciphertext, &other), Err(DecryptError::DecryptionFailed));
}

#[test]
fn hello_scenario() {
    let reply = encrypt(b"hello");
    assert_eq!(reply.ciphertext.len(), 2 * (5 + 16) + 48);
    assert_eq!(decrypt(&reply.ciphertext, &reply.key), Ok("hello".to_string()));

    let other = encrypt(b"hello").key;
    assert_ne!(other, reply.key);
    assert_eq!(decrypt(&reply.ciphertext, &other), Err(DecryptError::DecryptionFailed));

    // Without its last digit the sealed part has an odd number of digits.
    let odd = &reply.ciphertext[..reply.ciphertext.len() - 1];
    assert_eq!(decrypt(odd, &reply.key), Err(DecryptError::MalformedCiphertext));

    // Without its last two digits both parts still decode, but the last 48
    // digits are no longer the nonce and the tag cannot verify.
    let shorter = &reply.ciphertext[..reply.ciphertext.len() - 2];
    assert_eq!(decrypt(shorter, &reply.key), Err(DecryptError::DecryptionFailed));
}

#[test]
fn too_short_message_is_malformed_input() {
    let key = KEY_OF_ABS;
    assert_eq!(decrypt("", key), Err(DecryptError::MalformedInput));
    assert_eq!(decrypt("ab", key), Err(DecryptError::MalformedInput));
    assert_eq!(decrypt(&"0".repeat(47), key), Err(DecryptError::MalformedInput));
    assert_eq!(decrypt(&"z".repeat(47), "not a key"), Err(DecryptError::MalformedInput));
    assert_eq!(parse_message(&"0".repeat(47), key).err(), Some(DecryptError::MalformedInput));
}

#[test]
fn nonce_alone_fails_at_the_cipher() {
    // 48 digits: a nonce and an empty sealed part, which is shorter than a tag.
    assert_eq!(decrypt(COUNTING_NONCE_HEX, KEY_OF_ABS), Err(DecryptError::DecryptionFailed));
}

#[test]
fn bad_nonce_digits_are_malformed_nonce() {
    let message = "00".repeat(16) + &"0".repeat(47) + "g";
    assert_eq!(decrypt(&message, KEY_OF_ABS), Err(DecryptError::MalformedNonce(Malformation::NotHex)));
    let spaced = "00".repeat(16) + " " + &"0".repeat(47);
    assert_eq!(decrypt(&spaced, KEY_OF_ABS), Err(DecryptError::MalformedNonce(Malformation::NotHex)));
}

#[test]
fn bad_sealed_digits_are_malformed_ciphertext() {
    let message = "0x".to_string() + COUNTING_NONCE_HEX;
    assert_eq!(decrypt(&message, KEY_OF_ABS), Err(DecryptError::MalformedCiphertext));
    let odd = "000".to_string() + COUNTING_NONCE_HEX;
    assert_eq!(decrypt(&odd, KEY_OF_ABS), Err(DecryptError::MalformedCiphertext));
}

#[test]
fn key_that_is_no_hex_is_malformed_key() {
    let message = "00".repeat(16) + COUNTING_NONCE_HEX;
    let not_hex = Err(DecryptError::MalformedKey(Malformation::NotHex));
    assert_eq!(decrypt(&message, "xyz"), not_hex);
    assert_eq!(decrypt(&message, "0"), not_hex);
    assert_eq!(decrypt(&message, &"a".repeat(63)), not_hex);
    assert_eq!(decrypt(&message, &"a".repeat(65)), not_hex);
    assert_eq!(decrypt(&message, &("ab".repeat(31) + "a!")), not_hex);
    assert_eq!(decrypt(&message, &("ab".repeat(32) + " ")), not_hex);
}

#[test]
fn key_of_another_length_is_malformed_key() {
    let message = "00".repeat(16) + COUNTING_NONCE_HEX;
    let wrong_length = Err(DecryptError::MalformedKey(Malformation::WrongLength));
    assert_eq!(decrypt(&message, ""), wrong_length);
    assert_eq!(decrypt(&message, "00"), wrong_length);
    assert_eq!(decrypt(&message, &"0".repeat(62)), wrong_length);
    assert_eq!(decrypt(&message, &"ab".repeat(31)), wrong_length);
    assert_eq!(decrypt(&message, &"ab".repeat(33)), wrong_length);
    assert_eq!(decrypt(&"0".repeat(80), &"0".repeat(62)), wrong_length);
    assert_eq!(
        parse_message(&"0".repeat(80), &"0".repeat(62)).err().map(|e| e.message()),
        Some("Failed to convert key to Key")
    );
    assert_eq!(
        parse_message(&"0".repeat(80), &"0".repeat(63)).err().map(|e| e.message()),
        Some("Failed to decode key")
    );
}

#[test]
fn sealed_part_shorter_than_a_tag_never_opens() {
    for len in 0..16usize {
        let message = "00".repeat(len) + COUNTING_NONCE_HEX;
        assert_eq!(decrypt(&message, KEY_OF_ABS), Err(DecryptError::DecryptionFailed));
    }
}

#[test]
fn first_malformed_part_is_reported() {
    let bad_nonce = "g".repeat(48);
    assert_eq!(decrypt(&("zz".to_string() + &bad_nonce), "bad"), Err(DecryptError::MalformedNonce(Malformation::NotHex)));
    assert_eq!(
        decrypt(&("zz".to_string() + COUNTING_NONCE_HEX), "bad"),
        Err(DecryptError::MalformedCiphertext)
    );
    assert_eq!(
        decrypt(&("00".to_string() + COUNTING_NONCE_HEX), "bad"),
        Err(DecryptError::MalformedKey(Malformation::NotHex))
    );
}

#[test]
fn text_beyond_ascii_is_split_by_bytes_without_panic() {
    // The split falls inside the two bytes of the first 'é'.
    let message = "é".to_string() + &"0".repeat(47);
    assert_eq!(message.len(), 49);
    assert_eq!(decrypt(&message, KEY_OF_ABS), Err(DecryptError::MalformedNonce(Malformation::NotHex)));
    let long = "é".repeat(40);
    assert_eq!(decrypt(&long, KEY_OF_ABS), Err(DecryptError::MalformedNonce(Malformation::NotHex)));
    let short = "é".repeat(23);
    assert_eq!(decrypt(&short, KEY_OF_ABS), Err(DecryptError::MalformedInput));
    let front = "é".to_string() + COUNTING_NONCE_HEX;
    assert_eq!(decrypt(&front, KEY_OF_ABS), Err(DecryptError::MalformedCiphertext));
}

#[test]
fn bytes_that_are_no_text_are_invalid_plaintext() {
    let reply = encrypt(&[0xff, 0xfe, 0x00]);
    assert_eq!(decrypt(&reply.ciphertext, &reply.key), Err(DecryptError::InvalidPlaintextEncoding));
    let cut = encrypt(&"é".as_bytes()[..1]);
    assert_eq!(decrypt(&cut.ciphertext, &cut.key), Err(DecryptError::InvalidPlaintextEncoding));
}

#[test]
fn uppercase_digits_are_read() {
    let reply = encrypt(b"Mixed Case");
    let upper_message = reply.ciphertext.to_uppercase();
    let upper_key = reply.key.to_uppercase();
    assert_eq!(decrypt(&upper_message, &upper_key), Ok("Mixed Case".to_string()));
    assert_eq!(decrypt(&upper_message, &reply.key), Ok("Mixed Case".to_string()));
}

#[test]
fn encode_message_writes_sealed_bytes_then_nonce() {
    let reply = encode_message(&[0x00, 0xff, 0x1a, 0x09, 0xa0], &counting_nonce(), &[0xab; 32]);
    assert_eq!(reply.ciphertext, "00ff1a09a0".to_string() + COUNTING_NONCE_HEX);
    assert_eq!(reply.key, KEY_OF_ABS);
}

#[test]
fn encode_message_of_nothing_is_the_nonce() {
    let reply = encode_message(&[], &[0xff; 24], &[0x00; 32]);
    assert_eq!(reply.ciphertext, "ff".repeat(24));
    assert_eq!(reply.key, "00".repeat(32));
}

#[test]
fn parse_message_returns_the_three_parts() {
    let message = "00ff1a09a0".to_string() + COUNTING_NONCE_HEX;
    let envelope = parse_message(&message, KEY_OF_ABS).ok().unwrap();
    assert_eq!(envelope.sealed, vec![0x00, 0xff, 0x1a, 0x09, 0xa0]);
    assert_eq!(envelope.nonce, counting_nonce());
    assert_eq!(envelope.key, [0xab; 32]);
}

#[test]
fn parse_message_reads_both_cases() {
    let message = "aBcDeF".to_string() + &"Ff".repeat(24);
    let envelope = parse_message(&message, &"0A".repeat(32)).ok().unwrap();
    assert_eq!(envelope.sealed, vec![0xab, 0xcd, 0xef]);
    assert_eq!(envelope.nonce, [0xff; 24]);
    assert_eq!(envelope.key, [0x0a; 32]);
}

#[test]
fn parse_message_undoes_encode_message() {
    let sealed: Vec<u8> = (0..=255u8).collect();
    let nonce = counting_nonce();
    let key = [0x5c; 32];
    let reply = encode_message(&sealed, &nonce, &key);
    let envelope = parse_message(&reply.ciphertext, &reply.key).ok().unwrap();
    assert_eq!(envelope.sealed, sealed);
    assert_eq!(envelope.nonce, nonce);
    assert_eq!(envelope.key, key);
}

#[test]
fn plaintext_from_each_outcome() {
    assert_eq!(plaintext_from(None), Err(DecryptError::DecryptionFailed));
    assert_eq!(plaintext_from(Some(b"hello".to_vec())), Ok("hello".to_string()));
    assert_eq!(plaintext_from(Some(Vec::new())), Ok(String::new()));
    assert_eq!(plaintext_from(Some("暗号".as_bytes().to_vec())), Ok("暗号".to_string()));
    assert_eq!(plaintext_from(Some(vec![0x68, 0x69, 0xff])), Err(DecryptError::InvalidPlaintextEncoding));
    assert_eq!(plaintext_from(Some(vec![0xc0, 0x80])), Err(DecryptError::InvalidPlaintextEncoding));
    assert_eq!(plaintext_from(Some(vec![0xed, 0xa0, 0x80])), Err(DecryptError::InvalidPlaintextEncoding));
}

#[test]
fn decrypt_opens_what_the_cipher_sealed_with_known_key_and_nonce() {
    let nonce = counting_nonce();
    let key = [0xab; 32];
    let sealed = secretbox::seal(b"hello", &secretbox::Nonce(nonce), &secretbox::Key(key));
    assert_eq!(sealed.len(), 21);
    let reply = encode_message(&sealed, &nonce, &key);
    assert_eq!(reply.ciphertext, hex::encode(&sealed) + COUNTING_NONCE_HEX);
    assert_eq!(decrypt(&reply.ciphertext, &reply.key), Ok("hello".to_string()));
    assert_eq!(decrypt(&reply.ciphertext, KEY_OF_ABS), Ok("hello".to_string()));
    assert_eq!(decrypt(&reply.ciphertext, &"ac".repeat(32)), Err(DecryptError::DecryptionFailed));
}

#[test]
fn error_messages() {
    assert_eq!(DecryptError::MalformedInput.message(), "Ciphertext is too short to hold a nonce");
    assert_eq!(
        DecryptError::MalformedNonce(Malformation::NotHex).message(),
        "Failed to decode nonce"
    );
    assert_eq!(
        DecryptError::MalformedNonce(Malformation::WrongLength).message(),
        "Failed to convert nonce bytes to Nonce"
    );
    assert_eq!(DecryptError::MalformedCiphertext.message(), "Failed to decode ciphertext");
    assert_eq!(DecryptError::MalformedKey(Malformation::NotHex).message(), "Failed to decode key");
    assert_eq!(
        DecryptError::MalformedKey(Malformation::WrongLength).message(),
        "Failed to convert key to Key"
    );
    assert_eq!(DecryptError::DecryptionFailed.message(), "Failed to decrypt ciphertext");
    assert_eq!(
        DecryptError::InvalidPlaintextEncoding.message(),
        "Failed to convert plaintext to string"
    );
}
