use image_manipulation::envelope::{
    seal, sealed_from, unseal, unsealed_from, EnvelopeError, KEY_SIZE, NONCE_SIZE,
};

fn key() -> Vec<u8> {
    (0..32u8).collect()
}

fn nonce() -> [u8; 16] {
    let mut n = [0u8; 16];
    for i in 0..16 {
        n[i] = 16 + i as u8;
    }
    n
}

fn hex(text: &str) -> Vec<u8> {
    (0..text.len() / 2)
        .map(|i| u8::from_str_radix(&text[2 * i..2 * i + 2], 16).unwrap())
        .collect()
}

#[test]
fn sizes() {
    assert_eq!(KEY_SIZE, 32);
    assert_eq!(NONCE_SIZE, 16);
}

#[test]
fn seal_gives_nonce_then_ciphertext() {
    let envelope = seal(b"This is a simple Text", &key(), &nonce()).unwrap();
    let mut expected = nonce().to_vec();
    expected.extend(hex(
        "e27350748aa1a228172e42b37794f72870d14a6da9d93f918a36f397fdc18b7781cb4d91ab",
    ));
    assert_eq!(envelope, expected);
    assert_eq!(envelope.len(), 21 + 32);
}

#[test]
fn unseal_gives_the_plaintext() {
    let mut envelope = nonce().to_vec();
    envelope.extend(hex(
        "e27350748aa1a228172e42b37794f72870d14a6da9d93f918a36f397fdc18b7781cb4d91ab",
    ));
    assert_eq!(
        unseal(&envelope, &key()),
        Ok(b"This is a simple Text".to_vec())
    );
}

#[test]
fn seal_then_unseal() {
    for len in [0usize, 1, 15, 16, 17, 100, 1000] {
        let data: Vec<u8> = (0..len).map(|i| (i * 7) as u8).collect();
        let envelope = seal(&data, &key(), &nonce()).unwrap();
        assert_eq!(envelope.len(), len + 32);
        assert_eq!(&envelope[..16], &nonce()[..]);
        assert_eq!(unseal(&envelope, &key()), Ok(data));
    }
}

#[test]
fn another_nonce_gives_another_envelope() {
    let a = seal(b"same words", &key(), &nonce()).unwrap();
    let b = seal(b"same words", &key(), &[9u8; 16]).unwrap();
    assert_ne!(a[16..], b[16..]);
    assert_eq!(unseal(&b, &key()), Ok(b"same words".to_vec()));
}

#[test]
fn key_of_the_wrong_length() {
    for len in [0usize, 16, 31, 33, 64] {
        let bad = vec![1u8; len];
        assert_eq!(
            seal(b"data", &bad, &nonce()),
            Err(EnvelopeError::InvalidKeyLength)
        );
        assert_eq!(
            unseal(&[0u8; 40], &bad),
            Err(EnvelopeError::InvalidKeyLength)
        );
    }
}

#[test]
fn tampering_is_found() {
    let envelope = seal(b"attack at dawn", &key(), &nonce()).unwrap();
    for i in 0..envelope.len() {
        let mut bent = envelope.clone();
        bent[i] ^= 0x01;
        assert_eq!(
            unseal(&bent, &key()),
            Err(EnvelopeError::DecryptionFailure)
        );
    }
}

#[test]
fn wrong_key_is_refused() {
    let envelope = seal(b"attack at dawn", &key(), &nonce()).unwrap();
    let other = vec![0xAAu8; 32];
    assert_eq!(
        unseal(&envelope, &other),
        Err(EnvelopeError::DecryptionFailure)
    );
}

#[test]
fn envelope_that_is_too_short() {
    assert_eq!(unseal(&[], &key()), Err(EnvelopeError::DecryptionFailure));
    assert_eq!(
        unseal(&[0u8; 15], &key()),
        Err(EnvelopeError::DecryptionFailure)
    );
    // a nonce, but no room for a tag
    assert_eq!(
        unseal(&[0u8; 31], &key()),
        Err(EnvelopeError::DecryptionFailure)
    );
}

#[test]
fn cipher_outcomes() {
    assert_eq!(
        sealed_from(&nonce(), Ok(vec![1, 2, 3])),
        Ok([&nonce()[..], &[1, 2, 3]].concat())
    );
    assert_eq!(sealed_from(&nonce(), Ok(vec![])), Ok(nonce().to_vec()));
    assert_eq!(
        sealed_from(&nonce(), Err(aes_siv::Error)),
        Err(EnvelopeError::EncryptionFailure)
    );
    assert_eq!(unsealed_from(Ok(vec![4, 5])), Ok(vec![4, 5]));
    assert_eq!(
        unsealed_from(Err(aes_siv::Error)),
        Err(EnvelopeError::DecryptionFailure)
    );
}

#[test]
fn envelope_error_messages() {
    assert_eq!(
        EnvelopeError::InvalidKeyLength.message(),
        "Error: The key should be 32 bytes."
    );
    assert_eq!(
        EnvelopeError::EncryptionFailure.message(),
        "Error: Encryption did not work."
    );
    assert_eq!(
        EnvelopeError::DecryptionFailure.message(),
        "Error: Decryption did not work. Either invalid key or non decryptable file."
    );
}
