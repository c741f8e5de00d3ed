//! The cipher envelope: a payload is encrypted under a 32-byte key and a
//! nonce, and travels as the nonce followed by the ciphertext.

use crate::cipher::{siv_ciphertext, siv_decrypt, siv_encrypt, siv_plaintext};
use vstd::prelude::*;

verus! {

/// Bytes in a key.
pub const KEY_SIZE: usize = 32;

/// Bytes in a nonce.
pub const NONCE_SIZE: usize = 16;

/// Why a payload could not be sealed or unsealed.
#[derive(Debug, Clone, Copy, PartialEq, Eq)]
pub enum EnvelopeError {
    /// The key is not 32 bytes long.
    InvalidKeyLength,
    /// The cipher refused to encrypt.
    EncryptionFailure,
    /// The envelope is too short, was tampered with, or was sealed under
    /// another key.
    DecryptionFailure,
}

impl EnvelopeError {
    /// The words for each error.
    pub open spec fn spec_message(self) -> Seq<char> {
        match self {
            EnvelopeError::InvalidKeyLength => "Error: The key should be 32 bytes."@,
            EnvelopeError::EncryptionFailure => "Error: Encryption did not work."@,
            EnvelopeError::DecryptionFailure => "Error: Decryption did not work. Either invalid key or non decryptable file."@,
        }
    }

    /// The error in words.
    pub fn message(&self) -> (text: String)
        ensures
            text@ == self.spec_message(),
    {
        match self {
            EnvelopeError::InvalidKeyLength => "Error: The key should be 32 bytes.".to_owned(),
            EnvelopeError::EncryptionFailure => "Error: Encryption did not work.".to_owned(),
            EnvelopeError::DecryptionFailure => "Error: Decryption did not work. Either invalid key or non decryptable file.".to_owned(),
        }
    }
}

/// The envelope made of what the cipher returned: the nonce, then the
/// ciphertext; no envelope where the cipher failed.
pub open spec fn spec_sealed_from(nonce: Seq<u8>, outcome: Option<Seq<u8>>) -> Result<
    Seq<u8>,
    EnvelopeError,
> {
    match outcome {
        Some(ciphertext) => Ok(nonce + ciphertext),
        None => Err(EnvelopeError::EncryptionFailure),
    }
}

/// The plaintext made of what the cipher returned, or the failure to
/// decrypt.
pub open spec fn spec_unsealed_from(outcome: Option<Seq<u8>>) -> Result<Seq<u8>, EnvelopeError> {
    match outcome {
        Some(plaintext) => Ok(plaintext),
        None => Err(EnvelopeError::DecryptionFailure),
    }
}

/// The envelope of `data` under `key` and `nonce`. The key's length is
/// judged before anything else.
pub open spec fn spec_seal(data: Seq<u8>, key: Seq<u8>, nonce: Seq<u8>) -> Result<
    Seq<u8>,
    EnvelopeError,
> {
    if key.len() != KEY_SIZE {
        Err(EnvelopeError::InvalidKeyLength)
    } else {
        spec_sealed_from(nonce, siv_ciphertext(key, nonce, data))
    }
}

/// The payload inside `envelope` under `key`: the first 16 bytes are the
/// nonce, the rest is the ciphertext.
pub open spec fn spec_unseal(envelope: Seq<u8>, key: Seq<u8>) -> Result<Seq<u8>, EnvelopeError> {
    if key.len() != KEY_SIZE {
        Err(EnvelopeError::InvalidKeyLength)
    } else if envelope.len() < NONCE_SIZE {
        Err(EnvelopeError::DecryptionFailure)
    } else {
        spec_unsealed_from(
            siv_plaintext(
                key,
                envelope.subrange(0, NONCE_SIZE as int),
                envelope.subrange(NONCE_SIZE as int, envelope.len() as int),
            ),
        )
    }
}

/// Builds the envelope from the nonce and from what the cipher returned.
pub fn sealed_from(nonce: &[u8; 16], outcome: Result<Vec<u8>, aes_siv::Error>) -> (res: Result<
    Vec<u8>,
    EnvelopeError,
>)
    ensures
        res is Ok <==> outcome is Ok,
        res matches Ok(envelope) ==> envelope@ == nonce@ + outcome->Ok_0@,
        res matches Err(e) ==> e == EnvelopeError::EncryptionFailure,
{
    match outcome {
        Ok(ciphertext) => {
            let mut envelope: Vec<u8> = Vec::new();
            envelope.extend_from_slice(nonce.as_slice());
            envelope.extend_from_slice(ciphertext.as_slice());
            Ok(envelope)
        },
        Err(_) => Err(EnvelopeError::EncryptionFailure),
    }
}

/// Turns what the cipher returned for an envelope into the payload or the
/// failure to decrypt.
pub fn unsealed_from(outcome: Result<Vec<u8>, aes_siv::Error>) -> (res: Result<
    Vec<u8>,
    EnvelopeError,
>)
    ensures
        res is Ok <==> outcome is Ok,
        res matches Ok(plaintext) ==> plaintext@ == outcome->Ok_0@,
        res matches Err(e) ==> e == EnvelopeError::DecryptionFailure,
{
    match outcome {
        Ok(plaintext) => Ok(plaintext),
        Err(_) => Err(EnvelopeError::DecryptionFailure),
    }
}

/// Encrypts `data` under `key` and `nonce` and returns the envelope. The
/// caller brings a nonce that no other message under this key has had; it
/// travels in the envelope. What was sealed can be unsealed under the same
/// key.
pub fn seal(data: &[u8], key: &[u8], nonce: &[u8; 16]) -> (res: Result<Vec<u8>, EnvelopeError>)
    ensures
        res matches Ok(envelope) ==> spec_seal(data@, key@, nonce@) == Ok::<
            Seq<u8>,
            EnvelopeError,
        >(envelope@),
        res matches Err(e) ==> spec_seal(data@, key@, nonce@) == Err::<Seq<u8>, EnvelopeError>(e),
        key@.len() != KEY_SIZE ==> res == Err::<Vec<u8>, EnvelopeError>(
            EnvelopeError::InvalidKeyLength,
        ),
        res matches Ok(envelope) ==> envelope@.len() == data@.len() + 32,
        res matches Ok(envelope) ==> spec_unseal(envelope@, key@) == Ok::<Seq<u8>, EnvelopeError>(
            data@,
        ),
{
    if key.len() != KEY_SIZE {
        return Err(EnvelopeError::InvalidKeyLength);
    }
    let outcome = siv_encrypt(key, nonce.as_slice(), data);
    proof {
        if outcome is Ok {
            lemma_envelope_parts(nonce@, outcome->Ok_0@);
        }
    }
    sealed_from(nonce, outcome)
}

/// Decrypts the payload inside `envelope` under `key`. No part of a payload
/// is returned where the cipher does not vouch for all of it.
pub fn unseal(envelope: &[u8], key: &[u8]) -> (res: Result<Vec<u8>, EnvelopeError>)
    ensures
        res matches Ok(data) ==> spec_unseal(envelope@, key@) == Ok::<Seq<u8>, EnvelopeError>(
            data@,
        ),
        res matches Err(e) ==> spec_unseal(envelope@, key@) == Err::<Seq<u8>, EnvelopeError>(e),
{
    if key.len() != KEY_SIZE {
        return Err(EnvelopeError::InvalidKeyLength);
    }
    if envelope.len() < NONCE_SIZE {
        return Err(EnvelopeError::DecryptionFailure);
    }
    let (nonce, ciphertext) = envelope.split_at(NONCE_SIZE);
    unsealed_from(siv_decrypt(key, nonce, ciphertext))
}

/// An envelope splits into the nonce and the ciphertext that it was made
/// of.
pub proof fn lemma_envelope_parts(nonce: Seq<u8>, ciphertext: Seq<u8>)
    requires
        nonce.len() == NONCE_SIZE,
    ensures
        (nonce + ciphertext).subrange(0, NONCE_SIZE as int) == nonce,
        (nonce + ciphertext).subrange(NONCE_SIZE as int, (nonce + ciphertext).len() as int)
            == ciphertext,
{
    let envelope = nonce + ciphertext;
    assert(envelope.subrange(0, NONCE_SIZE as int) =~= nonce);
    assert(envelope.subrange(NONCE_SIZE as int, envelope.len() as int) =~= ciphertext);
}

} // verus!
