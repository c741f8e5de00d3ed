//! The cipher behind the envelope: AES-SIV with CMAC, from the `aes-siv`
//! crate. Nothing in this file is proved: the contracts say what the crate's
//! code does, and the rest of the library is verified against them.

use aes_siv::aead::AeadMut;
use aes_siv::{Aes128SivAead, Key, KeyInit, Nonce};
use vstd::prelude::*;

verus! {

/// `aes_siv::Error`, the one opaque error of the cipher.
#[verifier::external_type_specification]
#[verifier::external_body]
pub struct ExCipherError(aes_siv::Error);

/// What AES-SIV encryption gives for a 32-byte key, a 16-byte nonce and a
/// plaintext, with no associated data: the ciphertext, tag first, or `None`
/// where the cipher reports an error.
pub uninterp spec fn siv_ciphertext(key: Seq<u8>, nonce: Seq<u8>, plaintext: Seq<u8>) -> Option<
    Seq<u8>,
>;

/// What AES-SIV decryption gives for a 32-byte key, a 16-byte nonce and a
/// ciphertext, with no associated data: the plaintext, or `None` where the
/// ciphertext is too short or its tag does not match.
pub uninterp spec fn siv_plaintext(key: Seq<u8>, nonce: Seq<u8>, ciphertext: Seq<u8>) -> Option<
    Seq<u8>,
>;

/// `Aes128SivAead::new` on the key, then `AeadMut::encrypt` with the nonce.
///
/// Claimed of them: the outcome depends on key, nonce and plaintext alone;
/// the ciphertext is the plaintext's length plus the 16-byte tag; and
/// decryption under the same key and nonce gives the plaintext back.
#[verifier::external_body]
pub(crate) fn siv_encrypt(key: &[u8], nonce: &[u8], plaintext: &[u8]) -> (res: Result<
    Vec<u8>,
    aes_siv::Error,
>)
    requires
        key@.len() == 32,
        nonce@.len() == 16,
    ensures
        res matches Ok(ciphertext) ==> siv_ciphertext(key@, nonce@, plaintext@) == Some(
            ciphertext@,
        ),
        res matches Ok(ciphertext) ==> ciphertext@.len() == plaintext@.len() + 16,
        res matches Ok(ciphertext) ==> siv_plaintext(key@, nonce@, ciphertext@) == Some(
            plaintext@,
        ),
        res is Err ==> siv_ciphertext(key@, nonce@, plaintext@) is None,
{
    let mut cipher = Aes128SivAead::new(Key::<Aes128SivAead>::from_slice(key));
    cipher.encrypt(Nonce::from_slice(nonce), plaintext)
}

/// `Aes128SivAead::new` on the key, then `AeadMut::decrypt` with the nonce.
///
/// Claimed of them: the outcome depends on key, nonce and ciphertext alone.
#[verifier::external_body]
pub(crate) fn siv_decrypt(key: &[u8], nonce: &[u8], ciphertext: &[u8]) -> (res: Result<
    Vec<u8>,
    aes_siv::Error,
>)
    requires
        key@.len() == 32,
        nonce@.len() == 16,
    ensures
        res matches Ok(plaintext) ==> siv_plaintext(key@, nonce@, ciphertext@) == Some(
            plaintext@,
        ),
        res is Err ==> siv_plaintext(key@, nonce@, ciphertext@) is None,
{
    let mut cipher = Aes128SivAead::new(Key::<Aes128SivAead>::from_slice(key));
    cipher.decrypt(Nonce::from_slice(nonce), ciphertext)
}

} // verus!
