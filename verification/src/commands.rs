//! The two commands: hide a message in a carrier, optionally sealed under a
//! key, and find it again.

use crate::capacity::{capacity_error, fits};
use crate::cipher::{siv_ciphertext, siv_plaintext};
use crate::envelope::{lemma_envelope_parts, seal, spec_seal, spec_unseal, unseal};
use crate::envelope::{EnvelopeError, KEY_SIZE, NONCE_SIZE};
use crate::steganography::{spec_decode, spec_encode, CarrierError, DataLengthError};
use crate::steganography::{lemma_round_trip, DefaultSteganoGrapher};
use vstd::prelude::*;
use vstd::string::StringExecFns;

verus! {

/// Why a command failed.
#[derive(Debug, Clone, Copy, PartialEq, Eq)]
pub enum CommandError {
    /// The payload, sealed or plain, does not fit the carrier.
    CapacityExceeded(DataLengthError),
    /// The envelope could not be made or opened.
    Envelope(EnvelopeError),
    /// The carrier holds no readable payload.
    Carrier(CarrierError),
}

impl CommandError {
    /// The words for each error: `Error: ` and the words of what failed.
    pub open spec fn spec_message(self) -> Seq<char> {
        match self {
            CommandError::CapacityExceeded(e) => "Error: "@ + e.spec_message(),
            CommandError::Envelope(e) => e.spec_message(),
            CommandError::Carrier(e) => "Error: "@ + e.spec_message(),
        }
    }

    /// The error in words.
    pub fn message(&self) -> (text: String)
        ensures
            text@ == self.spec_message(),
    {
        match self {
            CommandError::CapacityExceeded(e) => "Error: ".to_owned().concat(e.message().as_str()),
            CommandError::Envelope(e) => e.message(),
            CommandError::Carrier(e) => "Error: ".to_owned().concat(e.message().as_str()),
        }
    }
}

/// The key as contracts see it.
pub open spec fn key_view(key: Option<&[u8]>) -> Option<Seq<u8>> {
    match key {
        Some(k) => Some(k@),
        None => None,
    }
}

/// What gets embedded: the data itself without a key, its envelope with
/// one.
pub open spec fn spec_outgoing(data: Seq<u8>, key: Option<Seq<u8>>, nonce: Seq<u8>) -> Result<
    Seq<u8>,
    EnvelopeError,
> {
    match key {
        Some(k) => spec_seal(data, k, nonce),
        None => Ok(data),
    }
}

/// The carrier that `encode_command` leaves behind, or its error: the key is
/// judged first, then the data is sealed, then the capacity is checked, and
/// only then is anything embedded.
pub open spec fn spec_encode_command(
    data: Seq<u8>,
    key: Option<Seq<u8>>,
    nonce: Seq<u8>,
    carrier: Seq<u8>,
) -> Result<Seq<u8>, CommandError> {
    match spec_outgoing(data, key, nonce) {
        Err(e) => Err(CommandError::Envelope(e)),
        Ok(payload) => if fits(payload.len(), carrier.len()) {
            Ok(spec_encode(payload, carrier))
        } else {
            Err(CommandError::CapacityExceeded(capacity_error(payload.len(), carrier.len())))
        },
    }
}

/// The message that `decode_command` finds, or its error: the key is judged
/// first, then the carrier is read, then the payload is unsealed if there is
/// a key.
pub open spec fn spec_decode_command(carrier: Seq<u8>, key: Option<Seq<u8>>) -> Result<
    Seq<u8>,
    CommandError,
> {
    if key is Some && key->Some_0.len() != KEY_SIZE {
        Err(CommandError::Envelope(EnvelopeError::InvalidKeyLength))
    } else {
        match spec_decode(carrier) {
            Err(e) => Err(CommandError::Carrier(e)),
            Ok(payload) => match key {
                None => Ok(payload),
                Some(k) => match spec_unseal(payload, k) {
                    Ok(data) => Ok(data),
                    Err(e) => Err(CommandError::Envelope(e)),
                },
            },
        }
    }
}

/// Hides `data` in `carrier`, sealed under `key` and `nonce` if a key is
/// given (without one the nonce is not looked at). The caller brings a nonce
/// that no other message under this key has had. On any error the carrier
/// is left as it was. What was hidden is what `decode_command` finds under
/// the same key.
pub fn encode_command(data: &[u8], key: Option<&[u8]>, nonce: &[u8; 16], carrier: &mut Vec<u8>) -> (res:
    Result<(), CommandError>)
    ensures
        res is Ok ==> spec_encode_command(data@, key_view(key), nonce@, old(carrier)@) == Ok::<
            Seq<u8>,
            CommandError,
        >(final(carrier)@),
        res matches Err(e) ==> spec_encode_command(data@, key_view(key), nonce@, old(carrier)@)
            == Err::<Seq<u8>, CommandError>(e),
        res is Err ==> final(carrier)@ == old(carrier)@,
        res is Ok ==> spec_decode_command(final(carrier)@, key_view(key)) == Ok::<
            Seq<u8>,
            CommandError,
        >(data@),
{
    match key {
        None => embed_outgoing(data, carrier),
        Some(k) => match seal(data, k, nonce) {
            Ok(envelope) => embed_outgoing(envelope.as_slice(), carrier),
            Err(e) => Err(CommandError::Envelope(e)),
        },
    }
}

/// Embeds what `encode_command` prepared.
fn embed_outgoing(payload: &[u8], carrier: &mut Vec<u8>) -> (res: Result<(), CommandError>)
    ensures
        res is Ok <==> fits(payload@.len(), old(carrier)@.len()),
        res is Ok ==> final(carrier)@ == spec_encode(payload@, old(carrier)@),
        res is Ok ==> spec_decode(final(carrier)@) == Ok::<Seq<u8>, CarrierError>(payload@),
        res matches Err(e) ==> e == CommandError::CapacityExceeded(
            capacity_error(payload@.len(), old(carrier)@.len()),
        ) && final(carrier)@ == old(carrier)@,
{
    match DefaultSteganoGrapher::embed(payload, carrier) {
        Ok(()) => Ok(()),
        Err(e) => Err(CommandError::CapacityExceeded(e)),
    }
}

/// Finds the message hidden in `carrier`, unsealing it under `key` if one is
/// given. A key of the wrong length is refused before the carrier is read.
pub fn decode_command(carrier: &[u8], key: Option<&[u8]>) -> (res: Result<Vec<u8>, CommandError>)
    ensures
        res matches Ok(data) ==> spec_decode_command(carrier@, key_view(key)) == Ok::<
            Seq<u8>,
            CommandError,
        >(data@),
        res matches Err(e) ==> spec_decode_command(carrier@, key_view(key)) == Err::<
            Seq<u8>,
            CommandError,
        >(e),
{
    if let Some(k) = key {
        if k.len() != KEY_SIZE {
            return Err(CommandError::Envelope(EnvelopeError::InvalidKeyLength));
        }
    }
    match DefaultSteganoGrapher::extract(carrier) {
        Err(e) => Err(CommandError::Carrier(e)),
        Ok(payload) => match key {
            None => Ok(payload),
            Some(k) => match unseal(payload.as_slice(), k) {
                Ok(data) => Ok(data),
                Err(e) => Err(CommandError::Envelope(e)),
            },
        },
    }
}

/// A message hidden without a key is found again without one, whatever the
/// carrier held before.
pub proof fn lemma_plain_command_round_trip(data: Seq<u8>, nonce: Seq<u8>, carrier: Seq<u8>)
    requires
        fits(data.len(), carrier.len()),
    ensures
        spec_encode_command(data, None, nonce, carrier) == Ok::<Seq<u8>, CommandError>(
            spec_encode(data, carrier),
        ),
        spec_decode_command(spec_encode(data, carrier), None) == Ok::<Seq<u8>, CommandError>(data),
{
    lemma_round_trip(data, carrier);
}

/// A sealed message travels intact. Where the cipher gives `ciphertext` for
/// the data, that is what gets embedded behind the nonce; and decoding hands
/// the cipher the very nonce and ciphertext that were embedded, so where the
/// cipher gives the data back for them, the command gives the data back.
pub proof fn lemma_sealed_command_round_trip(
    data: Seq<u8>,
    key: Seq<u8>,
    nonce: Seq<u8>,
    ciphertext: Seq<u8>,
    carrier: Seq<u8>,
)
    requires
        key.len() == KEY_SIZE,
        nonce.len() == NONCE_SIZE,
        fits((nonce + ciphertext).len(), carrier.len()),
    ensures
        siv_ciphertext(key, nonce, data) == Some(ciphertext) ==> spec_encode_command(
            data,
            Some(key),
            nonce,
            carrier,
        ) == Ok::<Seq<u8>, CommandError>(spec_encode(nonce + ciphertext, carrier)),
        siv_plaintext(key, nonce, ciphertext) == Some(data) ==> spec_decode_command(
            spec_encode(nonce + ciphertext, carrier),
            Some(key),
        ) == Ok::<Seq<u8>, CommandError>(data),
        siv_plaintext(key, nonce, ciphertext) is None ==> spec_decode_command(
            spec_encode(nonce + ciphertext, carrier),
            Some(key),
        ) == Err::<Seq<u8>, CommandError>(
            CommandError::Envelope(EnvelopeError::DecryptionFailure),
        ),
{
    lemma_round_trip(nonce + ciphertext, carrier);
    lemma_envelope_parts(nonce, ciphertext);
}

/// A key that is not 32 bytes long is refused by both commands, whatever
/// the data and the carrier: nothing is embedded and nothing is read.
pub proof fn lemma_bad_key_refused(data: Seq<u8>, key: Seq<u8>, nonce: Seq<u8>, carrier: Seq<u8>)
    requires
        key.len() != KEY_SIZE,
    ensures
        spec_encode_command(data, Some(key), nonce, carrier) == Err::<Seq<u8>, CommandError>(
            CommandError::Envelope(EnvelopeError::InvalidKeyLength),
        ),
        spec_decode_command(carrier, Some(key)) == Err::<Seq<u8>, CommandError>(
            CommandError::Envelope(EnvelopeError::InvalidKeyLength),
        ),
{
}

} // verus!
