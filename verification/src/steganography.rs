//! The codec: a payload goes into the least significant bits of a carrier
//! and comes back out of them.

use crate::bits::{bit_of, lemma_bit_of_range, lemma_lsb_value_agrees, lemma_set_lsb};
use crate::capacity::{capacity_error, check_capacity, fits, HEADER_FIELD_SIZE};
use crate::header::{header_length, lemma_header_round_trip, read_header, with_header, write_header};
use crate::payload::{lemma_payload_round_trip, payload_bit, payload_byte, payload_bytes};
use crate::payload::read_payload;
use crate::payload::{with_payload, write_payload};
use vstd::prelude::*;

verus! {

/// The payload does not fit: it needs `required_bits` carrier bytes after
/// the header, and the carrier offers `available_bits`.
#[derive(Debug, Clone, Copy, PartialEq, Eq)]
pub struct DataLengthError {
    /// Eight times the payload's length in bytes.
    pub required_bits: u128,
    /// The payload bits that the carrier can take.
    pub available_bits: u128,
}

/// Why a carrier holds no readable payload.
#[derive(Debug, Clone, Copy, PartialEq, Eq)]
pub enum CarrierError {
    /// The carrier is shorter than the length header.
    MissingHeader,
    /// The header announces more payload than the carrier has bytes for.
    TruncatedPayload,
}

impl DataLengthError {
    /// The words for this error.
    pub open spec fn spec_message(self) -> Seq<char> {
        "The data is to long to be encoded into the given image"@
    }

    /// The error in words.
    pub fn message(&self) -> (text: String)
        ensures
            text@ == self.spec_message(),
    {
        "The data is to long to be encoded into the given image".to_owned()
    }
}

impl CarrierError {
    /// The words for each error.
    pub open spec fn spec_message(self) -> Seq<char> {
        match self {
            CarrierError::MissingHeader => "The image is too small to hold any data"@,
            CarrierError::TruncatedPayload => "The image holds less data than it announces"@,
        }
    }

    /// The error in words.
    pub fn message(&self) -> (text: String)
        ensures
            text@ == self.spec_message(),
    {
        match self {
            CarrierError::MissingHeader => "The image is too small to hold any data".to_owned(),
            CarrierError::TruncatedPayload => "The image holds less data than it announces".to_owned(),
        }
    }
}

/// The carrier after a `payload` that fits was embedded in it: the header
/// takes the payload's length, the bytes behind it take the payload's bits.
pub open spec fn spec_encode(payload: Seq<u8>, carrier: Seq<u8>) -> Seq<u8> {
    with_payload(with_header(carrier, payload.len() as u32), payload)
}

/// What a carrier holds: the payload that its header announces, or the
/// reason why there is none.
pub open spec fn spec_decode(carrier: Seq<u8>) -> Result<Seq<u8>, CarrierError> {
    if carrier.len() < HEADER_FIELD_SIZE {
        Err(CarrierError::MissingHeader)
    } else if HEADER_FIELD_SIZE + 8 * header_length(carrier) > carrier.len() {
        Err(CarrierError::TruncatedPayload)
    } else {
        Ok(payload_bytes(carrier, header_length(carrier)))
    }
}

/// A scheme that hides a payload in a carrier.
pub trait Encode {
    /// Hides `data` in `carrier` and hands the carrier back. A carrier never
    /// grows or shrinks.
    fn encode(data: &[u8], carrier: Vec<u8>) -> (res: Result<Vec<u8>, DataLengthError>)
        ensures
            res matches Ok(encoded) ==> encoded@.len() == carrier@.len(),
    ;
}

/// A scheme that finds the payload hidden in a carrier.
pub trait Decode {
    /// Reads the payload out of `carrier`.
    fn decode(carrier: Vec<u8>) -> (res: Result<Vec<u8>, CarrierError>);
}

/// The plain scheme: a 32-bit length header, then the payload, one bit per
/// carrier byte.
pub struct DefaultSteganoGrapher {}

impl DefaultSteganoGrapher {
    /// Embeds `data` in `carrier` in place. A payload that does not fit is
    /// refused before the carrier is written to.
    pub fn embed(data: &[u8], carrier: &mut Vec<u8>) -> (res: Result<(), DataLengthError>)
        ensures
            res is Ok <==> fits(data@.len(), old(carrier)@.len()),
            res is Ok ==> final(carrier)@ == spec_encode(data@, old(carrier)@),
            res is Ok ==> spec_decode(final(carrier)@) == Ok::<Seq<u8>, CarrierError>(data@),
            res matches Err(e) ==> e == capacity_error(data@.len(), old(carrier)@.len())
                && final(carrier)@ == old(carrier)@,
    {
        match check_capacity(data.len(), carrier.len()) {
            Err(e) => Err(e),
            Ok(()) => {
                write_header(carrier, data.len() as u32);
                write_payload(carrier, data);
                proof {
                    lemma_round_trip(data@, old(carrier)@);
                }
                Ok(())
            },
        }
    }

    /// Reads the payload that `carrier` holds. Reading stops with the last
    /// byte that the header announces, and never goes past the carrier.
    pub fn extract(carrier: &[u8]) -> (res: Result<Vec<u8>, CarrierError>)
        ensures
            res matches Ok(payload) ==> spec_decode(carrier@) == Ok::<Seq<u8>, CarrierError>(
                payload@,
            ),
            res matches Err(e) ==> spec_decode(carrier@) == Err::<Seq<u8>, CarrierError>(e),
    {
        match read_header(carrier) {
            None => Err(CarrierError::MissingHeader),
            Some(len) => {
                if len as usize > (carrier.len() - HEADER_FIELD_SIZE) / 8 {
                    Err(CarrierError::TruncatedPayload)
                } else {
                    Ok(read_payload(carrier, len as usize))
                }
            },
        }
    }
}

impl Encode for DefaultSteganoGrapher {
    fn encode(data: &[u8], carrier: Vec<u8>) -> (res: Result<Vec<u8>, DataLengthError>)
        ensures
            res is Ok <==> fits(data@.len(), carrier@.len()),
            res matches Ok(encoded) ==> encoded@ == spec_encode(data@, carrier@),
            res matches Ok(encoded) ==> spec_decode(encoded@) == Ok::<Seq<u8>, CarrierError>(
                data@,
            ),
            res matches Err(e) ==> e == capacity_error(data@.len(), carrier@.len()),
    {
        let mut carrier = carrier;
        match Self::embed(data, &mut carrier) {
            Ok(()) => Ok(carrier),
            Err(e) => Err(e),
        }
    }
}

impl Decode for DefaultSteganoGrapher {
    fn decode(carrier: Vec<u8>) -> (res: Result<Vec<u8>, CarrierError>)
        ensures
            res matches Ok(payload) ==> spec_decode(carrier@) == Ok::<Seq<u8>, CarrierError>(
                payload@,
            ),
            res matches Err(e) ==> spec_decode(carrier@) == Err::<Seq<u8>, CarrierError>(e),
    {
        Self::extract(carrier.as_slice())
    }
}

/// Embedding keeps the carrier's length, leaves every byte behind the
/// payload's last bit as it was, and changes at most the least significant
/// bit of the `32 + 8 * len` bytes before it.
pub proof fn lemma_minimal_perturbation(payload: Seq<u8>, carrier: Seq<u8>, i: int)
    requires
        fits(payload.len(), carrier.len()),
        0 <= i < carrier.len(),
    ensures
        spec_encode(payload, carrier).len() == carrier.len(),
        spec_encode(payload, carrier)[i] & !1u8 == carrier[i] & !1u8,
        i >= HEADER_FIELD_SIZE + 8 * payload.len() ==> spec_encode(payload, carrier)[i]
            == carrier[i],
{
    let len = payload.len() as u32;
    let headed = with_header(carrier, len);
    if i < HEADER_FIELD_SIZE {
        lemma_bit_of_range(len, i);
        lemma_set_lsb(carrier[i], bit_of(len, i));
    } else if i < HEADER_FIELD_SIZE + 8 * payload.len() {
        let d = i - HEADER_FIELD_SIZE;
        lemma_bit_of_range(payload[d / 8] as u32, d % 8);
        lemma_set_lsb(headed[i], payload_bit(payload, d));
    }
}

/// The header of an encoded carrier announces the payload's length.
pub proof fn lemma_header_fidelity(payload: Seq<u8>, carrier: Seq<u8>)
    requires
        fits(payload.len(), carrier.len()),
    ensures
        header_length(spec_encode(payload, carrier)) == payload.len(),
{
    let len = payload.len() as u32;
    let headed = with_header(carrier, len);
    lemma_header_round_trip(carrier, len);
    lemma_header_kept(headed, spec_encode(payload, carrier));
}

/// Decoding an encoded carrier gives the payload back, whatever the
/// carrier held before.
pub proof fn lemma_round_trip(payload: Seq<u8>, carrier: Seq<u8>)
    requires
        fits(payload.len(), carrier.len()),
    ensures
        spec_decode(spec_encode(payload, carrier)) == Ok::<Seq<u8>, CarrierError>(payload),
{
    let headed = with_header(carrier, payload.len() as u32);
    lemma_header_fidelity(payload, carrier);
    lemma_payload_round_trip(headed, payload);
}

/// Decoding looks at the header and at the bytes that the header announces,
/// and at nothing behind them: two carriers that agree up to there hold the
/// same payload.
pub proof fn lemma_decode_reads_prefix(a: Seq<u8>, b: Seq<u8>)
    requires
        spec_decode(a) is Ok,
        b.len() >= HEADER_FIELD_SIZE + 8 * header_length(a),
        forall|i: int| 0 <= i < HEADER_FIELD_SIZE + 8 * header_length(a) ==> a[i] == b[i],
    ensures
        spec_decode(b) == spec_decode(a),
{
    lemma_header_kept(a, b);
    let len = header_length(a);
    assert forall|k: int| 0 <= k < len implies payload_byte(a, k) == payload_byte(b, k) by {
        lemma_lsb_value_agrees(a, b, HEADER_FIELD_SIZE + 8 * k, 8);
    }
    assert(payload_bytes(a, len) =~= payload_bytes(b, len));
}

/// Two carriers that agree on their first 32 bytes announce the same length.
proof fn lemma_header_kept(a: Seq<u8>, b: Seq<u8>)
    requires
        a.len() >= HEADER_FIELD_SIZE,
        b.len() >= HEADER_FIELD_SIZE,
        forall|i: int| 0 <= i < HEADER_FIELD_SIZE ==> a[i] == b[i],
    ensures
        header_length(a) == header_length(b),
{
    lemma_lsb_value_agrees(a, b, 0, HEADER_FIELD_SIZE as nat);
}

} // verus!
