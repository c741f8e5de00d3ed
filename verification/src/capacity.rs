//! The capacity check that guards every embedding.

use crate::steganography::DataLengthError;
use vstd::prelude::*;

verus! {

/// Carrier bytes taken by the length header, one per bit.
pub const HEADER_FIELD_SIZE: usize = 32;

/// The longest payload, in bytes, whose length the header can hold.
pub const MAX_PAYLOAD_LEN: u64 = 0xFFFF_FFFF;

/// Whether a payload of `payload_len` bytes can be embedded in a carrier of
/// `carrier_len` bytes: header and payload bits find a byte each, and the
/// length fits the 32-bit header.
pub open spec fn fits(payload_len: nat, carrier_len: nat) -> bool {
    payload_len <= MAX_PAYLOAD_LEN && HEADER_FIELD_SIZE + 8 * payload_len <= carrier_len
}

/// The payload bits that a carrier of `carrier_len` bytes can take: what is
/// left after the header, and no more than the header can announce.
pub open spec fn available_bits(carrier_len: nat) -> nat {
    if carrier_len < HEADER_FIELD_SIZE {
        0
    } else if carrier_len - HEADER_FIELD_SIZE > 8 * MAX_PAYLOAD_LEN {
        (8 * MAX_PAYLOAD_LEN) as nat
    } else {
        (carrier_len - HEADER_FIELD_SIZE) as nat
    }
}

/// The error reported for a payload that does not fit.
pub open spec fn capacity_error(payload_len: nat, carrier_len: nat) -> DataLengthError {
    DataLengthError {
        required_bits: (8 * payload_len) as u128,
        available_bits: available_bits(carrier_len) as u128,
    }
}

/// Decides whether a payload of `payload_len` bytes fits a carrier of
/// `carrier_len` bytes, without looking at either.
pub fn check_capacity(payload_len: usize, carrier_len: usize) -> (res: Result<(), DataLengthError>)
    ensures
        res is Ok <==> fits(payload_len as nat, carrier_len as nat),
        res matches Err(e) ==> e == capacity_error(payload_len as nat, carrier_len as nat),
{
    let room: u128 = if carrier_len < HEADER_FIELD_SIZE {
        0
    } else if (carrier_len - HEADER_FIELD_SIZE) as u128 > 8 * (MAX_PAYLOAD_LEN as u128) {
        8 * (MAX_PAYLOAD_LEN as u128)
    } else {
        (carrier_len - HEADER_FIELD_SIZE) as u128
    };
    let need: u128 = 8 * (payload_len as u128);
    if carrier_len >= HEADER_FIELD_SIZE && need <= room {
        Ok(())
    } else {
        Err(DataLengthError { required_bits: need, available_bits: room })
    }
}

/// The decision and the numbers of the error agree: a payload fits where the
/// carrier has a header and the payload's bits are no more than the carrier
/// can take.
pub proof fn lemma_fits_is_room(payload_len: nat, carrier_len: nat)
    ensures
        fits(payload_len, carrier_len) <==> carrier_len >= HEADER_FIELD_SIZE && 8 * payload_len
            <= available_bits(carrier_len),
{
}

/// A payload that fills the carrier to its last byte fits, as long as the
/// header can hold its length.
pub proof fn lemma_exact_fit(payload_len: nat, carrier_len: nat)
    requires
        8 * payload_len == carrier_len - HEADER_FIELD_SIZE,
        payload_len <= MAX_PAYLOAD_LEN,
    ensures
        fits(payload_len, carrier_len),
{
}

/// A payload one bit over the carrier's room does not fit.
pub proof fn lemma_one_bit_over(payload_len: nat, carrier_len: nat)
    requires
        8 * payload_len == carrier_len - HEADER_FIELD_SIZE + 1,
    ensures
        !fits(payload_len, carrier_len),
{
}

} // verus!
