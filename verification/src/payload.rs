//! The payload bits: bit `d` of the payload in the least significant bit of
//! carrier byte `32 + d`, least significant bit first within each payload
//! byte.

use crate::bits::{bit_of, gather_bits, lemma_low_bits_full, lemma_lsb_value_of_bits, lemma_set_lsb};
use crate::bits::{lemma_bit_of_range, lsb_value, scatter_bits, set_lsb};
use crate::capacity::HEADER_FIELD_SIZE;
use vstd::prelude::*;

verus! {

/// Bit `d` of the payload: bit `d % 8` of byte `d / 8`.
pub open spec fn payload_bit(payload: Seq<u8>, d: int) -> u8 {
    bit_of(payload[d / 8] as u32, d % 8)
}

/// `carrier` with `payload` written behind the header: byte `32 + d` takes
/// payload bit `d` as its least significant bit, for every bit of the
/// payload; all other bytes stay.
pub open spec fn with_payload(carrier: Seq<u8>, payload: Seq<u8>) -> Seq<u8> {
    Seq::new(
        carrier.len(),
        |i: int|
            if HEADER_FIELD_SIZE <= i < HEADER_FIELD_SIZE + 8 * payload.len() {
                set_lsb(carrier[i], payload_bit(payload, i - HEADER_FIELD_SIZE))
            } else {
                carrier[i]
            },
    )
}

/// Payload byte `k` as the carrier holds it: the sum of
/// `(carrier[32 + 8k + j] & 1) << j` over `j < 8`, which is below 256.
pub open spec fn payload_byte(carrier: Seq<u8>, k: int) -> u8 {
    lsb_value(carrier, HEADER_FIELD_SIZE + 8 * k, 8) as u8
}

/// The first `len` payload bytes that the carrier holds.
pub open spec fn payload_bytes(carrier: Seq<u8>, len: nat) -> Seq<u8> {
    Seq::new(len, |k: int| payload_byte(carrier, k))
}

/// Writes `data` behind the header of `carrier`.
pub(crate) fn write_payload(carrier: &mut Vec<u8>, data: &[u8])
    requires
        HEADER_FIELD_SIZE + 8 * data.len() <= old(carrier).len(),
    ensures
        final(carrier)@ == with_payload(old(carrier)@, data@),
{
    let mut k: usize = 0;
    while k < data.len()
        invariant
            k <= data.len(),
            HEADER_FIELD_SIZE + 8 * data.len() <= carrier.len(),
            carrier@.len() == old(carrier)@.len(),
            forall|i: int|
                0 <= i < carrier@.len() ==> #[trigger] carrier@[i] == (if HEADER_FIELD_SIZE <= i
                    < HEADER_FIELD_SIZE + 8 * k {
                    set_lsb(old(carrier)@[i], payload_bit(data@, i - HEADER_FIELD_SIZE))
                } else {
                    old(carrier)@[i]
                }),
        decreases data.len() - k,
    {
        scatter_bits(carrier, HEADER_FIELD_SIZE + 8 * k, 8, data[k] as u32);
        k += 1;
    }
    assert(carrier@ =~= with_payload(old(carrier)@, data@));
}

/// Reads `len` payload bytes from behind the header of `carrier`.
pub(crate) fn read_payload(carrier: &[u8], len: usize) -> (payload: Vec<u8>)
    requires
        HEADER_FIELD_SIZE + 8 * len <= carrier.len(),
    ensures
        payload@ == payload_bytes(carrier@, len as nat),
{
    let mut payload: Vec<u8> = Vec::with_capacity(len);
    let mut k: usize = 0;
    while k < len
        invariant
            k <= len,
            HEADER_FIELD_SIZE + 8 * len <= carrier.len(),
            payload@ == payload_bytes(carrier@, k as nat),
        decreases len - k,
    {
        let byte: u32 = gather_bits(carrier, HEADER_FIELD_SIZE + 8 * k, 8);
        payload.push(byte as u8);
        k += 1;
        assert(payload@ =~= payload_bytes(carrier@, k as nat));
    }
    payload
}

/// The payload bytes read back are the bytes that were written, whatever
/// the carrier held before.
pub proof fn lemma_payload_round_trip(carrier: Seq<u8>, payload: Seq<u8>)
    requires
        HEADER_FIELD_SIZE + 8 * payload.len() <= carrier.len(),
    ensures
        payload_bytes(with_payload(carrier, payload), payload.len()) == payload,
{
    let written = with_payload(carrier, payload);
    assert forall|k: int| 0 <= k < payload.len() implies payload_byte(written, k) == payload[k] by {
        lemma_carried_byte(carrier, payload, k);
    }
    assert(payload_bytes(written, payload.len()) =~= payload);
}

/// One byte of the round trip: the eight carrier bytes that took the bits
/// of `payload[k]` give that byte back.
proof fn lemma_carried_byte(carrier: Seq<u8>, payload: Seq<u8>, k: int)
    requires
        HEADER_FIELD_SIZE + 8 * payload.len() <= carrier.len(),
        0 <= k < payload.len(),
    ensures
        payload_byte(with_payload(carrier, payload), k) == payload[k],
{
    let written = with_payload(carrier, payload);
    let start = HEADER_FIELD_SIZE + 8 * k;
    let value = payload[k] as u32;
    assert forall|i: int| start <= i < start + 8 implies (#[trigger] written[i]) & 1 == bit_of(
        value,
        i - start,
    ) by {
        assert((i - HEADER_FIELD_SIZE) / 8 == k);
        assert((i - HEADER_FIELD_SIZE) % 8 == i - start);
        lemma_bit_of_range(value, i - start);
        lemma_set_lsb(carrier[i], bit_of(value, i - start));
    }
    lemma_lsb_value_of_bits(written, start, 8, value);
    lemma_low_bits_full(value);
}

} // verus!
