//! The length header: the payload's byte length as 32 bits, bit `i` in the
//! least significant bit of carrier byte `i`.

use crate::bits::{bit_of, gather_bits, lemma_low_bits_full, lemma_lsb_value_of_bits, lemma_set_lsb};
use crate::bits::{lemma_bit_of_range, lsb_value, scatter_bits, set_lsb};
use crate::capacity::HEADER_FIELD_SIZE;
use vstd::prelude::*;

verus! {

/// `carrier` with `len` written into its header: the first 32 bytes take the
/// bits of `len` as their least significant bits, the rest stay.
pub open spec fn with_header(carrier: Seq<u8>, len: u32) -> Seq<u8> {
    Seq::new(
        carrier.len(),
        |i: int|
            if i < HEADER_FIELD_SIZE {
                set_lsb(carrier[i], bit_of(len, i))
            } else {
                carrier[i]
            },
    )
}

/// The length that the header of `carrier` announces: the sum of
/// `(carrier[i] & 1) << i` over the first 32 bytes.
pub open spec fn header_length(carrier: Seq<u8>) -> nat {
    lsb_value(carrier, 0, HEADER_FIELD_SIZE as nat)
}

/// Writes `len` into the header of `carrier`.
pub(crate) fn write_header(carrier: &mut Vec<u8>, len: u32)
    requires
        old(carrier).len() >= HEADER_FIELD_SIZE,
    ensures
        final(carrier)@ == with_header(old(carrier)@, len),
{
    scatter_bits(carrier, 0, 32, len);
    assert(carrier@ =~= with_header(old(carrier)@, len));
}

/// Reads the length that the header announces; `None` where the carrier is
/// too short to have a header.
pub fn read_header(carrier: &[u8]) -> (res: Option<u32>)
    ensures
        res is Some <==> carrier@.len() >= HEADER_FIELD_SIZE,
        res matches Some(len) ==> len == header_length(carrier@),
{
    if carrier.len() < HEADER_FIELD_SIZE {
        None
    } else {
        Some(gather_bits(carrier, 0, 32))
    }
}

/// The header gives back the length that was written into it, whatever the
/// carrier held before.
pub proof fn lemma_header_round_trip(carrier: Seq<u8>, len: u32)
    requires
        carrier.len() >= HEADER_FIELD_SIZE,
    ensures
        header_length(with_header(carrier, len)) == len,
{
    let written = with_header(carrier, len);
    assert forall|i: int| 0 <= i < 32 implies (#[trigger] written[i]) & 1 == bit_of(len, i) by {
        lemma_bit_of_range(len, i);
        lemma_set_lsb(carrier[i], bit_of(len, i));
    }
    lemma_lsb_value_of_bits(written, 0, 32, len);
    lemma_low_bits_full(len);
}

} // verus!
