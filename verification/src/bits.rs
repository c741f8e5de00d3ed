//! Moving bits in and out of the least significant bits of carrier bytes.

use vstd::prelude::*;

verus! {

/// `byte` with its least significant bit replaced by `bit` (0 or 1); the
/// upper seven bits are kept.
pub open spec fn set_lsb(byte: u8, bit: u8) -> u8 {
    (byte & !1u8) | bit
}

/// Bit `j` of `value`, as 0 or 1.
pub open spec fn bit_of(value: u32, j: int) -> u8 {
    ((value >> (j as u32)) & 1) as u8
}

/// Writes the low `n` bits of `value` into the least significant bits of
/// `carrier[start..start + n]`, bit `j` into byte `start + j`.
pub(crate) fn scatter_bits(carrier: &mut Vec<u8>, start: usize, n: u32, value: u32)
    requires
        n <= 32,
        start + n <= old(carrier).len(),
    ensures
        final(carrier)@.len() == old(carrier)@.len(),
        forall|i: int|
            0 <= i < old(carrier)@.len() ==> #[trigger] final(carrier)@[i] == (if start <= i < start
                + n {
                set_lsb(old(carrier)@[i], bit_of(value, i - start))
            } else {
                old(carrier)@[i]
            }),
{
    let mut j: u32 = 0;
    while j < n
        invariant
            j <= n <= 32,
            start + n <= carrier.len(),
            carrier@.len() == old(carrier)@.len(),
            forall|i: int|
                0 <= i < old(carrier)@.len() ==> #[trigger] carrier@[i] == (if start <= i < start
                    + j {
                    set_lsb(old(carrier)@[i], bit_of(value, i - start))
                } else {
                    old(carrier)@[i]
                }),
        decreases n - j,
    {
        let at: usize = start + j as usize;
        assert((value >> j) & 1 <= 1) by (bit_vector);
        let bit: u8 = ((value >> j) & 1) as u8;
        let byte: u8 = carrier[at];
        carrier[at] = (byte & !1u8) | bit;
        j += 1;
    }
}

/// The number whose bit `j`, for `j < n`, is the least significant bit of
/// `carrier[start + j]`: the sum of `(carrier[start + j] & 1) << j`.
pub open spec fn lsb_value(carrier: Seq<u8>, start: int, n: nat) -> nat
    decreases n,
{
    if n == 0 {
        0
    } else {
        let j = (n - 1) as nat;
        lsb_value(carrier, start, j) + ((((carrier[start + j] & 1) as u64) << j) as nat)
    }
}

/// Reads `n` bits back from the least significant bits of
/// `carrier[start..start + n]`, byte `start + j` giving bit `j`.
pub(crate) fn gather_bits(carrier: &[u8], start: usize, n: u32) -> (value: u32)
    requires
        n <= 32,
        start + n <= carrier.len(),
    ensures
        value == lsb_value(carrier@, start as int, n as nat),
{
    let mut acc: u64 = 0;
    let mut j: u32 = 0;
    while j < n
        invariant
            j <= n <= 32,
            start + n <= carrier.len(),
            acc == lsb_value(carrier@, start as int, j as nat),
        decreases n - j,
    {
        let byte: u8 = carrier[start + j as usize];
        proof {
            lemma_lsb_value_bound(carrier@, start as int, (j + 1) as nat);
        }
        acc = acc + (((byte & 1) as u64) << j);
        j += 1;
    }
    proof {
        lemma_lsb_value_bound(carrier@, start as int, n as nat);
    }
    acc as u32
}

/// The low `n` bits of `value`, for `n <= 32`.
pub open spec fn low_bits(value: u32, n: nat) -> nat {
    ((value as u64) & (((1u64 << n) - 1) as u64)) as nat
}

/// Replacing the least significant bit touches nothing else, and the bit
/// that was put in is the bit that is read back.
pub proof fn lemma_set_lsb(byte: u8, bit: u8)
    requires
        bit <= 1,
    ensures
        set_lsb(byte, bit) & 1 == bit,
        set_lsb(byte, bit) & !1u8 == byte & !1u8,
{
    assert(((byte & !1u8) | bit) & 1 == bit) by (bit_vector)
        requires
            bit <= 1,
    ;
    assert(((byte & !1u8) | bit) & !1u8 == byte & !1u8) by (bit_vector)
        requires
            bit <= 1,
    ;
}

/// A bit is 0 or 1.
pub proof fn lemma_bit_of_range(value: u32, j: int)
    requires
        0 <= j < 32,
    ensures
        bit_of(value, j) <= 1,
        bit_of(value, j) == (value >> (j as u32)) & 1,
{
    let s: u32 = j as u32;
    assert((value >> s) & 1 <= 1) by (bit_vector);
}

/// All 32 bits of a `u32` are the number itself, and the low 8 bits of a
/// number below 256 are that number.
pub proof fn lemma_low_bits_full(value: u32)
    ensures
        low_bits(value, 32) == value,
        value < 256 ==> low_bits(value, 8) == value,
{
    assert((value as u64) & (((1u64 << 32u32) - 1) as u64) == value as u64) by (bit_vector);
    assert(value < 256 ==> (value as u64) & (((1u64 << 8u32) - 1) as u64) == value as u64)
        by (bit_vector);
}

/// Bytes whose least significant bits are the bits of `value`, in order,
/// read back as the low `n` bits of `value`.
pub proof fn lemma_lsb_value_of_bits(carrier: Seq<u8>, start: int, n: nat, value: u32)
    requires
        n <= 32,
        forall|i: int|
            start <= i < start + n ==> (#[trigger] carrier[i]) & 1 == bit_of(value, i - start),
    ensures
        lsb_value(carrier, start, n) == low_bits(value, n),
    decreases n,
{
    if n == 0 {
        assert((value as u64) & (((1u64 << 0u32) - 1) as u64) == 0) by (bit_vector);
    } else {
        let j: u32 = (n - 1) as u32;
        lemma_lsb_value_of_bits(carrier, start, j as nat, value);
        lemma_bit_of_range(value, j as int);
        let byte: u8 = carrier[start + j];
        let wide: u64 = value as u64;
        assert(byte & 1 == bit_of(value, j as int));
        assert((wide & (((1u64 << j) - 1) as u64)) + (((byte & 1) as u64) << j) == wide & (((1u64
            << ((j + 1) as u32)) - 1) as u64)) by (bit_vector)
            requires
                j < 32,
                wide == value as u64,
                byte & 1 == (value >> j) & 1,
        ;
    }
}

/// `n` bits make a number below two to the `n`: 32 of them fit a `u32`, 8
/// of them a `u8`.
pub proof fn lemma_lsb_value_bound(carrier: Seq<u8>, start: int, n: nat)
    requires
        n <= 32,
    ensures
        lsb_value(carrier, start, n) < (1u64 << n),
        lsb_value(carrier, start, n) <= u32::MAX,
        n <= 8 ==> lsb_value(carrier, start, n) <= u8::MAX,
    decreases n,
{
    let m: u32 = n as u32;
    if n == 0 {
        assert(0u64 < (1u64 << 0u32)) by (bit_vector);
    } else {
        let j: u32 = (n - 1) as u32;
        lemma_lsb_value_bound(carrier, start, j as nat);
        let byte: u8 = carrier[start + j];
        let lower: u64 = lsb_value(carrier, start, j as nat) as u64;
        assert(lower + (((byte & 1) as u64) << j) < (1u64 << ((j + 1) as u32))) by (bit_vector)
            requires
                j < 32,
                lower < (1u64 << j),
        ;
    }
    assert((1u64 << m) <= 0x1_0000_0000 && (m <= 8 ==> (1u64 << m) <= 0x100)) by (bit_vector)
        requires
            m <= 32,
    ;
}

/// The value read from a range of bytes depends on those bytes alone.
pub proof fn lemma_lsb_value_agrees(a: Seq<u8>, b: Seq<u8>, start: int, n: nat)
    requires
        forall|i: int| start <= i < start + n ==> a[i] == b[i],
    ensures
        lsb_value(a, start, n) == lsb_value(b, start, n),
    decreases n,
{
    if n > 0 {
        lemma_lsb_value_agrees(a, b, start, (n - 1) as nat);
    }
}

} // verus!
