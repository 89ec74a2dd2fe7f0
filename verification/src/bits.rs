//! Small helpers on packed bit vectors and byte sequences.

use vstd::prelude::*;

verus! {

/// A single bit as a 64-bit word.
pub open spec fn bit_u64(b: bool) -> u64 {
    if b {
        1
    } else {
        0
    }
}

/// A single bit as a 128-bit word.
pub open spec fn bit_u128(b: bool) -> u128 {
    if b {
        1
    } else {
        0
    }
}

/// A single bit as a byte value.
pub open spec fn bit_u8(b: bool) -> u8 {
    if b {
        1
    } else {
        0
    }
}

/// `data` rotated right by `amount` positions within a word of `width`
/// logical bits: the low `amount` bits wrap around to the top of the word.
pub open spec fn rotated_right(data: u128, amount: u128, width: u128) -> u128
    recommends
        0 < amount < width <= 128,
{
    (data >> amount) | ((data & (((1u128 << amount) - 1) as u128)) << ((width - amount) as u128))
}

/// Rotate `data` right by `amount` positions within a `width`-bit word.
pub fn rotate_right(data: u128, amount: u128, width: u128) -> (r: u128)
    requires
        0 < amount < width <= 128,
    ensures
        r == rotated_right(data, amount, width),
{
    proof {
        assert(amount < 128 ==> 1u128 << amount >= 1) by (bit_vector);
    }
    (data >> amount) | ((data & ((1u128 << amount) - 1)) << (width - amount))
}

/// `data` combined with `keystream` by bytewise exclusive-or.
pub open spec fn xor_bytes(data: Seq<u8>, keystream: Seq<u8>) -> Seq<u8>
    recommends
        keystream.len() == data.len(),
{
    Seq::new(data.len(), |i: int| data[i] ^ keystream[i])
}

/// Exclusive-or of bytes is involutive.
pub proof fn lemma_u8_xor_involutive(x: u8, k: u8)
    by (bit_vector)
    ensures
        (x ^ k) ^ k == x,
{
}

/// Applying the same keystream twice restores a byte sequence.
pub proof fn lemma_xor_bytes_involutive(data: Seq<u8>, keystream: Seq<u8>)
    requires
        keystream.len() == data.len(),
    ensures
        xor_bytes(xor_bytes(data, keystream), keystream) == data,
{
    let twice = xor_bytes(xor_bytes(data, keystream), keystream);
    assert forall|i: int| 0 <= i < data.len() implies twice[i] == data[i] by {
        lemma_u8_xor_involutive(data[i], keystream[i]);
    }
    assert(twice =~= data);
}

} // verus!
