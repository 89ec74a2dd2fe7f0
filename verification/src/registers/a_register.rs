//! The 31-bit A keystream register.

use vstd::prelude::*;
use crate::bits::bit_u64;
use crate::f_lookup_table::{f_table_entry, f_table_lookup};
use crate::lfsr::{clocked_iter, data_bit, initial_clock, LinearFeedbackShiftRegister};

verus! {

/// Feedback polynomial of the A register, folded into the low stages
/// whenever the freshly shifted-in top bit is set.
pub const A_FEEDBACK: u64 = 0b11101110110001001101110001101;

/// One Galois clock tick of the 31-bit A register: the register shifts
/// down one stage, bit 0 combined with the injected bit enters the top
/// stage, and a set top bit folds the feedback polynomial in.
pub open spec fn a_clocked(state: u64, input: bool) -> u64 {
    let shifted = (state >> 1) | (((state & 1) ^ bit_u64(input)) << 30);
    if shifted >> 30 == 1 {
        shifted ^ A_FEEDBACK
    } else {
        shifted
    }
}

/// The 7-bit filter index of the A register: tap `k` of the stages
/// 22, 0, 13, 21, 25, 2, 7 lands at bit `k` of the index.
pub open spec fn a_filter_index(state: u64) -> u64 {
    ((state >> 22) & 0b000_0001) | ((state << 1) & 0b000_0010) | ((state >> 11) & 0b000_0100)
        | ((state >> 18) & 0b000_1000) | ((state >> 21) & 0b001_0000) | ((state << 3)
        & 0b010_0000) | ((state >> 1) & 0b100_0000)
}

/// The filter function `f` evaluated on an A register state.
pub open spec fn a_filtered(state: u64) -> bool {
    f_table_entry(a_filter_index(state) as u128)
}

/// The A register state seeded by clocking in the lowest `vector_size`
/// bits of `vector_data`, with the all-zero fixed point forced to 1.
pub open spec fn a_seeded(vector_data: u128, vector_size: nat) -> u64 {
    let state = clocked_iter::<ARegister>(0, vector_data, vector_size) as u64;
    if state == 0 {
        1
    } else {
        state
    }
}

/// The register value occupies no more than the 31 stages of the A
/// register.
pub open spec fn a_in_range(state: u64) -> bool {
    state < 0x8000_0000
}

/// One clock tick keeps the register within its 31 stages, and a
/// free-running tick never reaches the all-zero state from a non-zero
/// one.
pub proof fn lemma_a_clocked_in_range(state: u64, input: bool)
    by (bit_vector)
    requires
        a_in_range(state),
    ensures
        a_in_range(a_clocked(state, input)),
        state != 0 && !input ==> a_clocked(state, input) != 0,
{
}

proof fn lemma_a_clocked_iter_in_range(state: u128, register_data: u128, count: nat)
    requires
        state < 0x8000_0000,
    ensures
        clocked_iter::<ARegister>(state, register_data, count) < 0x8000_0000,
    decreases count,
{
    if count > 0 {
        lemma_a_clocked_iter_in_range(state, register_data, (count - 1) as nat);
        let prev = clocked_iter::<ARegister>(state, register_data, (count - 1) as nat);
        lemma_a_clocked_in_range(prev as u64, data_bit(register_data, (count - 1) as nat));
    }
}

/// The A register is initialized from the S or W register and
/// contributes to every keystream bit of both ciphers.
pub struct ARegister(pub u64);

impl ARegister {
    /// Build the register from seed material, clocking in the lowest
    /// `vector_size` bits of `vector_data` and forcing a zero result
    /// to 1 so the linear recurrence cannot sit on its fixed point.
    pub fn initialize(vector_data: u128, vector_size: usize) -> (r: Self)
        ensures
            r.0 == a_seeded(vector_data, vector_size as nat),
            r.0 != 0,
            a_in_range(r.0),
    {
        let mut a_register = Self(0);
        initial_clock(&mut a_register, vector_data, vector_size);
        proof {
            lemma_a_clocked_iter_in_range(0, vector_data, vector_size as nat);
        }
        if a_register.0 == 0 {
            a_register.0 = 1;
        }
        a_register
    }
}

impl LinearFeedbackShiftRegister for ARegister {
    open spec fn state(&self) -> u128 {
        self.0 as u128
    }

    open spec fn clocked(state: u128, input: bool) -> u128 {
        a_clocked(state as u64, input) as u128
    }

    open spec fn filtered(state: u128) -> bool {
        a_filtered(state as u64)
    }

    open spec fn input_demanded() -> bool {
        false
    }

    fn clock(&mut self, input_bit: Option<bool>)
        ensures
            final(self).0 == a_clocked(old(self).0, input_bit == Some(true)),
    {
        let bit: u64 = match input_bit {
            Some(true) => 1,
            _ => 0,
        };
        self.0 = (self.0 >> 1) | (((self.0 & 1) ^ bit) << 30);
        if self.0 >> 30 == 1 {
            self.0 = self.0 ^ A_FEEDBACK;
        }
    }

    fn f_function(&self) -> (r: bool)
        ensures
            r == a_filtered(self.0),
    {
        let state = self.0;
        let index = ((state >> 22) & 0b000_0001) | ((state << 1) & 0b000_0010) | ((state >> 11)
            & 0b000_0100) | ((state >> 18) & 0b000_1000) | ((state >> 21) & 0b001_0000) | ((state
            << 3) & 0b010_0000) | ((state >> 1) & 0b100_0000);
        proof {
            assert(a_filter_index(state) < 128) by (bit_vector);
        }
        f_table_lookup(index as u128)
    }
}

} // verus!
