//! The 29-bit D keystream register, used by GEA-2 only.

use vstd::prelude::*;
use crate::bits::bit_u64;
use crate::f_lookup_table::{f_table_entry, f_table_lookup};
use crate::lfsr::{clocked_iter, data_bit, initial_clock, LinearFeedbackShiftRegister};

verus! {

/// Feedback polynomial of the D register, folded into the low stages
/// whenever the freshly shifted-in top bit is set.
pub const D_FEEDBACK: u64 = 0b1010010110011010101111111001;

/// One Galois clock tick of the 29-bit D register: the register shifts
/// down one stage, bit 0 combined with the injected bit enters the top
/// stage, and a set top bit folds the feedback polynomial in.
pub open spec fn d_clocked(state: u64, input: bool) -> u64 {
    let shifted = (state >> 1) | (((state & 1) ^ bit_u64(input)) << 28);
    if shifted >> 28 == 1 {
        shifted ^ D_FEEDBACK
    } else {
        shifted
    }
}

/// The 7-bit filter index of the D register: tap `k` of the stages
/// 12, 23, 3, 0, 10, 27, 17 lands at bit `k` of the index.
pub open spec fn d_filter_index(state: u64) -> u64 {
    ((state >> 12) & 0b000_0001) | ((state >> 22) & 0b000_0010) | ((state >> 1) & 0b000_0100)
        | ((state << 3) & 0b000_1000) | ((state >> 6) & 0b001_0000) | ((state >> 22)
        & 0b010_0000) | ((state >> 11) & 0b100_0000)
}

/// The filter function `f` evaluated on a D register state.
pub open spec fn d_filtered(state: u64) -> bool {
    f_table_entry(d_filter_index(state) as u128)
}

/// The D register state seeded by clocking in the lowest `vector_size`
/// bits of `vector_data`, with the all-zero fixed point forced to 1.
pub open spec fn d_seeded(vector_data: u128, vector_size: nat) -> u64 {
    let state = clocked_iter::<DRegister>(0, vector_data, vector_size) as u64;
    if state == 0 {
        1
    } else {
        state
    }
}

/// The register value occupies no more than the 29 stages of the D
/// register.
pub open spec fn d_in_range(state: u64) -> bool {
    state < 0x2000_0000
}

/// One clock tick keeps the register within its 29 stages, and a
/// free-running tick never reaches the all-zero state from a non-zero
/// one.
pub proof fn lemma_d_clocked_in_range(state: u64, input: bool)
    by (bit_vector)
    requires
        d_in_range(state),
    ensures
        d_in_range(d_clocked(state, input)),
        state != 0 && !input ==> d_clocked(state, input) != 0,
{
}

proof fn lemma_d_clocked_iter_in_range(state: u128, register_data: u128, count: nat)
    requires
        state < 0x2000_0000,
    ensures
        clocked_iter::<DRegister>(state, register_data, count) < 0x2000_0000,
    decreases count,
{
    if count > 0 {
        lemma_d_clocked_iter_in_range(state, register_data, (count - 1) as nat);
        let prev = clocked_iter::<DRegister>(state, register_data, (count - 1) as nat);
        lemma_d_clocked_in_range(prev as u64, data_bit(register_data, (count - 1) as nat));
    }
}

/// The D register is initialized from the W register and contributes to
/// every keystream bit of GEA-2; GEA-1 does not use it.
pub struct DRegister(pub u64);

impl DRegister {
    /// Build the register from seed material, clocking in the lowest
    /// `vector_size` bits of `vector_data` and forcing a zero result
    /// to 1 so the linear recurrence cannot sit on its fixed point.
    pub fn initialize(vector_data: u128, vector_size: usize) -> (r: Self)
        ensures
            r.0 == d_seeded(vector_data, vector_size as nat),
            r.0 != 0,
            d_in_range(r.0),
    {
        let mut d_register = Self(0);
        initial_clock(&mut d_register, vector_data, vector_size);
        proof {
            lemma_d_clocked_iter_in_range(0, vector_data, vector_size as nat);
        }
        if d_register.0 == 0 {
            d_register.0 = 1;
        }
        d_register
    }
}

impl LinearFeedbackShiftRegister for DRegister {
    open spec fn state(&self) -> u128 {
        self.0 as u128
    }

    open spec fn clocked(state: u128, input: bool) -> u128 {
        d_clocked(state as u64, input) as u128
    }

    open spec fn filtered(state: u128) -> bool {
        d_filtered(state as u64)
    }

    open spec fn input_demanded() -> bool {
        false
    }

    fn clock(&mut self, input_bit: Option<bool>)
        ensures
            final(self).0 == d_clocked(old(self).0, input_bit == Some(true)),
    {
        let bit: u64 = match input_bit {
            Some(true) => 1,
            _ => 0,
        };
        self.0 = (self.0 >> 1) | (((self.0 & 1) ^ bit) << 28);
        if self.0 >> 28 == 1 {
            self.0 = self.0 ^ D_FEEDBACK;
        }
    }

    fn f_function(&self) -> (r: bool)
        ensures
            r == d_filtered(self.0),
    {
        let state = self.0;
        let index = ((state >> 12) & 0b000_0001) | ((state >> 22) & 0b000_0010) | ((state >> 1)
            & 0b000_0100) | ((state << 3) & 0b000_1000) | ((state >> 6) & 0b001_0000) | ((state
            >> 22) & 0b010_0000) | ((state >> 11) & 0b100_0000);
        proof {
            assert(d_filter_index(state) < 128) by (bit_vector);
        }
        f_table_lookup(index as u128)
    }
}

} // verus!
