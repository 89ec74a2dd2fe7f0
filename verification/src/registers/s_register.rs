//! The 64-bit S mixing register of GEA-1.

use vstd::prelude::*;
use crate::bits::bit_u128;
use crate::f_lookup_table::{f_table_entry, f_table_lookup};
use crate::lfsr::{clocked_iter, data_bit, initial_clock, LinearFeedbackShiftRegister};
use crate::link_direction::{direction_bit, LinkDirection};

verus! {

/// One clock tick of the nonlinear 64-bit S register: bit 0, the filter
/// output on the current state and the injected bit are combined into
/// the feedback bit placed into the top stage.
pub open spec fn s_clocked(state: u128, input: bool) -> u128 {
    (state >> 1) | ((((state & 1) ^ bit_u128(s_filtered(state))) ^ bit_u128(input)) << 63)
}

/// The 7-bit filter index of the S register: tap `k` of the stages
/// 3, 12, 22, 38, 42, 55, 63 lands at bit `k` of the index.
pub open spec fn s_filter_index(state: u128) -> u128 {
    ((state >> 3) & 0b000_0001) | ((state >> 11) & 0b000_0010) | ((state >> 20) & 0b000_0100)
        | ((state >> 35) & 0b000_1000) | ((state >> 38) & 0b001_0000) | ((state >> 50)
        & 0b010_0000) | ((state >> 57) & 0b100_0000)
}

/// The filter function `f` evaluated on an S register state.
pub open spec fn s_filtered(state: u128) -> bool {
    f_table_entry(s_filter_index(state))
}

/// The S register state after the whole GEA-1 initialization sequence:
/// the IV, the direction bit and the key are clocked in, lowest bit
/// first, followed by 128 zero bits of diffusion.
pub open spec fn s_mixed(key: u64, iv: u32, direction: LinkDirection) -> u128 {
    let after_iv = clocked_iter::<SRegister>(0, iv as u128, 32);
    let after_direction = clocked_iter::<SRegister>(after_iv, direction_bit(direction), 1);
    let after_key = clocked_iter::<SRegister>(after_direction, key as u128, 64);
    clocked_iter::<SRegister>(after_key, 0, 128)
}

/// The register value occupies no more than the 64 stages of the S
/// register.
pub open spec fn s_in_range(state: u128) -> bool {
    state < 0x1_0000_0000_0000_0000
}

/// One clock tick keeps the register within its 64 stages.
pub proof fn lemma_s_clocked_in_range(state: u128, input: bool)
    requires
        s_in_range(state),
    ensures
        s_in_range(s_clocked(state, input)),
{
    let filter = bit_u128(s_filtered(state));
    let injected = bit_u128(input);
    assert((state >> 1) | ((((state & 1) ^ filter) ^ injected) << 63)
        < 0x1_0000_0000_0000_0000) by (bit_vector)
        requires
            state < 0x1_0000_0000_0000_0000,
            filter <= 1,
            injected <= 1,
    ;
}

proof fn lemma_s_clocked_iter_in_range(state: u128, register_data: u128, count: nat)
    requires
        s_in_range(state),
    ensures
        s_in_range(clocked_iter::<SRegister>(state, register_data, count)),
    decreases count,
{
    if count > 0 {
        lemma_s_clocked_iter_in_range(state, register_data, (count - 1) as nat);
        let prev = clocked_iter::<SRegister>(state, register_data, (count - 1) as nat);
        lemma_s_clocked_in_range(prev, data_bit(register_data, (count - 1) as nat));
    }
}

/// A fully mixed S value fits the 64 stages of the register.
pub proof fn lemma_s_mixed_in_range(key: u64, iv: u32, direction: LinkDirection)
    ensures
        s_in_range(s_mixed(key, iv, direction)),
{
    let after_iv = clocked_iter::<SRegister>(0, iv as u128, 32);
    let after_direction = clocked_iter::<SRegister>(after_iv, direction_bit(direction), 1);
    let after_key = clocked_iter::<SRegister>(after_direction, key as u128, 64);
    lemma_s_clocked_iter_in_range(0, iv as u128, 32);
    lemma_s_clocked_iter_in_range(after_iv, direction_bit(direction), 1);
    lemma_s_clocked_iter_in_range(after_direction, key as u128, 64);
    lemma_s_clocked_iter_in_range(after_key, 0, 128);
}

/// The S register is a nonlinear shift register whose state, once the
/// key, IV and direction bit of the session have been mixed in, seeds
/// the A, B and C keystream registers of GEA-1.
pub struct SRegister(pub u128);

impl SRegister {
    /// Mix a GEA-1 session's key, IV and direction bit into a fresh
    /// S register.
    pub fn initialize(key: u64, iv: u32, direction: LinkDirection) -> (r: Self)
        ensures
            r.0 == s_mixed(key, iv, direction),
            s_in_range(r.0),
    {
        proof {
            lemma_s_mixed_in_range(key, iv, direction);
        }
        let mut s_register = Self(0);
        initial_clock(&mut s_register, iv as u128, 32);
        initial_clock(
            &mut s_register,
            match direction {
                LinkDirection::Uplink => 0,
                LinkDirection::Downlink => 1,
            },
            1,
        );
        initial_clock(&mut s_register, key as u128, 64);
        initial_clock(&mut s_register, 0, 128);
        s_register
    }
}

impl LinearFeedbackShiftRegister for SRegister {
    open spec fn state(&self) -> u128 {
        self.0
    }

    open spec fn clocked(state: u128, input: bool) -> u128 {
        s_clocked(state, input)
    }

    open spec fn filtered(state: u128) -> bool {
        s_filtered(state)
    }

    open spec fn input_demanded() -> bool {
        true
    }

    fn clock(&mut self, input_bit: Option<bool>)
        ensures
            final(self).0 == s_clocked(old(self).0, input_bit == Some(true)),
    {
        let bit: u128 = match input_bit.unwrap() {
            true => 1,
            false => 0,
        };
        let filter: u128 = match self.f_function() {
            true => 1,
            false => 0,
        };
        self.0 = (self.0 >> 1) | ((((self.0 & 1) ^ filter) ^ bit) << 63);
    }

    fn f_function(&self) -> (r: bool)
        ensures
            r == s_filtered(self.0),
    {
        let state = self.0;
        let index = ((state >> 3) & 0b000_0001) | ((state >> 11) & 0b000_0010) | ((state >> 20)
            & 0b000_0100) | ((state >> 35) & 0b000_1000) | ((state >> 38) & 0b001_0000) | ((state
            >> 50) & 0b010_0000) | ((state >> 57) & 0b100_0000);
        proof {
            assert(s_filter_index(state) < 128) by (bit_vector);
        }
        f_table_lookup(index)
    }
}

} // verus!
