//! The 97-bit W mixing register of GEA-2.

use vstd::prelude::*;
use crate::bits::bit_u128;
use crate::f_lookup_table::{f_table_entry, f_table_lookup};
use crate::lfsr::{clocked_iter, data_bit, initial_clock, LinearFeedbackShiftRegister};
use crate::link_direction::{direction_bit, LinkDirection};

verus! {

/// One clock tick of the nonlinear 97-bit W register: bit 0, the filter
/// output on the current state and the injected bit are combined into
/// the feedback bit placed into the top stage.
pub open spec fn w_clocked(state: u128, input: bool) -> u128 {
    (state >> 1) | ((((state & 1) ^ bit_u128(w_filtered(state))) ^ bit_u128(input)) << 96)
}

/// The 7-bit filter index of the W register: tap `k` of the stages
/// 4, 18, 33, 57, 63, 83, 96 lands at bit `k` of the index.
pub open spec fn w_filter_index(state: u128) -> u128 {
    ((state >> 4) & 0b000_0001) | ((state >> 17) & 0b000_0010) | ((state >> 31) & 0b000_0100)
        | ((state >> 54) & 0b000_1000) | ((state >> 59) & 0b001_0000) | ((state >> 78)
        & 0b010_0000) | ((state >> 90) & 0b100_0000)
}

/// The filter function `f` evaluated on a W register state.
pub open spec fn w_filtered(state: u128) -> bool {
    f_table_entry(w_filter_index(state))
}

/// The W register state after the whole GEA-2 initialization sequence:
/// the IV, the direction bit and the key are clocked in, lowest bit
/// first, followed by 194 zero bits of diffusion.
pub open spec fn w_mixed(key: u64, iv: u32, direction: LinkDirection) -> u128 {
    let after_iv = clocked_iter::<WRegister>(0, iv as u128, 32);
    let after_direction = clocked_iter::<WRegister>(after_iv, direction_bit(direction), 1);
    let after_key = clocked_iter::<WRegister>(after_direction, key as u128, 64);
    clocked_iter::<WRegister>(after_key, 0, 194)
}

/// The register value occupies no more than the 97 stages of the W
/// register.
pub open spec fn w_in_range(state: u128) -> bool {
    state < 0x2_0000_0000_0000_0000_0000_0000
}

/// One clock tick keeps the register within its 97 stages.
pub proof fn lemma_w_clocked_in_range(state: u128, input: bool)
    requires
        w_in_range(state),
    ensures
        w_in_range(w_clocked(state, input)),
{
    let filter = bit_u128(w_filtered(state));
    let injected = bit_u128(input);
    assert((state >> 1) | ((((state & 1) ^ filter) ^ injected) << 96)
        < 0x2_0000_0000_0000_0000_0000_0000) by (bit_vector)
        requires
            state < 0x2_0000_0000_0000_0000_0000_0000,
            filter <= 1,
            injected <= 1,
    ;
}

proof fn lemma_w_clocked_iter_in_range(state: u128, register_data: u128, count: nat)
    requires
        w_in_range(state),
    ensures
        w_in_range(clocked_iter::<WRegister>(state, register_data, count)),
    decreases count,
{
    if count > 0 {
        lemma_w_clocked_iter_in_range(state, register_data, (count - 1) as nat);
        let prev = clocked_iter::<WRegister>(state, register_data, (count - 1) as nat);
        lemma_w_clocked_in_range(prev, data_bit(register_data, (count - 1) as nat));
    }
}

/// A fully mixed W value fits the 97 stages of the register.
pub proof fn lemma_w_mixed_in_range(key: u64, iv: u32, direction: LinkDirection)
    ensures
        w_in_range(w_mixed(key, iv, direction)),
{
    let after_iv = clocked_iter::<WRegister>(0, iv as u128, 32);
    let after_direction = clocked_iter::<WRegister>(after_iv, direction_bit(direction), 1);
    let after_key = clocked_iter::<WRegister>(after_direction, key as u128, 64);
    lemma_w_clocked_iter_in_range(0, iv as u128, 32);
    lemma_w_clocked_iter_in_range(after_iv, direction_bit(direction), 1);
    lemma_w_clocked_iter_in_range(after_direction, key as u128, 64);
    lemma_w_clocked_iter_in_range(after_key, 0, 194);
}

/// The W register is a nonlinear shift register whose state, once the
/// key, IV and direction bit of the session have been mixed in, seeds
/// the A, B, C and D keystream registers of GEA-2.
pub struct WRegister(pub u128);

impl WRegister {
    /// Mix a GEA-2 session's key, IV and direction bit into a fresh
    /// W register.
    pub fn initialize(key: u64, iv: u32, direction: LinkDirection) -> (r: Self)
        ensures
            r.0 == w_mixed(key, iv, direction),
            w_in_range(r.0),
    {
        proof {
            lemma_w_mixed_in_range(key, iv, direction);
        }
        let mut w_register = Self(0);
        initial_clock(&mut w_register, iv as u128, 32);
        initial_clock(
            &mut w_register,
            match direction {
                LinkDirection::Uplink => 0,
                LinkDirection::Downlink => 1,
            },
            1,
        );
        initial_clock(&mut w_register, key as u128, 64);
        initial_clock(&mut w_register, 0, 194);
        w_register
    }
}

impl LinearFeedbackShiftRegister for WRegister {
    open spec fn state(&self) -> u128 {
        self.0
    }

    open spec fn clocked(state: u128, input: bool) -> u128 {
        w_clocked(state, input)
    }

    open spec fn filtered(state: u128) -> bool {
        w_filtered(state)
    }

    open spec fn input_demanded() -> bool {
        true
    }

    fn clock(&mut self, input_bit: Option<bool>)
        ensures
            final(self).0 == w_clocked(old(self).0, input_bit == Some(true)),
    {
        let bit: u128 = match input_bit.unwrap() {
            true => 1,
            false => 0,
        };
        let filter: u128 = match self.f_function() {
            true => 1,
            false => 0,
        };
        self.0 = (self.0 >> 1) | ((((self.0 & 1) ^ filter) ^ bit) << 96);
    }

    fn f_function(&self) -> (r: bool)
        ensures
            r == w_filtered(self.0),
    {
        let state = self.0;
        let index = ((state >> 4) & 0b000_0001) | ((state >> 17) & 0b000_0010) | ((state >> 31)
            & 0b000_0100) | ((state >> 54) & 0b000_1000) | ((state >> 59) & 0b001_0000) | ((state
            >> 78) & 0b010_0000) | ((state >> 90) & 0b100_0000);
        proof {
            assert(w_filter_index(state) < 128) by (bit_vector);
        }
        f_table_lookup(index)
    }
}

} // verus!
