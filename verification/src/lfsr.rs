//! The behavior shared by every shift register of the two ciphers.

use vstd::prelude::*;

verus! {

/// `data` shifted down by `count` bit positions; zero once every bit has
/// been shifted out.
pub open spec fn shifted_down(data: u128, count: nat) -> u128 {
    if count < 128 {
        data >> (count as u128)
    } else {
        0
    }
}

/// Bit `index` of `data`, counting from the least significant bit;
/// positions beyond the word are zero.
pub open spec fn data_bit(data: u128, index: nat) -> bool {
    shifted_down(data, index) & 1 == 1
}

/// Shifting down one position at a time reads the bits of `data` in order.
pub proof fn lemma_shifted_down_step(data: u128, count: nat)
    ensures
        shifted_down(data, count) >> 1u128 == shifted_down(data, count + 1),
        shifted_down(data, count) & 1 == 0 || shifted_down(data, count) & 1 == 1,
{
    if count < 127 {
        let k = count as u128;
        assert((data >> k) >> 1u128 == data >> ((k + 1) as u128)) by (bit_vector)
            requires
                k < 127u128,
        ;
    } else if count == 127 {
        assert((data >> 127u128) >> 1u128 == 0u128) by (bit_vector);
    } else {
        assert(0u128 >> 1u128 == 0u128) by (bit_vector);
    }
    let s = shifted_down(data, count);
    assert(s & 1 == 0 || s & 1 == 1) by (bit_vector);
}

/// The register state reached from `state` by clocking in the lowest
/// `count` bits of `register_data`, lowest bit first.
pub open spec fn clocked_iter<R: LinearFeedbackShiftRegister>(
    state: u128,
    register_data: u128,
    count: nat,
) -> u128
    decreases count,
{
    if count == 0 {
        state
    } else {
        R::clocked(
            clocked_iter::<R>(state, register_data, (count - 1) as nat),
            data_bit(register_data, (count - 1) as nat),
        )
    }
}

/// The common surface of the six shift registers: a per-tick clocking
/// step, the filter function `f`, and an initial-clocking routine that
/// loads a whole word of seed material bit by bit.
pub trait LinearFeedbackShiftRegister: Sized {
    /// The packed register state: bit `i` of the word holds stage `i`.
    spec fn state(&self) -> u128;

    /// The state one clock tick after `state` with `input` injected.
    spec fn clocked(state: u128, input: bool) -> u128;

    /// The filter function `f` evaluated on `state`.
    spec fn filtered(state: u128) -> bool;

    /// Whether this register demands an injected bit at every tick, as
    /// the nonlinear mixing registers do during initialization.
    spec fn input_demanded() -> bool;

    /// Make a clock tick over the current register: shift every stage
    /// down by one and place a freshly computed feedback bit, combined
    /// with the injected bit if one is given, into the top stage.
    fn clock(&mut self, input_bit: Option<bool>)
        requires
            Self::input_demanded() ==> input_bit is Some,
        ensures
            final(self).state() == Self::clocked(old(self).state(), input_bit == Some(true)),
    ;

    /// Run the filter function `f` from the GEA-1/2 specification over
    /// the current register, producing a single bit from seven tapped
    /// stages. The register itself is left untouched.
    fn f_function(&self) -> (r: bool)
        ensures
            r == Self::filtered(self.state()),
    ;
}

/// Initially clock `register` using successively all the bits of
/// `register_data`, the lowest bit first, `register_size` ticks in all.
/// Bits past the width of the data word are zero.
pub fn initial_clock<R: LinearFeedbackShiftRegister>(
    register: &mut R,
    register_data: u128,
    register_size: usize,
)
    ensures
        final(register).state() == clocked_iter::<R>(
            old(register).state(),
            register_data,
            register_size as nat,
        ),
{
    let ghost start = register.state();
    let mut data = register_data;
    proof {
        assert(register_data >> 0u128 == register_data) by (bit_vector);
    }
    for bit_pos in 0..register_size
        invariant
            register.state() == clocked_iter::<R>(start, register_data, bit_pos as nat),
            data == shifted_down(register_data, bit_pos as nat),
    {
        proof {
            lemma_shifted_down_step(register_data, bit_pos as nat);
        }
        register.clock(Some((data & 1) == 1));
        data = data >> 1;
    }
}

} // verus!
