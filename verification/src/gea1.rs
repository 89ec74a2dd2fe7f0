//! The GEA-1 cipher state and its keystream.

use vstd::prelude::*;
use crate::bits::{bit_u8, lemma_xor_bytes_involutive, rotate_right, rotated_right, xor_bytes};
use crate::lfsr::LinearFeedbackShiftRegister;
use crate::link_direction::LinkDirection;
use crate::registers::a_register::{
    a_clocked, a_filtered, a_in_range, a_seeded, lemma_a_clocked_in_range, ARegister,
};
use crate::registers::b_register::{
    b_clocked, b_filtered, b_in_range, b_seeded, lemma_b_clocked_in_range, BRegister,
};
use crate::registers::c_register::{
    c_clocked, c_filtered, c_in_range, c_seeded, lemma_c_clocked_in_range, CRegister,
};
use crate::registers::s_register::{s_mixed, SRegister};

verus! {

/// The values of the three keystream registers of a GEA-1 state.
pub open spec fn gea1_regs(state: GEA1State) -> (u64, u64, u64) {
    (state.a_register.0, state.b_register.0, state.c_register.0)
}

/// The keystream registers after `ticks` free-running clock ticks, in
/// which no external bit is injected.
pub open spec fn gea1_advanced(regs: (u64, u64, u64), ticks: nat) -> (u64, u64, u64)
    decreases ticks,
{
    if ticks == 0 {
        regs
    } else {
        let prev = gea1_advanced(regs, (ticks - 1) as nat);
        (a_clocked(prev.0, false), b_clocked(prev.1, false), c_clocked(prev.2, false))
    }
}

/// Keystream bit `index` produced from the register values `regs`: the
/// exclusive-or of the three filter outputs after `index` ticks.
pub open spec fn gea1_keystream_bit(regs: (u64, u64, u64), index: nat) -> bool {
    let r = gea1_advanced(regs, index);
    (a_filtered(r.0) ^ b_filtered(r.1)) ^ c_filtered(r.2)
}

/// The low `bit_count` bits of keystream byte `byte_index`, packed with
/// the first bit produced in the least significant position.
pub open spec fn gea1_keystream_byte_prefix(
    regs: (u64, u64, u64),
    byte_index: nat,
    bit_count: nat,
) -> u8
    decreases bit_count,
{
    if bit_count == 0 {
        0
    } else {
        let last = (bit_count - 1) as nat;
        gea1_keystream_byte_prefix(regs, byte_index, last) | (bit_u8(
            gea1_keystream_bit(regs, 8 * byte_index + last),
        ) << (last as u8))
    }
}

/// Keystream byte `byte_index` produced from the register values `regs`.
pub open spec fn gea1_keystream_byte(regs: (u64, u64, u64), byte_index: nat) -> u8 {
    gea1_keystream_byte_prefix(regs, byte_index, 8)
}

/// The first `count` keystream bytes produced from the register values
/// `regs`.
pub open spec fn gea1_stream_bytes(regs: (u64, u64, u64), count: nat) -> Seq<u8> {
    Seq::new(count, |i: int| gea1_keystream_byte(regs, i as nat))
}

/// The keystream register values seeded from a mixed S register value:
/// A from the value itself, B and C from its rotations by 16 and 32
/// within the 64-bit word, each clocked in over 64 ticks.
pub open spec fn gea1_seeded_regs(s: u128) -> (u64, u64, u64) {
    (
        a_seeded(s, 64),
        b_seeded(rotated_right(s, 16, 64), 64),
        c_seeded(rotated_right(s, 32, 64), 64),
    )
}

/// The keystream register values of a fresh GEA-1 session.
pub open spec fn gea1_initial_regs(key: u64, iv: u32, direction: LinkDirection) -> (
    u64,
    u64,
    u64,
) {
    gea1_seeded_regs(s_mixed(key, iv, direction))
}

/// The GEA-1 keystream of `count` bytes for a session.
pub open spec fn gea1_keystream(key: u64, iv: u32, direction: LinkDirection, count: nat) -> Seq<
    u8,
> {
    gea1_stream_bytes(gea1_initial_regs(key, iv, direction), count)
}

/// `data` encrypted (equally: decrypted) under a GEA-1 session.
pub open spec fn gea1_crypted(
    key: u64,
    iv: u32,
    direction: LinkDirection,
    data: Seq<u8>,
) -> Seq<u8> {
    xor_bytes(data, gea1_keystream(key, iv, direction, data.len()))
}

/// All three keystream register values fit their stages: 31 for A, 32
/// for B, 33 for C.
pub open spec fn gea1_regs_in_range(regs: (u64, u64, u64)) -> bool {
    a_in_range(regs.0) && b_in_range(regs.1) && c_in_range(regs.2)
}

/// Well-formedness of a GEA-1 state: every keystream register fits its
/// stages and holds a non-zero value.
pub open spec fn gea1_wf(state: GEA1State) -> bool {
    let regs = gea1_regs(state);
    gea1_regs_in_range(regs) && regs.0 != 0 && regs.1 != 0 && regs.2 != 0
}

/// Free-running clocking preserves the register invariant: the values
/// stay within their stages, and none that starts non-zero ever reaches
/// the all-zero fixed point.
pub proof fn lemma_gea1_advanced_invariant(regs: (u64, u64, u64), ticks: nat)
    requires
        gea1_regs_in_range(regs),
    ensures
        gea1_regs_in_range(gea1_advanced(regs, ticks)),
        regs.0 != 0 ==> gea1_advanced(regs, ticks).0 != 0,
        regs.1 != 0 ==> gea1_advanced(regs, ticks).1 != 0,
        regs.2 != 0 ==> gea1_advanced(regs, ticks).2 != 0,
    decreases ticks,
{
    if ticks > 0 {
        lemma_gea1_advanced_invariant(regs, (ticks - 1) as nat);
        let prev = gea1_advanced(regs, (ticks - 1) as nat);
        lemma_a_clocked_in_range(prev.0, false);
        lemma_b_clocked_in_range(prev.1, false);
        lemma_c_clocked_in_range(prev.2, false);
    }
}

/// A GEA-1 encryption/decryption state: the three keystream registers
/// seeded for a session, beside the mixed S register they came from.
pub struct GEA1State {
    pub a_register: ARegister,
    pub b_register: BRegister,
    pub c_register: CRegister,
    pub s_register: SRegister,
}

impl GEA1State {
    /// Create a new GEA-1 encryption/decryption state from an S register
    /// that has been initialized from a key, IV and direction bit. Each
    /// keystream register is seeded with 64 bits of the mixed S value,
    /// rotated right by 0 (A), 16 (B) or 32 (C) positions, and is
    /// non-zero afterwards.
    pub fn initialize(s_register: SRegister) -> (r: Self)
        ensures
            gea1_regs(r) == gea1_seeded_regs(s_register.0),
            r.s_register == s_register,
            r.a_register.0 != 0,
            r.b_register.0 != 0,
            r.c_register.0 != 0,
            gea1_wf(r),
    {
        let b_seed = rotate_right(s_register.0, 16, 64);
        let c_seed = rotate_right(s_register.0, 32, 64);
        Self {
            a_register: ARegister::initialize(s_register.0, 64),
            b_register: BRegister::initialize(b_seed, 64),
            c_register: CRegister::initialize(c_seed, 64),
            s_register,
        }
    }

    /// Generate `num_bytes` bytes of keystream, eight filter bits to a
    /// byte with the first bit in the least significant position,
    /// clocking the three registers once per bit.
    pub fn generate_stream(&mut self, num_bytes: usize) -> (keystream: Vec<u8>)
        ensures
            keystream@ == gea1_stream_bytes(gea1_regs(*old(self)), num_bytes as nat),
            keystream@.len() == num_bytes,
            gea1_regs(*final(self)) == gea1_advanced(
                gea1_regs(*old(self)),
                8 * (num_bytes as nat),
            ),
            final(self).s_register == old(self).s_register,
            gea1_wf(*old(self)) ==> gea1_wf(*final(self)),
    {
        let ghost regs0 = gea1_regs(*self);
        let ghost s_before = self.s_register;
        let mut keystream: Vec<u8> = Vec::new();
        for num_byte in 0..num_bytes
            invariant
                keystream@.len() == num_byte,
                forall|j: int|
                    0 <= j < num_byte ==> keystream@[j] == gea1_keystream_byte(regs0, j as nat),
                gea1_regs(*self) == gea1_advanced(regs0, 8 * (num_byte as nat)),
                self.s_register == s_before,
        {
            let mut new_byte: u8 = 0;
            for num_bit in 0..8u8
                invariant
                    new_byte == gea1_keystream_byte_prefix(regs0, num_byte as nat, num_bit as nat),
                    gea1_regs(*self) == gea1_advanced(
                        regs0,
                        8 * (num_byte as nat) + num_bit as nat,
                    ),
                    self.s_register == s_before,
            {
                let out_bit = (self.a_register.f_function() ^ self.b_register.f_function())
                    ^ self.c_register.f_function();
                new_byte = new_byte | ((if out_bit {
                    1u8
                } else {
                    0u8
                }) << num_bit);
                self.a_register.clock(None);
                self.b_register.clock(None);
                self.c_register.clock(None);
            }
            keystream.push(new_byte);
        }
        proof {
            assert(keystream@ =~= gea1_stream_bytes(regs0, num_bytes as nat));
            if gea1_regs_in_range(regs0) {
                lemma_gea1_advanced_invariant(regs0, 8 * (num_bytes as nat));
            }
        }
        keystream
    }

    /// Encrypt or decrypt `stream` by exclusive-oring each of its bytes
    /// with the corresponding byte of freshly generated keystream.
    pub fn crypt_stream(&mut self, stream: &[u8]) -> (outstream: Vec<u8>)
        ensures
            outstream@ == xor_bytes(
                stream@,
                gea1_stream_bytes(gea1_regs(*old(self)), stream@.len()),
            ),
            outstream@.len() == stream@.len(),
            gea1_regs(*final(self)) == gea1_advanced(gea1_regs(*old(self)), 8 * stream@.len()),
            final(self).s_register == old(self).s_register,
            gea1_wf(*old(self)) ==> gea1_wf(*final(self)),
    {
        let keystream = self.generate_stream(stream.len());
        let mut outstream: Vec<u8> = Vec::new();
        for byte_pos in 0..stream.len()
            invariant
                outstream@.len() == byte_pos,
                forall|j: int| 0 <= j < byte_pos ==> outstream@[j] == stream@[j] ^ keystream@[j],
                keystream@.len() == stream@.len(),
        {
            outstream.push(stream[byte_pos] ^ keystream[byte_pos]);
        }
        proof {
            assert(outstream@ =~= xor_bytes(stream@, keystream@));
        }
        outstream
    }
}

/// Symmetry: crypting a crypted payload under the same key, IV and
/// direction restores the payload.
pub proof fn lemma_gea1_crypt_symmetric(
    key: u64,
    iv: u32,
    direction: LinkDirection,
    payload: Seq<u8>,
)
    ensures
        gea1_crypted(key, iv, direction, gea1_crypted(key, iv, direction, payload)) == payload,
{
    let keystream = gea1_keystream(key, iv, direction, payload.len());
    assert(gea1_crypted(key, iv, direction, payload).len() == payload.len());
    lemma_xor_bytes_involutive(payload, keystream);
}

/// Exclusive-or identity: a crypted payload combined with the keystream
/// of its own length is the payload again.
pub proof fn lemma_gea1_xor_identity(
    key: u64,
    iv: u32,
    direction: LinkDirection,
    payload: Seq<u8>,
)
    ensures
        xor_bytes(
            gea1_crypted(key, iv, direction, payload),
            gea1_keystream(key, iv, direction, payload.len()),
        ) == payload,
{
    lemma_xor_bytes_involutive(payload, gea1_keystream(key, iv, direction, payload.len()));
}

/// Length preservation: crypting keeps the payload length, and a
/// requested keystream has the requested length.
pub proof fn lemma_gea1_length_preserving(
    key: u64,
    iv: u32,
    direction: LinkDirection,
    payload: Seq<u8>,
    count: nat,
)
    ensures
        gea1_crypted(key, iv, direction, payload).len() == payload.len(),
        gea1_keystream(key, iv, direction, count).len() == count,
{
}

/// Keystream determinism: the keystream depends on the register values
/// alone, so two states holding equal registers produce equal
/// keystreams of any length.
pub proof fn lemma_gea1_keystream_deterministic(first: GEA1State, second: GEA1State, count: nat)
    requires
        gea1_regs(first) == gea1_regs(second),
    ensures
        gea1_stream_bytes(gea1_regs(first), count) == gea1_stream_bytes(
            gea1_regs(second),
            count,
        ),
{
}

/// Keystream determinism over lengths: of two keystreams of the same
/// session, the shorter is a prefix of the longer.
pub proof fn lemma_gea1_keystream_extends(
    key: u64,
    iv: u32,
    direction: LinkDirection,
    shorter: nat,
    longer: nat,
)
    requires
        shorter <= longer,
    ensures
        gea1_keystream(key, iv, direction, longer).take(shorter as int) == gea1_keystream(
            key,
            iv,
            direction,
            shorter,
        ),
{
    assert(gea1_keystream(key, iv, direction, longer).take(shorter as int) =~= gea1_keystream(
        key,
        iv,
        direction,
        shorter,
    ));
}

/// Free-running clocking composes: advancing the registers by `first`
/// and then by `second` ticks is advancing them by the sum.
pub proof fn lemma_gea1_advanced_adds(regs: (u64, u64, u64), first: nat, second: nat)
    ensures
        gea1_advanced(gea1_advanced(regs, first), second) == gea1_advanced(regs, first + second),
    decreases second,
{
    if second > 0 {
        lemma_gea1_advanced_adds(regs, first, (second - 1) as nat);
    }
}

proof fn lemma_gea1_byte_prefix_continues(
    regs: (u64, u64, u64),
    bytes_done: nat,
    byte_index: nat,
    bit_count: nat,
)
    ensures
        gea1_keystream_byte_prefix(gea1_advanced(regs, 8 * bytes_done), byte_index, bit_count)
            == gea1_keystream_byte_prefix(regs, bytes_done + byte_index, bit_count),
    decreases bit_count,
{
    if bit_count > 0 {
        let last = (bit_count - 1) as nat;
        lemma_gea1_byte_prefix_continues(regs, bytes_done, byte_index, last);
        lemma_gea1_advanced_adds(regs, 8 * bytes_done, 8 * byte_index + last);
    }
}

/// Stream coherence: a state already driven `bytes_done` bytes into the
/// keystream produces, from there on, the same bytes the fresh state
/// produces from offset `bytes_done`.
pub proof fn lemma_gea1_stream_continues(regs: (u64, u64, u64), bytes_done: nat, index: nat)
    ensures
        gea1_keystream_byte(gea1_advanced(regs, 8 * bytes_done), index) == gea1_keystream_byte(
            regs,
            bytes_done + index,
        ),
{
    lemma_gea1_byte_prefix_continues(regs, bytes_done, index, 8);
}

/// Non-zero invariant: every keystream register of a fresh GEA-1
/// session holds a non-zero value.
pub proof fn lemma_gea1_initial_regs_nonzero(key: u64, iv: u32, direction: LinkDirection)
    ensures
        gea1_initial_regs(key, iv, direction).0 != 0,
        gea1_initial_regs(key, iv, direction).1 != 0,
        gea1_initial_regs(key, iv, direction).2 != 0,
{
}

} // verus!
