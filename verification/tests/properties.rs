//! Property checks on concrete values: symmetry, determinism, the
//! exclusive-or identity, length preservation, the non-zero invariant,
//! stream coherence, and the fixed filter table.

use gea_rs::f_lookup_table::f_table_lookup;
use gea_rs::gea1::GEA1State;
use gea_rs::gea2::GEA2State;
use gea_rs::bits::rotate_right;
use gea_rs::link_direction::LinkDirection;
use gea_rs::registers::a_register::ARegister;
use gea_rs::registers::b_register::BRegister;
use gea_rs::registers::c_register::CRegister;
use gea_rs::registers::d_register::DRegister;
use gea_rs::registers::s_register::SRegister;
use gea_rs::registers::w_register::WRegister;

const KEY: u64 = 0x0123456789abcdef;
const IV: u32 = 0xfedcba98;

fn gea1_fresh(key: u64, iv: u32, direction: LinkDirection) -> GEA1State {
    GEA1State::initialize(SRegister::initialize(key, iv, direction))
}

fn gea2_fresh(key: u64, iv: u32, direction: LinkDirection) -> GEA2State {
    GEA2State::initialize(WRegister::initialize(key, iv, direction))
}

#[test]
fn gea1_crypt_round_trip() {
    let payload: Vec<u8> = (0u8..=41).collect();
    let encrypted = gea1_fresh(KEY, IV, LinkDirection::Uplink).crypt_stream(&payload);
    let decrypted = gea1_fresh(KEY, IV, LinkDirection::Uplink).crypt_stream(&encrypted);
    assert_eq!(decrypted, payload);
}

#[test]
fn gea2_crypt_round_trip() {
    let payload: Vec<u8> = (100u8..=141).collect();
    let encrypted = gea2_fresh(KEY, IV, LinkDirection::Downlink).crypt_stream(&payload);
    let decrypted = gea2_fresh(KEY, IV, LinkDirection::Downlink).crypt_stream(&encrypted);
    assert_eq!(decrypted, payload);
}

#[test]
fn gea1_keystream_deterministic() {
    let first = gea1_fresh(KEY, IV, LinkDirection::Downlink).generate_stream(32);
    let second = gea1_fresh(KEY, IV, LinkDirection::Downlink).generate_stream(32);
    assert_eq!(first, second);
}

#[test]
fn gea2_keystream_deterministic() {
    let first = gea2_fresh(KEY, IV, LinkDirection::Uplink).generate_stream(32);
    let second = gea2_fresh(KEY, IV, LinkDirection::Uplink).generate_stream(32);
    assert_eq!(first, second);
}

#[test]
fn gea1_xor_identity() {
    let payload: Vec<u8> = vec![0xde, 0xad, 0xbe, 0xef, 0x00, 0xff, 0x55, 0xaa];
    let encrypted = gea1_fresh(KEY, IV, LinkDirection::Uplink).crypt_stream(&payload);
    let keystream = gea1_fresh(KEY, IV, LinkDirection::Uplink).generate_stream(payload.len());
    let recovered: Vec<u8> = encrypted
        .iter()
        .zip(keystream.iter())
        .map(|(c, k)| c ^ k)
        .collect();
    assert_eq!(recovered, payload);
}

#[test]
fn gea2_xor_identity() {
    let payload: Vec<u8> = vec![0x01, 0x02, 0x04, 0x08, 0x10, 0x20, 0x40, 0x80, 0xfe];
    let encrypted = gea2_fresh(KEY, IV, LinkDirection::Downlink).crypt_stream(&payload);
    let keystream = gea2_fresh(KEY, IV, LinkDirection::Downlink).generate_stream(payload.len());
    let recovered: Vec<u8> = encrypted
        .iter()
        .zip(keystream.iter())
        .map(|(c, k)| c ^ k)
        .collect();
    assert_eq!(recovered, payload);
}

#[test]
fn gea1_length_preservation() {
    assert_eq!(
        gea1_fresh(KEY, IV, LinkDirection::Uplink).generate_stream(0),
        Vec::<u8>::new()
    );
    assert_eq!(
        gea1_fresh(KEY, IV, LinkDirection::Uplink).crypt_stream(&[]),
        Vec::<u8>::new()
    );
    assert_eq!(
        gea1_fresh(KEY, IV, LinkDirection::Uplink)
            .generate_stream(1000)
            .len(),
        1000
    );
    assert_eq!(
        gea1_fresh(KEY, IV, LinkDirection::Uplink)
            .crypt_stream(&[0u8; 77])
            .len(),
        77
    );
}

#[test]
fn gea2_length_preservation() {
    assert_eq!(
        gea2_fresh(KEY, IV, LinkDirection::Downlink).generate_stream(0),
        Vec::<u8>::new()
    );
    assert_eq!(
        gea2_fresh(KEY, IV, LinkDirection::Downlink).crypt_stream(&[]),
        Vec::<u8>::new()
    );
    assert_eq!(
        gea2_fresh(KEY, IV, LinkDirection::Downlink)
            .generate_stream(1000)
            .len(),
        1000
    );
    assert_eq!(
        gea2_fresh(KEY, IV, LinkDirection::Downlink)
            .crypt_stream(&[0u8; 77])
            .len(),
        77
    );
}

#[test]
fn gea1_registers_nonzero_after_initialization() {
    // The all-zero session drives the S register into its weak all-zero
    // state, so every keystream register is forced to 1.
    let weak = gea1_fresh(0, 0, LinkDirection::Uplink);
    assert_eq!(weak.s_register.0, 0);
    assert_eq!(weak.a_register.0, 1);
    assert_eq!(weak.b_register.0, 1);
    assert_eq!(weak.c_register.0, 1);

    let state = gea1_fresh(KEY, IV, LinkDirection::Downlink);
    assert_ne!(state.a_register.0, 0);
    assert_ne!(state.b_register.0, 0);
    assert_ne!(state.c_register.0, 0);
}

#[test]
fn gea2_registers_nonzero_after_initialization() {
    let weak = gea2_fresh(0, 0, LinkDirection::Uplink);
    assert_eq!(weak.w_register.0, 0);
    assert_eq!(weak.a_register.0, 1);
    assert_eq!(weak.b_register.0, 1);
    assert_eq!(weak.c_register.0, 1);
    assert_eq!(weak.d_register.0, 1);

    let state = gea2_fresh(KEY, IV, LinkDirection::Uplink);
    assert_ne!(state.a_register.0, 0);
    assert_ne!(state.b_register.0, 0);
    assert_ne!(state.c_register.0, 0);
    assert_ne!(state.d_register.0, 0);
}

#[test]
fn gea1_stream_coherence() {
    // A state carries the keystream across calls: two short requests
    // continue where the first ended.
    let mut split = gea1_fresh(0, 0, LinkDirection::Uplink);
    let mut stream = split.generate_stream(5);
    stream.extend(split.generate_stream(13));
    let whole = gea1_fresh(0, 0, LinkDirection::Uplink).generate_stream(18);
    assert_eq!(stream, whole);
    assert_eq!(
        whole,
        [
            0x1f, 0xa1, 0x98, 0xab, 0x21, 0x14, 0xc3, 0x8a, 0x9e, 0xbc, 0xcb, 0x63, 0xad, 0x48,
            0x13, 0xa7, 0x40, 0xc1
        ]
    );
}

#[test]
fn gea2_stream_coherence() {
    let mut split = gea2_fresh(KEY, IV, LinkDirection::Downlink);
    let mut stream = split.generate_stream(7);
    stream.extend(split.generate_stream(11));
    let whole = gea2_fresh(KEY, IV, LinkDirection::Downlink).generate_stream(18);
    assert_eq!(stream, whole);
}

#[test]
fn direction_changes_the_keystream() {
    let uplink = gea1_fresh(KEY, IV, LinkDirection::Uplink).generate_stream(16);
    let downlink = gea1_fresh(KEY, IV, LinkDirection::Downlink).generate_stream(16);
    assert_ne!(uplink, downlink);

    let uplink = gea2_fresh(KEY, IV, LinkDirection::Uplink).generate_stream(16);
    let downlink = gea2_fresh(KEY, IV, LinkDirection::Downlink).generate_stream(16);
    assert_ne!(uplink, downlink);
}

#[test]
fn mixing_registers_match_known_states() {
    assert_eq!(
        SRegister::initialize(0x55e303eb7d55b685, 0xda637a83, LinkDirection::Downlink).0,
        0x75e01f03bf90ab2d
    );
    assert_eq!(
        WRegister::initialize(0xb10f389b78a61648, 0x24c05b01, LinkDirection::Downlink).0,
        0x1f76c3d4592ef5b243ddea809
    );
}

#[test]
fn keystream_registers_seed_to_known_states() {
    let s = SRegister::initialize(0x55e303eb7d55b685, 0xda637a83, LinkDirection::Downlink);
    let state = GEA1State::initialize(s);
    assert_eq!(state.a_register.0, 0x66415edd);

    // All-zero seed material leaves each register on its fixed point,
    // which initialization forces to 1.
    assert_eq!(ARegister::initialize(0, 64).0, 1);
    assert_eq!(BRegister::initialize(0, 64).0, 1);
    assert_eq!(CRegister::initialize(0, 97).0, 1);
    assert_eq!(DRegister::initialize(0, 97).0, 1);
}

#[test]
fn filter_table_is_pinned() {
    // The first eight entries of the published table.
    let expected = [false, false, true, true, true, false, false, true];
    for (index, value) in expected.iter().enumerate() {
        assert_eq!(f_table_lookup(index as u128), *value);
    }
    // The last entry.
    assert!(f_table_lookup(127));
}

#[test]
fn rotation_within_logical_width() {
    assert_eq!(rotate_right(1, 16, 64), 1u128 << 48);
    assert_eq!(rotate_right(0x1_0000, 16, 64), 1);
    assert_eq!(rotate_right(1, 16, 97), 1u128 << 81);
    assert_eq!(rotate_right(0xffff, 16, 97), 0xffff_u128 << 81);
}
