//! The GPRS encryption algorithms GEA-1 and GEA-2.
//!
//! Both are stream ciphers built from linear-feedback shift registers
//! filtered through a fixed nonlinear boolean function. A session key, an
//! initialization vector and a link direction are mixed into a nonlinear
//! register (S for GEA-1, W for GEA-2), whose final state seeds the
//! keystream registers A, B, C (and D for GEA-2). Keystream bytes are the
//! exclusive-or of the registers' filter outputs, eight bits at a time;
//! encryption and decryption both exclusive-or the payload with that
//! keystream.

pub mod bits;
pub mod f_lookup_table;
pub mod lfsr;
pub mod link_direction;
pub mod registers;
pub mod gea1;
pub mod gea2;
