//! The six shift registers of the two ciphers.

// Mixing register used in GEA-1:
pub mod s_register;

// Keystream registers used in GEA-1 and GEA-2:
pub mod a_register;
pub mod b_register;
pub mod c_register;

// Registers specific to GEA-2:
pub mod w_register;
pub mod d_register;
