//! The direction of the radio link a frame travels on.

use vstd::prelude::*;

verus! {

/// Direction of the GPRS radio link protected by the cipher.
#[derive(Clone, Copy, PartialEq, Eq, Structural, Debug)]
pub enum LinkDirection {
    /// Mobile station to network; contributes bit 0 to the mixing material.
    Uplink,
    /// Network to mobile station; contributes bit 1 to the mixing material.
    Downlink,
}

/// The single bit a direction clocks into the mixing registers.
pub open spec fn direction_bit(direction: LinkDirection) -> u128 {
    match direction {
        LinkDirection::Uplink => 0,
        LinkDirection::Downlink => 1,
    }
}

} // verus!
