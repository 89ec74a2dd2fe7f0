//! The fixed lookup table behind the nonlinear filter function `f`.

use vstd::prelude::*;

verus! {

/// The 128-entry boolean table realizing the filter function `f` of
/// GEA-1 and GEA-2, packed into a single word: entry `i` is bit `i`.
/// The table is fixed by the 3GPP specification and pinned by the
/// published test vectors.
pub const F_LOOKUP_TABLE: u128 = 0xfc1d2b0681aca94809e2de35f5b4dd9c;

/// Entry `index` of the filter table.
pub open spec fn f_table_entry(index: u128) -> bool
    recommends
        index < 128,
{
    (F_LOOKUP_TABLE >> index) & 1 == 1
}

/// Look an entry up in the packed filter table.
pub fn f_table_lookup(index: u128) -> (r: bool)
    requires
        index < 128,
    ensures
        r == f_table_entry(index),
{
    (F_LOOKUP_TABLE >> index) & 1 == 1
}

} // verus!
