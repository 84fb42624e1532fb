//! Instants: milliseconds since the Unix epoch, and the instant that never
//! comes.

use vstd::prelude::*;

verus! {

/// The expiry of an entry that never expires: the last instant of the clock.
pub const NEVER: u64 = 0xFFFF_FFFF_FFFF_FFFF;

/// The expiry that `millis` milliseconds since the Unix epoch give; what lies
/// beyond the last instant of the clock never comes.
pub open spec fn expiry_of(millis: nat) -> u64 {
    if millis <= NEVER {
        millis as u64
    } else {
        NEVER
    }
}

} // verus!
