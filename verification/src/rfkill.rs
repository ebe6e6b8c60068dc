//! The decision behind the startup radio check: what a kernel rfkill state
//! value means for the Bluetooth radio. Reading the state files is I/O and
//! stays outside.

use vstd::prelude::*;

verus! {

/// What an rfkill state value means for the radio.
#[derive(Debug, Clone, Copy, PartialEq, Eq, Structural)]
pub enum RfkillBlock {
    /// State 0: blocked in software; unblocking is up to the operator.
    SoftBlocked,
    /// State 2: blocked by a hardware switch.
    HardBlocked,
    /// Any other state: the radio is usable.
    Usable,
}

/// Maps the kernel's rfkill state value: 0 is soft blocked, 2 is hard
/// blocked, everything else leaves the radio usable.
pub fn rfkill_block(state: u8) -> (r: RfkillBlock)
    ensures
        state == 0 ==> r == RfkillBlock::SoftBlocked,
        state == 2 ==> r == RfkillBlock::HardBlocked,
        state != 0 && state != 2 ==> r == RfkillBlock::Usable,
{
    match state {
        0 => RfkillBlock::SoftBlocked,
        2 => RfkillBlock::HardBlocked,
        _ => RfkillBlock::Usable,
    }
}

} // verus!
