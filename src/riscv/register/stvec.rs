//! The `stvec` register: trap vector base address and mode.
use vstd::prelude::*;

verus! {

#[derive(Copy, Clone, Debug, PartialEq, Eq, Structural)]
pub enum TrapMode {
    /// Every trap enters at the base address.
    Direct,
    /// Interrupt `i` enters at base + 4 * i.
    Vectored,
}

/// The `stvec` value for a 4-byte aligned base `addr` and `mode` (mode in the
/// low two bits).
pub fn bits(addr: usize, mode: TrapMode) -> (r: usize)
    requires
        addr % 4 == 0,
        addr <= usize::MAX - 1,
    ensures
        r == addr + (match mode {
            TrapMode::Direct => 0int,
            TrapMode::Vectored => 1int,
        }),
{
    match mode {
        TrapMode::Direct => addr,
        TrapMode::Vectored => addr + 1,
    }
}

} // verus!
