//! The `sstatus` register: SIE is bit 1, SPP bit 8, SUM bit 18.
//!
//! An `Sstatus` is an in-memory copy of the register; changing it does not
//! touch the register until the caller writes it back.
use vstd::prelude::*;

verus! {

/// Supervisor interrupt enable.
pub const SIE: usize = 0x2;

/// Supervisor previous privilege (1: supervisor, 0: user).
pub const SPP_BIT: usize = 0x100;

/// Permit supervisor access to user-mode pages.
pub const SUM: usize = 0x4_0000;

/// Supervisor Status Register
#[derive(Clone, Copy, Debug)]
pub struct Sstatus {
    pub bits: usize,
}

/// Supervisor Previous Privilege Mode
#[derive(Copy, Clone, Debug, Eq, PartialEq, Structural)]
pub enum SPP {
    Supervisor,
    User,
}

impl Sstatus {
    /// The copy of a register value that was read.
    pub fn from_bits(bits: usize) -> (r: Sstatus)
        ensures
            r.bits == bits,
    {
        Sstatus { bits }
    }

    pub fn bits(&self) -> (r: usize)
        ensures
            r == self.bits,
    {
        self.bits
    }

    /// Sets (supervisor) or clears (user) the SPP bit of this copy.
    pub fn set_spp(&mut self, val: SPP)
        ensures
            final(self).bits == (match val {
                SPP::Supervisor => old(self).bits | SPP_BIT,
                SPP::User => old(self).bits & !SPP_BIT,
            }),
    {
        match val {
            SPP::Supervisor => self.bits = self.bits | SPP_BIT,
            SPP::User => self.bits = self.bits & !SPP_BIT,
        }
    }
}

/// The register value `bits` with supervisor interrupts enabled.
pub fn set_sie(bits: usize) -> (r: usize)
    ensures
        r == bits | SIE,
{
    bits | SIE
}

/// The register value `bits` with supervisor access to user pages permitted.
pub fn set_sum(bits: usize) -> (r: usize)
    ensures
        r == bits | SUM,
{
    bits | SUM
}

/// The interrupt-enable state held in `bits`, as a value that `restore`-style
/// callers can OR back into the register: `SIE` when enabled, else 0.
pub fn sie_flag(bits: usize) -> (r: usize)
    ensures
        r == bits & SIE,
{
    bits & SIE
}

} // verus!
