//! The `satp` register: address-translation mode, ASID and the physical page
//! number of the root page table (Sv32: bit 31, bits 30..22, bits 21..0).
//! Reading and writing the register is left to the caller; these functions
//! compose and decode its value.
use vstd::prelude::*;

verus! {

#[derive(Copy, Clone, Debug, PartialEq, Eq, Structural)]
pub enum Mode {
    Bare,
    Sv32,
}

pub open spec fn mode_bit(mode: Mode) -> int {
    match mode {
        Mode::Bare => 0,
        Mode::Sv32 => 1,
    }
}

/// The `satp` value that selects `mode`, `asid` and the root table at
/// physical page `root_table_ppn`.
pub fn set_root_table(mode: Mode, asid: usize, root_table_ppn: usize) -> (bits: usize)
    requires
        asid < 0x200,
        root_table_ppn < 0x40_0000,
    ensures
        bits == mode_bit(mode) * 0x8000_0000 + asid * 0x40_0000 + root_table_ppn,
{
    let m: usize = match mode {
        Mode::Bare => 0,
        Mode::Sv32 => 1,
    };
    m * 0x8000_0000 + asid * 0x40_0000 + root_table_ppn
}

/// The root table's physical page number held in `bits`.
pub fn root_table_ppn(bits: usize) -> (r: usize)
    ensures
        r == bits % 0x40_0000,
{
    bits % 0x40_0000
}

/// The root table's physical address held in `bits`; the table must lie in
/// the 32-bit physical space.
pub fn root_table_paddr(bits: usize) -> (r: usize)
    requires
        bits % 0x40_0000 < 0x10_0000,
    ensures
        r == (bits % 0x40_0000) * 0x1000,
{
    root_table_ppn(bits) * 0x1000
}

/// The translation mode selected by bit 31 of `bits`.
pub fn mode(bits: usize) -> (r: Mode)
    ensures
        mode_bit(r) == (bits / 0x8000_0000) % 2,
{
    if (bits / 0x8000_0000) % 2 == 0 {
        Mode::Bare
    } else {
        Mode::Sv32
    }
}

} // verus!
