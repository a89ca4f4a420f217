//! Sv32 virtual and physical addresses, pages and frames.
//!
//! A 32-bit address splits into a root-table index (bits 31..22), a leaf-table
//! index (bits 21..12) and a page offset (bits 11..0). The fields are read as
//! quotients and remainders of powers of two, which is what extracting a bit
//! range means for an unsigned value.
use vstd::prelude::*;

verus! {

/// Bits 31..22 of an address.
pub open spec fn p2_index_of(a: int) -> int {
    (a / 0x40_0000) % 0x400
}

/// Bits 21..12 of an address.
pub open spec fn p1_index_of(a: int) -> int {
    (a / 0x1000) % 0x400
}

/// Bits 31..12 of an address.
pub open spec fn page_number_of(a: int) -> int {
    (a / 0x1000) % 0x10_0000
}

/// Bits 11..0 of an address.
pub open spec fn page_offset_of(a: int) -> int {
    a % 0x1000
}

/// The address whose three fields are the given values.
pub open spec fn address_of(p2: int, p1: int, offset: int) -> int {
    p2 * 0x40_0000 + p1 * 0x1000 + offset
}

#[derive(Debug, Copy, Clone, PartialEq, Eq, Structural, PartialOrd, Ord)]
pub struct VirtAddr(pub usize);

impl VirtAddr {
    pub fn new(addr: usize) -> (r: VirtAddr)
        ensures
            r.0 == addr,
    {
        VirtAddr(addr)
    }

    pub fn as_usize(&self) -> (r: usize)
        ensures
            r == self.0,
    {
        self.0
    }

    pub fn p2_index(&self) -> (r: usize)
        ensures
            r == p2_index_of(self.0 as int),
    {
        (self.0 / 0x40_0000) % 0x400
    }

    pub fn p1_index(&self) -> (r: usize)
        ensures
            r == p1_index_of(self.0 as int),
    {
        (self.0 / 0x1000) % 0x400
    }

    pub fn page_number(&self) -> (r: usize)
        ensures
            r == page_number_of(self.0 as int),
    {
        (self.0 / 0x1000) % 0x10_0000
    }

    pub fn page_offset(&self) -> (r: usize)
        ensures
            r == page_offset_of(self.0 as int),
    {
        self.0 % 0x1000
    }

    /// The address with its page offset cleared.
    pub fn to_4k_aligned(&self) -> (r: Self)
        ensures
            r.0 == self.0 - page_offset_of(self.0 as int),
    {
        VirtAddr(self.0 - self.0 % 0x1000)
    }

    /// Reassembles an address from its two table indices and its offset, each
    /// of which must fit its field.
    pub fn from_page_table_indices(p2_index: usize, p1_index: usize, offset: usize) -> (r: Self)
        requires
            p2_index < 0x400,
            p1_index < 0x400,
            offset < 0x1000,
        ensures
            r.0 == address_of(p2_index as int, p1_index as int, offset as int),
            p2_index_of(r.0 as int) == p2_index,
            p1_index_of(r.0 as int) == p1_index,
            page_offset_of(r.0 as int) == offset,
    {
        proof {
            lemma_fields_of_address(p2_index as int, p1_index as int, offset as int);
        }
        VirtAddr::new(p2_index * 0x40_0000 + p1_index * 0x1000 + offset)
    }
}

/// The three fields of a reassembled address are the values it was built from.
pub proof fn lemma_fields_of_address(p2: int, p1: int, offset: int)
    requires
        0 <= p2 < 0x400,
        0 <= p1 < 0x400,
        0 <= offset < 0x1000,
    ensures
        0 <= address_of(p2, p1, offset) < 0x1_0000_0000,
        p2_index_of(address_of(p2, p1, offset)) == p2,
        p1_index_of(address_of(p2, p1, offset)) == p1,
        page_offset_of(address_of(p2, p1, offset)) == offset,
        page_number_of(address_of(p2, p1, offset)) == p2 * 0x400 + p1,
{
    let a = address_of(p2, p1, offset);
    assert(a / 0x40_0000 == p2) by (nonlinear_arith)
        requires
            a == p2 * 0x40_0000 + p1 * 0x1000 + offset,
            0 <= p1 < 0x400,
            0 <= offset < 0x1000,
            0 <= p2,
    ;
    assert(a / 0x1000 == p2 * 0x400 + p1) by (nonlinear_arith)
        requires
            a == p2 * 0x40_0000 + p1 * 0x1000 + offset,
            0 <= p1,
            0 <= offset < 0x1000,
            0 <= p2,
    ;
    assert((p2 * 0x400 + p1) % 0x400 == p1) by (nonlinear_arith)
        requires
            0 <= p1 < 0x400,
            0 <= p2,
    ;
    assert(a % 0x1000 == offset) by (nonlinear_arith)
        requires
            a == p2 * 0x40_0000 + p1 * 0x1000 + offset,
            0 <= p1,
            0 <= offset < 0x1000,
            0 <= p2,
    ;
}

#[derive(Debug, Copy, Clone, PartialEq, Eq, Structural, PartialOrd, Ord)]
pub struct PhysAddr(pub usize);

impl PhysAddr {
    pub fn new(addr: usize) -> (r: PhysAddr)
        ensures
            r.0 == addr,
    {
        PhysAddr(addr)
    }

    pub fn as_usize(&self) -> (r: usize)
        ensures
            r == self.0,
    {
        self.0
    }

    pub fn p2_index(&self) -> (r: usize)
        ensures
            r == p2_index_of(self.0 as int),
    {
        (self.0 / 0x40_0000) % 0x400
    }

    pub fn p1_index(&self) -> (r: usize)
        ensures
            r == p1_index_of(self.0 as int),
    {
        (self.0 / 0x1000) % 0x400
    }

    pub fn page_number(&self) -> (r: usize)
        ensures
            r == page_number_of(self.0 as int),
    {
        (self.0 / 0x1000) % 0x10_0000
    }

    pub fn page_offset(&self) -> (r: usize)
        ensures
            r == page_offset_of(self.0 as int),
    {
        self.0 % 0x1000
    }

    /// The address with its page offset cleared.
    pub fn to_4k_aligned(&self) -> (r: Self)
        ensures
            r.0 == self.0 - page_offset_of(self.0 as int),
    {
        PhysAddr(self.0 - self.0 % 0x1000)
    }
}

/// A virtual page, held as its (page-aligned) start address.
#[derive(Debug, Copy, Clone, PartialEq, Eq, Structural, PartialOrd, Ord)]
pub struct Page(pub VirtAddr);

impl Page {
    pub fn of_addr(addr: VirtAddr) -> (r: Self)
        ensures
            r.0.0 == addr.0 - page_offset_of(addr.0 as int),
    {
        Page(addr.to_4k_aligned())
    }

    /// The page with the given virtual page number.
    pub fn of_vpn(vpn: usize) -> (r: Self)
        requires
            vpn < 0x10_0000,
        ensures
            r.0.0 == vpn * 0x1000,
    {
        Page(VirtAddr::new(vpn * 0x1000))
    }

    pub fn start_address(&self) -> (r: VirtAddr)
        ensures
            r == self.0,
    {
        self.0
    }

    pub fn p2_index(&self) -> (r: usize)
        ensures
            r == p2_index_of(self.0.0 as int),
    {
        self.0.p2_index()
    }

    pub fn p1_index(&self) -> (r: usize)
        ensures
            r == p1_index_of(self.0.0 as int),
    {
        self.0.p1_index()
    }

    pub fn number(&self) -> (r: usize)
        ensures
            r == page_number_of(self.0.0 as int),
    {
        self.0.page_number()
    }

    /// The page reached through the given root and leaf indices.
    pub fn from_page_table_indices(p2_index: usize, p1_index: usize) -> (r: Self)
        requires
            p2_index < 0x400,
            p1_index < 0x400,
        ensures
            r.0.0 == address_of(p2_index as int, p1_index as int, 0),
            r.p2_index_spec() == p2_index,
            r.p1_index_spec() == p1_index,
    {
        let addr = VirtAddr::from_page_table_indices(p2_index, p1_index, 0);
        proof {
            lemma_fields_of_address(p2_index as int, p1_index as int, 0);
        }
        Page::of_addr(addr)
    }

    pub open spec fn p2_index_spec(self) -> int {
        p2_index_of(self.0.0 as int)
    }

    pub open spec fn p1_index_spec(self) -> int {
        p1_index_of(self.0.0 as int)
    }
}

/// A physical frame, held as its (frame-aligned) start address.
#[derive(Debug, Copy, Clone, PartialEq, Eq, Structural, PartialOrd, Ord)]
pub struct Frame(pub PhysAddr);

impl Frame {
    pub fn of_addr(addr: PhysAddr) -> (r: Self)
        ensures
            r.0.0 == addr.0 - page_offset_of(addr.0 as int),
    {
        Frame(addr.to_4k_aligned())
    }

    /// The frame with the given physical page number.
    pub fn of_ppn(ppn: usize) -> (r: Self)
        requires
            ppn < 0x10_0000,
        ensures
            r.0.0 == ppn * 0x1000,
    {
        Frame(PhysAddr::new(ppn * 0x1000))
    }

    pub fn start_address(&self) -> (r: PhysAddr)
        ensures
            r == self.0,
    {
        self.0
    }

    pub fn p2_index(&self) -> (r: usize)
        ensures
            r == p2_index_of(self.0.0 as int),
    {
        self.0.p2_index()
    }

    pub fn p1_index(&self) -> (r: usize)
        ensures
            r == p1_index_of(self.0.0 as int),
    {
        self.0.p1_index()
    }

    pub fn number(&self) -> (r: usize)
        ensures
            r == page_number_of(self.0.0 as int),
    {
        self.0.page_number()
    }
}

} // verus!
