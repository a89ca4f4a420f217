//! A page table built with a fixed linear offset: the root table and the
//! leaf tables it points to are written at their physical address plus
//! `offset`. The tables are held here by value, the leaf table of root entry
//! `i` at index `i`.
use vstd::prelude::*;
use crate::memory_set::MemoryAttr;
use crate::new_memory::FrameAllocator;
use crate::new_memory::paging::PagingError;
use crate::new_memory::paging::table::{Level1, Level2, Table, ENTRY_COUNT};
use crate::riscv::addr::Frame;

verus! {

/// Root-table index of an address: bits 31..22.
pub open spec fn pde_index(addr: int) -> int {
    addr / 0x40_0000
}

/// Leaf-table index of an address: bits 21..12.
pub open spec fn pte_index(addr: int) -> int {
    (addr / 0x1000) % 0x400
}

/// The page address at or below `a`.
pub open spec fn first_page_address(a: usize) -> int {
    a - a % 0x1000
}

/// The leaf entry that maps page address `vaddr` with `attr` under `offset`.
pub open spec fn leaf_entry_for(vaddr: int, offset: int, attr: u32) -> u32 {
    (((vaddr - offset) / 4) as u32) | attr
}

pub struct InactivePageTable {
    root_table: Frame,
    /// The frames of the leaf tables, by root index.
    pdes: Vec<Option<Frame>>,
    offset: usize,
    root: Table<Level2>,
    leaves: Vec<Table<Level1>>,
}

impl InactivePageTable {
    pub closed spec fn wf(&self) -> bool {
        &&& self.root.wf()
        &&& self.pdes@.len() == ENTRY_COUNT
        &&& self.leaves@.len() == ENTRY_COUNT
        &&& forall|i: int| 0 <= i < ENTRY_COUNT ==> (#[trigger] self.leaves@[i]).wf()
        &&& self.root_table.0.0 <= 0xffff_f000
        &&& self.root_table.0.0 + self.offset <= usize::MAX
        &&& self.offset % 0x1000 == 0
    }

    /// The page at address `v` is mapped with `attr`: its root entry is set
    /// and its leaf entry points `offset` below it.
    pub open spec fn page_set(&self, v: int, attr: u32) -> bool {
        &&& self.root()[pde_index(v)] != 0
        &&& self.leaf(pde_index(v))[pte_index(v)] == leaf_entry_for(v, self.offset() as int, attr)
    }

    /// The frames of the leaf tables, by root index.
    pub closed spec fn pdes(&self) -> Seq<Option<Frame>> {
        self.pdes@
    }

    pub closed spec fn offset(&self) -> usize {
        self.offset
    }

    pub closed spec fn root_frame(&self) -> Frame {
        self.root_table
    }

    /// Root entries.
    pub closed spec fn root(&self) -> Seq<u32> {
        self.root.view()
    }

    /// Entries of the leaf table under root entry `i`.
    pub closed spec fn leaf(&self, i: int) -> Seq<u32> {
        self.leaves@[i].view()
    }

    /// A table whose root lies in a frame from `allocator`, with no leaf
    /// tables, reached at physical address plus `offset`. The offset maps
    /// whole pages onto whole pages and leaves the root table's address (a
    /// 32-bit physical address) room in a `usize`: the leaf entries `set`
    /// writes are physical page numbers computed by subtracting it.
    pub fn new<A: FrameAllocator>(offset: usize, allocator: &mut A) -> (r: Result<
        InactivePageTable,
        PagingError,
    >)
        requires
            old(allocator).wf(),
            offset <= usize::MAX - 0x1_0000_0000,
            offset % 0x1000 == 0,
        ensures
            final(allocator).wf(),
            r matches Ok(t) ==> t.wf() && t.offset() == offset && forall|i: int|
                0 <= i < ENTRY_COUNT ==> #[trigger] t.root()[i] == 0,
            r matches Ok(t) ==> t.root_frame().0.0 % 0x1000 == 0 && old(allocator).allocated(
                final(allocator),
                Some(crate::new_memory::Frame { number: (t.root_frame().0.0 / 0x1000) as usize }),
            ),
            r matches Ok(t) ==> forall|i: int| 0 <= i < ENTRY_COUNT ==> #[trigger] t.pdes()[i] is None,
            r is Err ==> old(allocator).allocated(final(allocator), None),
            r is Err ==> final(allocator).exhausted(),
            old(allocator).free_frames() > 0 ==> r is Ok,
    {
        let ghost start = *allocator;
        let got = allocator.allocate_frame();
        let root_table = match got {
            Some(f) => Frame::of_ppn(f.number),
            None => {
                return Err(PagingError::OutOfFrames);
            },
        };
        proof {
            let f = got.unwrap();
            assert((f.number * 0x1000) / 0x1000 == f.number) by (nonlinear_arith);
            assert((f.number * 0x1000) % 0x1000 == 0) by (nonlinear_arith);
            assert(crate::new_memory::Frame { number: (root_table.0.0 / 0x1000) as usize } == f);
        }
        let mut pdes: Vec<Option<Frame>> = Vec::new();
        let mut leaves: Vec<Table<Level1>> = Vec::new();
        let mut i: usize = 0;
        while i < ENTRY_COUNT
            invariant
                i <= ENTRY_COUNT,
                pdes@.len() == i,
                leaves@.len() == i,
                forall|k: int| 0 <= k < i ==> (#[trigger] leaves@[k]).wf(),
                forall|k: int| 0 <= k < i ==> #[trigger] pdes@[k] is None,
            decreases ENTRY_COUNT - i,
        {
            pdes.push(None);
            leaves.push(Table::new());
            i = i + 1;
        }
        Ok(InactivePageTable { root_table, pdes, offset, root: Table::new(), leaves })
    }

    fn pgtable_paddr(&self) -> (r: usize)
        ensures
            r == self.root_table.0.0,
    {
        self.root_table.start_address().as_usize()
    }

    /// Where the root table is written.
    pub fn pgtable_vaddr(&self) -> (r: usize)
        requires
            self.wf(),
        ensures
            r == self.root_frame().0.0 + self.offset(),
    {
        self.pgtable_paddr() + self.offset
    }

    /// Maps every page of `start..end` (from `start` rounded down to its page)
    /// to the physical page `offset` below it with `attr`, creating leaf
    /// tables from `allocator` as they are needed.
    pub fn set<A: FrameAllocator>(
        &mut self,
        start: usize,
        end: usize,
        attr: MemoryAttr,
        allocator: &mut A,
    ) -> (r: Result<(), PagingError>)
        requires
            old(self).wf(),
            old(allocator).wf(),
            old(self).offset() <= start,
            start <= end,
            end <= 0xffff_f000,
            attr.0 < 0x400,
        ensures
            final(self).wf(),
            final(allocator).wf(),
            final(self).offset() == old(self).offset(),
            r is Ok ==> forall|v: int|
                first_page_address(start) <= v < end && v % 0x1000 == 0 ==> final(self).page_set(
                    v,
                    attr.0,
                ),
            (forall|v: int|
                first_page_address(start) <= v < end && v % 0x1000 == 0 ==> old(self).root()[pde_index(
                    v,
                )] != 0) ==> r is Ok,
            r is Err ==> final(allocator).exhausted(),
    {
        let mut vaddr = start - start % 0x1000;
        let ghost first = vaddr;
        proof {
            let off = self.offset as int;
            assert(off <= first) by (nonlinear_arith)
                requires
                    off <= start,
                    off % 0x1000 == 0,
                    first == start - start % 0x1000,
            ;
            assert(first % 0x1000 == 0) by (nonlinear_arith)
                requires
                    first == start - start % 0x1000,
            ;
        }
        while vaddr < end
            invariant
                self.wf(),
                allocator.wf(),
                forall|i: int|
                    0 <= i < ENTRY_COUNT && old(self).root()[i] != 0 ==> #[trigger] self.root()[i] != 0,
                self.offset == old(self).offset,
                self.offset <= first,
                first == start - start % 0x1000,
                first <= vaddr,
                vaddr % 0x1000 == 0,
                first % 0x1000 == 0,
                end <= 0xffff_f000,
                vaddr <= 0xffff_f000,
                self.offset % 0x1000 == 0,
                attr.0 < 0x400,
                forall|v: int|
                    first <= v < vaddr && v % 0x1000 == 0 ==> #[trigger] self.page_set(v, attr.0),
            decreases 0xffff_f000 - vaddr,
        {
            let pdx = get_pde_index(vaddr);
            let ghost before = *self;
            if self.root.get(pdx).entry == 0 {
                let frame = match allocator.allocate_frame() {
                    Some(f) => f,
                    None => {
                        proof {
                            assert(self.root()[pdx as int] == 0);
                            assert(old(self).root()[pde_index(vaddr as int)] == 0);
                        }
                        return Err(PagingError::OutOfFrames);
                    },
                };
                self.pdes.set(pdx, Some(Frame::of_ppn(frame.number)));
                let pde = ((frame.number as u32) << 10u32) | 1;
                proof {
                    let n = frame.number as u32;
                    assert(n < 0x10_0000);
                    assert(((n << 10u32) | 1u32) != 0) by (bit_vector);
                }
                self.root.set(pdx, crate::new_memory::paging::entry::Entry { entry: pde });
            }
            let pte = get_pte_index(vaddr);
            let value = (((vaddr - self.offset) / 4) as u32) | attr.0;
            let ghost mid = *self;
            assert(mid.root()[pdx as int] != 0);
            self.leaves[pdx].set(pte, crate::new_memory::paging::entry::Entry { entry: value });
            proof {
                assert(self.leaf(pdx as int) == mid.leaf(pdx as int).update(pte as int, value));
                assert(self.root() == mid.root());
                assert forall|i: int|
                    0 <= i < ENTRY_COUNT && old(self).root()[i] != 0 implies #[trigger] self.root()[i]
                    != 0 by {
                    assert(before.root()[i] != 0);
                }
                assert forall|k: int| 0 <= k < 1024 && k != pdx implies #[trigger] self.leaves@[k]
                    == mid.leaves@[k] by {}
                assert(self.offset == before.offset);
                assert forall|v: int| first <= v < vaddr + 0x1000 && v % 0x1000 == 0 implies #[trigger] self.page_set(
                    v,
                    attr.0,
                ) by {
                    if v < vaddr {
                        lemma_distinct_pages(v, vaddr as int);
                        assert(0 <= pde_index(v) < 1024) by (nonlinear_arith)
                            requires
                                0 <= v < 0xffff_f000,
                        ;
                        assert(before.page_set(v, attr.0));
                        assert(mid.leaf(pde_index(v)) == before.leaf(pde_index(v)));
                        assert(mid.root()[pde_index(v)] != 0);
                    } else {
                        assert(v == vaddr);
                    }
                }
            }
            proof {
                assert(vaddr + 0x1000 <= 0xffff_f000) by (nonlinear_arith)
                    requires
                        vaddr < end,
                        end <= 0xffff_f000,
                        vaddr % 0x1000 == 0,
                ;
                assert((vaddr + 0x1000) % 0x1000 == 0) by (nonlinear_arith)
                    requires
                        vaddr % 0x1000 == 0,
                ;
            }
            vaddr = vaddr + 0x1000;
        }
        Ok(())
    }

    /// The `satp` value that installs this table: its root frame's page
    /// number with the translation bit set. The caller writes it and flushes
    /// the TLB.
    pub fn activate(&self) -> (r: usize)
        requires
            self.wf(),
        ensures
            r == self.root_frame().0.0 / 0x1000 + 0x8000_0000,
    {
        self.pgtable_paddr() / 0x1000 + 0x8000_0000
    }
}

/// Two different page addresses have different (root, leaf) index pairs.
proof fn lemma_distinct_pages(v: int, w: int)
    requires
        0 <= v < w,
        v % 0x1000 == 0,
        w % 0x1000 == 0,
    ensures
        pde_index(v) != pde_index(w) || pte_index(v) != pte_index(w),
{
    if pde_index(v) == pde_index(w) && pte_index(v) == pte_index(w) {
        assert(v == pde_index(v) * 0x40_0000 + pte_index(v) * 0x1000) by (nonlinear_arith)
            requires
                v >= 0,
                v % 0x1000 == 0,
        ;
        assert(w == pde_index(w) * 0x40_0000 + pte_index(w) * 0x1000) by (nonlinear_arith)
            requires
                w >= 0,
                w % 0x1000 == 0,
        ;
    }
}

/// Root-table index of `addr`.
fn get_pde_index(addr: usize) -> (r: usize)
    requires
        addr < 0x1_0000_0000,
    ensures
        r == pde_index(addr as int),
        r < 1024,
{
    addr / 0x40_0000
}

/// Leaf-table index of `addr`.
fn get_pte_index(addr: usize) -> (r: usize)
    ensures
        r == pte_index(addr as int),
        r < 1024,
{
    (addr / 0x1000) % 0x400
}

} // verus!
