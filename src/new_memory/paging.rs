//! Two-level Sv32 paging: pages, the mapper over a root table and its leaf
//! tables, and the active and inactive page tables.
//!
//! The tables are held by value: the root table, and for each root entry the
//! leaf table it points to. The frame recorded in a root entry is the frame
//! that leaf table occupies; it comes from, and goes back to, the frame
//! allocator given to each operation.
pub mod entry;
pub mod mapper;
pub mod table;
pub mod temporary_page;


use vstd::prelude::*;
use crate::new_memory::{Frame, FrameAllocator, FRAME_LIMIT};
use entry::{entry_for, lemma_entry_for, valid_bit, Entry, EntryBits};
use mapper::{in_tables, Mapper};
use temporary_page::TemporaryPage;

verus! {

/// A virtual page, by its number (virtual address / 4096).
#[derive(Copy, Clone, Debug, PartialEq, Eq, Structural, PartialOrd, Ord)]
pub struct Page {
    pub number: usize,
}

impl Page {
    pub open spec fn p2(self) -> int {
        (self.number as int / 1024) % 1024
    }

    pub open spec fn p1(self) -> int {
        self.number as int % 1024
    }

    pub fn containing_address(address: usize) -> (r: Page)
        ensures
            r.number == address / 4096,
    {
        Page { number: address / 4096 }
    }

    pub fn start_address(&self) -> (r: usize)
        requires
            self.number < 0x10_0000,
        ensures
            r == self.number * 4096,
    {
        self.number * 4096
    }

    /// Index of the page's entry in the root table.
    pub fn p2_index(&self) -> (r: usize)
        ensures
            r == self.p2(),
    {
        (self.number / 1024) % 1024
    }

    /// Index of the page's entry in its leaf table.
    pub fn p1_index(&self) -> (r: usize)
        ensures
            r == self.p1(),
    {
        self.number % 1024
    }

    /// The pages from `start` to `end`, both included.
    pub fn range_inclusive(start: Page, end: Page) -> (r: PageIter)
        requires
            end.number < usize::MAX,
        ensures
            r.wf(),
            r.next_number() == start.number,
            r.last_number() == end.number,
    {
        PageIter { start, end }
    }
}

/// The pages of an inclusive range not yet handed out.
pub struct PageIter {
    start: Page,
    end: Page,
}

impl PageIter {
    pub closed spec fn wf(&self) -> bool {
        self.end.number < usize::MAX
    }

    pub closed spec fn next_number(&self) -> nat {
        self.start.number as nat
    }

    pub closed spec fn last_number(&self) -> nat {
        self.end.number as nat
    }

    /// The next page of the range, if any is left.
    pub fn next(&mut self) -> (r: Option<Page>)
        requires
            old(self).wf(),
        ensures
            final(self).wf(),
            final(self).last_number() == old(self).last_number(),
            old(self).next_number() <= old(self).last_number() ==> r == Some(
                Page { number: old(self).next_number() as usize },
            ) && final(self).next_number() == old(self).next_number() + 1,
            old(self).next_number() > old(self).last_number() ==> r is None
                && final(self).next_number() == old(self).next_number(),
    {
        if self.start.number <= self.end.number {
            let page = self.start;
            self.start.number = self.start.number + 1;
            Some(page)
        } else {
            None
        }
    }
}

/// Why a paging operation could not be carried out.
#[derive(Copy, Clone, Debug, PartialEq, Eq, Structural)]
pub enum PagingError {
    /// The frame allocator had no frame for a new table or page.
    OutOfFrames,
}

/// A change to a page table's mappings, made by `ActivePageTable::with` on
/// a table that is not active.
pub trait TableEdit {
    /// The edit may start on `m`.
    spec fn ready(&self, m: &Mapper) -> bool;

    /// What the edit achieved, from `before` to `after`.
    spec fn done(&self, before: &Mapper, after: &Mapper) -> bool;

    /// The most frames the edit takes from the allocator, starting on `m`.
    spec fn frames_needed(&self, m: &Mapper) -> nat;

    fn apply<A: FrameAllocator>(&self, mapper: &mut Mapper, allocator: &mut A) -> (r: Result<
        (),
        PagingError,
    >)
        requires
            old(mapper).wf(),
            old(allocator).wf(),
            self.ready(old(mapper)),
        ensures
            final(mapper).wf(),
            final(allocator).wf(),
            r is Ok ==> self.done(old(mapper), final(mapper)),
            old(allocator).free_frames() >= self.frames_needed(old(mapper)) ==> r is Ok,
            r is Err ==> final(allocator).exhausted(),
    ;
}

/// The page table the hardware walks: its tables and the frame of its root
/// table (what `satp` holds).
pub struct ActivePageTable {
    pub mapper: Mapper,
    pub p2_frame: Frame,
}

impl ActivePageTable {
    /// A table with root frame `p2_frame` and nothing mapped.
    pub fn new(p2_frame: Frame) -> (r: ActivePageTable)
        ensures
            r.mapper.wf(),
            r.p2_frame == p2_frame,
            forall|a: int, b: int| in_tables(a, b) ==> #[trigger] r.mapper.lookup(a, b) is None,
    {
        ActivePageTable { mapper: Mapper::new(), p2_frame }
    }

    /// Runs `edit` on the inactive `table`. The active table's own root frame
    /// is first reached through the temporary page, as it would be to redirect
    /// the table window; the temporary page is unmapped again afterwards, so
    /// what the active table translates is unchanged.
    pub fn with<E: TableEdit, A: FrameAllocator>(
        &mut self,
        table: &mut InactivePageTable,
        temporary_page: &mut TemporaryPage,
        edit: &E,
        allocator: &mut A,
    ) -> (r: Result<(), PagingError>)
        requires
            old(self).mapper.wf(),
            old(self).p2_frame.number < FRAME_LIMIT,
            old(table).mapper.wf(),
            old(temporary_page).wf(),
            old(allocator).wf(),
            !valid_bit(old(self).mapper.root()[old(temporary_page).page().p2()]),
            edit.ready(&old(table).mapper),
        ensures
            !valid_bit(final(self).mapper.root()[old(temporary_page).page().p2()]),
            final(temporary_page).reserve() is Some <==> old(temporary_page).reserve() is Some,
            (r is Err && old(temporary_page).reserve() is Some) ==> final(allocator).exhausted(),
            final(self).mapper.wf(),
            final(self).p2_frame == old(self).p2_frame,
            final(table).mapper.wf(),
            final(table).p2_frame == old(table).p2_frame,
            final(temporary_page).wf(),
            final(temporary_page).page() == old(temporary_page).page(),
            final(allocator).wf(),
            forall|a: int, b: int|
                in_tables(a, b) ==> #[trigger] final(self).mapper.lookup(a, b) == old(
                    self,
                ).mapper.lookup(a, b),
            r is Ok ==> edit.done(&old(table).mapper, &final(table).mapper),
            (old(temporary_page).reserve() is Some && old(allocator).free_frames()
                >= edit.frames_needed(&old(table).mapper)) ==> r is Ok,
    {
        let ghost start = self.mapper;
        let ghost tp = temporary_page.page();
        let backup = self.p2_frame;
        let mapped = temporary_page.map(backup, self);
        let r = match mapped {
            Ok(_) => {
                let r = edit.apply(&mut table.mapper, allocator);
                temporary_page.unmap(self);
                r
            },
            Err(e) => Err(e),
        };
        proof {
            assert forall|a: int, b: int| in_tables(a, b) implies #[trigger] self.mapper.lookup(a, b)
                == start.lookup(a, b) by {
                if a != tp.p2() || b != tp.p1() {
                }
            }
        }
        r
    }

    /// Makes `new_table` the active table; returns the table that was active.
    /// The caller installs the new root frame in `satp` and flushes the TLB.
    pub fn switch(&mut self, new_table: InactivePageTable) -> (r: InactivePageTable)
        ensures
            final(self).mapper == new_table.mapper,
            final(self).p2_frame == new_table.p2_frame,
            r.mapper == old(self).mapper,
            r.p2_frame == old(self).p2_frame,
    {
        let InactivePageTable { p2_frame, mapper } = new_table;
        let old_frame = self.p2_frame;
        let mut old_mapper = mapper;
        std::mem::swap(&mut self.mapper, &mut old_mapper);
        self.p2_frame = p2_frame;
        InactivePageTable { p2_frame: old_frame, mapper: old_mapper }
    }
}

/// A page table built but not installed.
pub struct InactivePageTable {
    pub p2_frame: Frame,
    pub mapper: Mapper,
}

impl InactivePageTable {
    /// A fresh table in `frame`: the frame is reached through the temporary
    /// page of the active table, cleared, and given its two self-referencing
    /// root entries (the second to last as a read/write leaf, the last as a
    /// branch), then the temporary page is unmapped again. What the active
    /// table translates is unchanged.
    pub fn new(
        frame: Frame,
        active_table: &mut ActivePageTable,
        temporary_page: &mut TemporaryPage,
    ) -> (r: Result<InactivePageTable, PagingError>)
        requires
            old(active_table).mapper.wf(),
            old(temporary_page).wf(),
            frame.number < FRAME_LIMIT,
            !valid_bit(old(active_table).mapper.root()[old(temporary_page).page().p2()]),
        ensures
            !valid_bit(final(active_table).mapper.root()[old(temporary_page).page().p2()]),
            final(temporary_page).reserve() is Some <==> old(temporary_page).reserve() is Some,
            final(active_table).mapper.wf(),
            final(active_table).p2_frame == old(active_table).p2_frame,
            final(temporary_page).wf(),
            final(temporary_page).page() == old(temporary_page).page(),
            forall|a: int, b: int|
                in_tables(a, b) ==> #[trigger] final(active_table).mapper.lookup(a, b) == old(
                    active_table,
                ).mapper.lookup(a, b),
            old(temporary_page).can_map(&old(active_table).mapper) ==> r is Ok,
            r matches Ok(t) ==> {
                &&& t.p2_frame == frame
                &&& t.mapper.wf()
                &&& forall|a: int, b: int| in_tables(a, b) ==> #[trigger] t.mapper.lookup(a, b) is None
                &&& t.mapper.root()[1022] == entry_for(frame.number, 7)
                &&& t.mapper.root()[1023] == entry_for(frame.number, 1)
            },
    {
        let ghost start = active_table.mapper;
        let ghost tp = temporary_page.page();
        match temporary_page.map(frame, active_table) {
            Ok(_) => {},
            Err(e) => {
                proof {
                    assert forall|a: int, b: int| in_tables(a, b) implies #[trigger] active_table.mapper.lookup(
                        a,
                        b,
                    ) == start.lookup(a, b) by {
                        if a != tp.p2() || b != tp.p1() {
                        }
                    }
                }
                return Err(e);
            },
        }
        // The frame is now reachable; its contents become an empty table.
        let mut mapper = Mapper::new();
        let mut e = Entry::zero();
        e.set(frame, EntryBits::Valid.val() | EntryBits::ReadWrite.val());
        proof {
            assert(1u32 | 6u32 == 7u32) by (bit_vector);
            lemma_entry_for(frame.number, 7);
            lemma_entry_for(frame.number, 1);
            entry::lemma_zero_entry();
            assert(e.entry == entry_for(frame.number, 7));
        }
        mapper.set_root_entry(1022, e);
        let ghost r1 = mapper.root();
        assert(r1[1022] == entry_for(frame.number, 7));
        e.set(frame, EntryBits::Valid.val());
        mapper.set_root_entry(1023, e);
        assert(mapper.root() == r1.update(1023, e.entry));
        assert(r1.len() == 1024);
        assert(mapper.root()[1022] == r1[1022]);
        temporary_page.unmap(active_table);
        proof {
            assert forall|a: int, b: int| in_tables(a, b) implies #[trigger] active_table.mapper.lookup(
                a,
                b,
            ) == start.lookup(a, b) by {
                if a != tp.p2() || b != tp.p1() {
                }
            }
        }
        Ok(InactivePageTable { p2_frame: frame, mapper })
    }
}

} // verus!
