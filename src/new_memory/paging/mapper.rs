//! Translation and mapping over a root table and its leaf tables.
use vstd::prelude::*;
use crate::new_memory::{Frame, FrameAllocator, FRAME_LIMIT};
use crate::new_memory::paging::{Page, PagingError};
use crate::new_memory::paging::entry::{
    entry_for,
    lemma_entry_for,
    lemma_zero_entry,
    ppn_of,
    valid_bit,
    Entry,
    EntryBits,
};
use crate::new_memory::paging::table::{Level1, Level2, Table, ENTRY_COUNT};

verus! {

pub struct Mapper {
    p2: Table<Level2>,
    /// `p1[i]` is the leaf table that root entry `i` points to.
    p1: Vec<Table<Level1>>,
}

/// Index pairs of a root and a leaf entry.
pub open spec fn in_tables(a: int, b: int) -> bool {
    0 <= a < 1024 && 0 <= b < 1024
}

impl Mapper {
    pub closed spec fn wf(&self) -> bool {
        &&& self.p2.wf()
        &&& self.p1@.len() == ENTRY_COUNT
        &&& forall|i: int| 0 <= i < ENTRY_COUNT ==> (#[trigger] self.p1@[i]).wf()
        &&& forall|i: int| 0 <= i < ENTRY_COUNT ==> ppn_of(#[trigger] self.p2.view()[i]) < FRAME_LIMIT
        &&& forall|i: int, j: int|
            in_tables(i, j) ==> ppn_of(#[trigger] self.p1@[i].view()[j]) < FRAME_LIMIT
    }

    /// The root table's entries.
    pub closed spec fn root(&self) -> Seq<u32> {
        self.p2.view()
    }

    /// The entries of the leaf table under root entry `i`.
    pub closed spec fn leaf(&self, i: int) -> Seq<u32> {
        self.p1@[i].view()
    }

    /// The frame number that root index `a`, leaf index `b` translate to.
    pub open spec fn lookup(&self, a: int, b: int) -> Option<usize> {
        if valid_bit(self.root()[a]) && valid_bit(self.leaf(a)[b]) {
            Some(ppn_of(self.leaf(a)[b]))
        } else {
            None
        }
    }

    /// The frame number `page` translates to.
    pub open spec fn translation(&self, page: Page) -> Option<usize> {
        self.lookup(page.p2(), page.p1())
    }

    /// The physical address `vaddr` translates to: the frame of its page plus
    /// its offset within the page.
    pub open spec fn address_translation(&self, vaddr: usize) -> Option<usize> {
        match self.translation(Page { number: vaddr / 4096 }) {
            Some(n) => Some((n * 4096 + vaddr % 4096) as usize),
            None => None,
        }
    }

    /// Every entry pair other than (`a`, `b`) translates as in `other`.
    pub open spec fn same_except(&self, other: &Mapper, a: int, b: int) -> bool {
        forall|x: int, y: int|
            in_tables(x, y) && (x != a || y != b) ==> #[trigger] self.lookup(x, y) == other.lookup(
                x,
                y,
            )
    }

    /// Root entries valid in `other` stay valid here, and leaf entries under
    /// them are kept, but for entry `b` of the leaf table under root entry
    /// `a`.
    pub open spec fn grows_from(&self, other: &Mapper, a: int, b: int) -> bool {
        &&& forall|k: int|
            0 <= k < 1024 && valid_bit(other.root()[k]) ==> valid_bit(#[trigger] self.root()[k])
        &&& forall|x: int, y: int|
            in_tables(x, y) && (x != a || y != b) && valid_bit(other.root()[x]) ==> #[trigger] self.leaf(
                x,
            )[y] == other.leaf(x)[y]
    }

    /// No entry of the leaf table under root entry `i` is valid but entry `j`.
    pub open spec fn leaf_empty_except(&self, i: int, j: int) -> bool {
        forall|k: int| 0 <= k < 1024 && k != j ==> !valid_bit(#[trigger] self.leaf(i)[k])
    }

    /// The frames named by the root entries lie in the 32-bit physical space.
    pub proof fn lemma_root_frames(&self)
        requires
            self.wf(),
        ensures
            forall|i: int| 0 <= i < 1024 ==> ppn_of(#[trigger] self.root()[i]) < FRAME_LIMIT,
    {
    }

    /// No entry of the leaf table under root entry `i` is valid.
    pub open spec fn leaf_empty(&self, i: int) -> bool {
        forall|j: int| 0 <= j < 1024 ==> !valid_bit(#[trigger] self.leaf(i)[j])
    }

    /// A mapper over an empty root table: nothing is mapped.
    pub fn new() -> (r: Mapper)
        ensures
            r.wf(),
            r.root().len() == 1024,
            forall|a: int, b: int| in_tables(a, b) ==> #[trigger] r.lookup(a, b) is None,
            forall|i: int| 0 <= i < 1024 ==> #[trigger] r.root()[i] == 0,
            forall|i: int, j: int| in_tables(i, j) ==> #[trigger] r.leaf(i)[j] == 0,
    {
        let p2 = Table::<Level2>::new();
        let mut p1: Vec<Table<Level1>> = Vec::new();
        let mut i: usize = 0;
        while i < ENTRY_COUNT
            invariant
                i <= ENTRY_COUNT,
                p1@.len() == i,
                forall|k: int| 0 <= k < i ==> (#[trigger] p1@[k]).wf(),
                forall|k: int, j: int| 0 <= k < i && 0 <= j < 1024 ==> #[trigger] p1@[k].view()[j] == 0,
            decreases ENTRY_COUNT - i,
        {
            p1.push(Table::<Level1>::new());
            i = i + 1;
        }
        proof {
            lemma_zero_entry();
            assert(ppn_of(0) == 0) by (bit_vector);
        }
        Mapper { p2, p1 }
    }

    /// Sets entry `j` of the leaf table under root entry `i`.
    fn set_leaf(&mut self, i: usize, j: usize, e: Entry)
        requires
            old(self).wf(),
            i < 1024,
            j < 1024,
            ppn_of(e.entry) < FRAME_LIMIT,
        ensures
            final(self).wf(),
            final(self).root() == old(self).root(),
            final(self).leaf(i as int) == old(self).leaf(i as int).update(j as int, e.entry),
            forall|k: int| 0 <= k < 1024 && k != i ==> #[trigger] final(self).leaf(k) == old(self).leaf(k),
    {
        self.p1[i].set(j, e);
        proof {
            assert forall|a: int, b: int| in_tables(a, b) implies ppn_of(
                #[trigger] self.p1@[a].view()[b],
            ) < FRAME_LIMIT by {
                if a == i && b != j {
                    assert(self.p1@[a].view()[b] == old(self).p1@[a].view()[b]);
                }
            }
        }
    }

    /// Sets root entry `i`.
    fn set_root(&mut self, i: usize, e: Entry)
        requires
            old(self).wf(),
            i < 1024,
            ppn_of(e.entry) < FRAME_LIMIT,
        ensures
            final(self).wf(),
            final(self).root() == old(self).root().update(i as int, e.entry),
            forall|k: int| 0 <= k < 1024 ==> #[trigger] final(self).leaf(k) == old(self).leaf(k),
    {
        self.p2.set(i, e);
    }

    /// Clears the leaf table under root entry `i`.
    fn clear_leaf_table(&mut self, i: usize)
        requires
            old(self).wf(),
            i < 1024,
        ensures
            final(self).wf(),
            final(self).root() == old(self).root(),
            forall|j: int| 0 <= j < 1024 ==> #[trigger] final(self).leaf(i as int)[j] == 0,
            forall|k: int| 0 <= k < 1024 && k != i ==> #[trigger] final(self).leaf(k) == old(self).leaf(k),
    {
        let ghost before = *self;
        let mut j: usize = 0;
        proof {
            assert(ppn_of(0) == 0) by (bit_vector);
        }
        while j < ENTRY_COUNT
            invariant
                j <= ENTRY_COUNT,
                i < 1024,
                self.wf(),
                self.root() == before.root(),
                forall|m: int| 0 <= m < j ==> #[trigger] self.leaf(i as int)[m] == 0,
                forall|k: int| 0 <= k < 1024 && k != i ==> #[trigger] self.leaf(k) == before.leaf(k),
                ppn_of(0) == 0,
            decreases ENTRY_COUNT - j,
        {
            self.set_leaf(i, j, Entry::zero());
            j = j + 1;
        }
    }

    /// Sets root entry `i` of a table whose leaf table there has no valid
    /// entry, so that no translation changes.
    pub fn set_root_entry(&mut self, i: usize, e: Entry)
        requires
            old(self).wf(),
            i < 1024,
            ppn_of(e.entry) < FRAME_LIMIT,
            forall|j: int| 0 <= j < 1024 ==> !valid_bit(#[trigger] old(self).leaf(i as int)[j]),
        ensures
            final(self).wf(),
            final(self).root().len() == 1024,
            final(self).root() == old(self).root().update(i as int, e.entry),
            forall|k: int| 0 <= k < 1024 ==> #[trigger] final(self).leaf(k) == old(self).leaf(k),
            forall|x: int, y: int| in_tables(x, y) ==> #[trigger] final(self).lookup(x, y) == old(self).lookup(x, y),
    {
        self.set_root(i, e);
    }

    pub fn root_entry(&self, i: usize) -> (r: Entry)
        requires
            self.wf(),
            i < 1024,
        ensures
            r.entry == self.root()[i as int],
    {
        self.p2.get(i)
    }

    pub fn leaf_entry(&self, i: usize, j: usize) -> (r: Entry)
        requires
            self.wf(),
            i < 1024,
            j < 1024,
        ensures
            r.entry == self.leaf(i as int)[j as int],
    {
        self.p1[i].get(j)
    }

    /// Translates a virtual to the corresponding physical address.
    /// Returns `None` if the address is not mapped.
    pub fn translate(&self, virtual_address: usize) -> (r: Option<usize>)
        requires
            self.wf(),
        ensures
            r == self.address_translation(virtual_address),
    {
        let offset = virtual_address % 4096;
        match self.translate_page(Page::containing_address(virtual_address)) {
            Some(frame) => Some(frame.number * 4096 + offset),
            None => None,
        }
    }

    /// The frame `page` is mapped to, if any.
    pub fn translate_page(&self, page: Page) -> (r: Option<Frame>)
        requires
            self.wf(),
        ensures
            r == match self.translation(page) {
                Some(n) => Some(Frame { number: n }),
                None => None,
            },
            r matches Some(f) ==> f.number < FRAME_LIMIT,
    {
        let a = page.p2_index();
        let b = page.p1_index();
        if self.root_entry(a).is_valid() {
            self.leaf_entry(a, b).pointed_frame()
        } else {
            None
        }
    }

    /// Makes root entry `index` point to a leaf table, allocating a zeroed one
    /// if it points to none.
    fn next_table_create<A: FrameAllocator>(&mut self, index: usize, allocator: &mut A) -> (r:
        Result<(), PagingError>)
        requires
            old(self).wf(),
            old(allocator).wf(),
            index < 1024,
        ensures
            final(self).wf(),
            final(allocator).wf(),
            r is Ok ==> valid_bit(final(self).root()[index as int]),
            r is Ok && !valid_bit(old(self).root()[index as int]) ==> forall|j: int|
                0 <= j < 1024 ==> #[trigger] final(self).leaf(index as int)[j] == 0,
            valid_bit(old(self).root()[index as int]) ==> r is Ok && *final(self) == *old(self)
                && *final(allocator) == *old(allocator),
            r is Err ==> *final(self) == *old(self) && old(allocator).allocated(
                final(allocator),
                None,
            ) && final(allocator).exhausted(),
            r is Err ==> forall|f: Frame| old(allocator).accepts(f) ==> #[trigger] final(allocator).accepts(f),
            old(allocator).free_frames() > 0 ==> r is Ok,
            r is Ok && !valid_bit(old(self).root()[index as int]) ==> final(allocator).free_frames() + 1
                == old(allocator).free_frames(),
            r is Ok && !valid_bit(old(self).root()[index as int]) ==> old(allocator).allocated(
                final(allocator),
                Some(Frame { number: ppn_of(final(self).root()[index as int]) }),
            ),
            forall|k: int|
                0 <= k < 1024 && k != index ==> #[trigger] final(self).leaf(k) == old(self).leaf(k)
                    && final(self).root()[k] == old(self).root()[k],
    {
        if self.root_entry(index).is_valid() {
            return Ok(());
        }
        let frame = match allocator.allocate_frame() {
            Some(f) => f,
            None => {
                return Err(PagingError::OutOfFrames);
            },
        };
        let mut e = Entry::zero();
        // Marked as a read/write leaf while the new table is cleared, then as
        // a branch.
        e.set(frame, EntryBits::Valid.val() | EntryBits::ReadWrite.val());
        proof {
            lemma_entry_for(frame.number, 7);
            assert(1u32 | 6u32 == 7u32) by (bit_vector);
        }
        self.set_root(index, e);
        self.clear_leaf_table(index);
        e.set(frame, EntryBits::Valid.val());
        proof {
            lemma_entry_for(frame.number, 1);
            assert(Frame { number: ppn_of(e.entry) } == frame);
            assert(1u32 & 1u32 != 0) by (bit_vector);
        }
        self.set_root(index, e);
        Ok(())
    }

    /// Maps the page to the frame with the provided flags; the Valid flag is
    /// added. Needs a `FrameAllocator` as it might need to create a leaf
    /// table. The page must not be mapped yet.
    pub fn map_to<A: FrameAllocator>(
        &mut self,
        page: Page,
        frame: Frame,
        flags: u32,
        allocator: &mut A,
    ) -> (r: Result<(), PagingError>)
        requires
            old(self).wf(),
            old(allocator).wf(),
            frame.number < FRAME_LIMIT,
            flags < 0x400,
            old(self).translation(page) is None,
        ensures
            final(self).wf(),
            final(allocator).wf(),
            r is Ok ==> final(self).translation(page) == Some(frame.number),
            r is Ok ==> final(self).leaf(page.p2())[page.p1()] == entry_for(frame.number, flags | 1),
            r is Err ==> *final(self) == *old(self) && old(allocator).allocated(
                final(allocator),
                None,
            ),
            valid_bit(old(self).root()[page.p2()]) ==> r is Ok && *final(allocator) == *old(allocator),
            r is Err ==> final(allocator).exhausted(),
            r is Err ==> forall|f: Frame| old(allocator).accepts(f) ==> #[trigger] final(allocator).accepts(f),
            old(allocator).free_frames() > 0 ==> r is Ok,
            (r is Ok && !valid_bit(old(self).root()[page.p2()])) ==> final(allocator).free_frames() + 1
                == old(allocator).free_frames(),
            (r is Ok && !valid_bit(old(self).root()[page.p2()])) ==> final(self).leaf_empty_except(
                page.p2(),
                page.p1(),
            ) && old(allocator).allocated(
                final(allocator),
                Some(Frame { number: ppn_of(final(self).root()[page.p2()]) }),
            ),
            final(self).same_except(old(self), page.p2(), page.p1()),
            final(self).grows_from(old(self), page.p2(), page.p1()),
    {
        let a = page.p2_index();
        let b = page.p1_index();
        let ghost before = *self;
        match self.next_table_create(a, allocator) {
            Ok(()) => {},
            Err(e) => {
                return Err(e);
            },
        }
        proof {
            assert forall|x: int, y: int|
                in_tables(x, y) && (x != a || y != b) implies #[trigger] self.lookup(x, y)
                == before.lookup(x, y) by {
                if x == a {
                    if !valid_bit(before.root()[a as int]) {
                        lemma_zero_entry();
                        assert(self.leaf(x)[y] == 0);
                        assert(!valid_bit(self.leaf(x)[y]));
                        assert(before.lookup(x, y) is None);
                    } else {
                        assert(*self == before);
                    }
                } else {
                    assert(self.leaf(x) == before.leaf(x));
                    assert(self.root()[x] == before.root()[x]);
                }
            }
            if !valid_bit(before.root()[a as int]) {
                lemma_zero_entry();
            }
            assert(!valid_bit(self.leaf(a as int)[b as int]));
        }
        let ghost mid = *self;
        let mut e = Entry::zero();
        let fl = flags | EntryBits::Valid.val();
        e.set(frame, fl);
        proof {
            assert(fl < 0x400 && fl & 1 != 0) by (bit_vector)
                requires
                    fl == flags | 1u32,
                    flags < 0x400,
            ;
            lemma_entry_for(frame.number, fl);
        }
        self.set_leaf(a, b, e);
        proof {
            assert forall|x: int, y: int|
                in_tables(x, y) && (x != a || y != b) implies #[trigger] self.lookup(x, y)
                == before.lookup(x, y) by {
                assert(mid.lookup(x, y) == before.lookup(x, y));
            }
            assert forall|x: int, y: int|
                in_tables(x, y) && (x != a || y != b) && valid_bit(
                    before.root()[x],
                ) implies #[trigger] self.leaf(x)[y] == before.leaf(x)[y] by {
                if x == a {
                    assert(mid == before);
                }
            }
            assert forall|k: int| 0 <= k < 1024 && valid_bit(before.root()[k]) implies valid_bit(
                #[trigger] self.root()[k],
            ) by {
                if k == a {
                    assert(mid == before);
                } else {
                    assert(mid.leaf(k) == before.leaf(k));
                }
            }
        }
        Ok(())
    }

    /// Maps the page to a free frame with the provided flags. The frame is
    /// allocated from the given `FrameAllocator`.
    pub fn map<A: FrameAllocator>(&mut self, page: Page, flags: u32, allocator: &mut A) -> (r:
        Result<Frame, PagingError>)
        requires
            old(self).wf(),
            old(allocator).wf(),
            flags < 0x400,
            old(self).translation(page) is None,
        ensures
            final(self).wf(),
            final(allocator).wf(),
            r matches Ok(f) ==> final(self).translation(page) == Some(f.number),
            r is Err ==> final(self).translation(page) is None,
            r is Err ==> *final(self) == *old(self),
            (valid_bit(old(self).root()[page.p2()]) && !old(allocator).exhausted()) ==> r is Ok,
            final(self).same_except(old(self), page.p2(), page.p1()),
    {
        let frame = match allocator.allocate_frame() {
            Some(f) => f,
            None => {
                return Err(PagingError::OutOfFrames);
            },
        };
        match self.map_to(page, frame, flags, allocator) {
            Ok(()) => Ok(frame),
            Err(e) => {
                // No leaf table could be had: the page's frame goes back.
                allocator.deallocate_frame(frame);
                Err(e)
            },
        }
    }

    /// Maps `frame` to the page with the same number (virtual == physical).
    pub fn identity_map<A: FrameAllocator>(
        &mut self,
        frame: Frame,
        flags: u32,
        allocator: &mut A,
    ) -> (r: Result<(), PagingError>)
        requires
            old(self).wf(),
            old(allocator).wf(),
            frame.number < FRAME_LIMIT,
            flags < 0x400,
            old(self).translation(Page { number: frame.number }) is None,
        ensures
            final(self).wf(),
            final(allocator).wf(),
            r is Ok ==> final(self).translation(Page { number: frame.number }) == Some(frame.number),
            r is Ok ==> final(self).leaf(Page { number: frame.number }.p2())[Page {
                number: frame.number,
            }.p1()] == entry_for(frame.number, flags | 1),
            r is Err ==> *final(self) == *old(self) && old(allocator).allocated(
                final(allocator),
                None,
            ),
            valid_bit(old(self).root()[Page { number: frame.number }.p2()]) ==> r is Ok
                && *final(allocator) == *old(allocator),
            r is Err ==> final(allocator).exhausted(),
            old(allocator).free_frames() > 0 ==> r is Ok,
            (r is Ok && !valid_bit(old(self).root()[Page { number: frame.number }.p2()])) ==> final(allocator).free_frames() + 1 == old(allocator).free_frames(),
            final(self).grows_from(
                old(self),
                Page { number: frame.number }.p2(),
                Page { number: frame.number }.p1(),
            ),
            final(self).same_except(
                old(self),
                Page { number: frame.number }.p2(),
                Page { number: frame.number }.p1(),
            ),
    {
        let page = Page::containing_address(frame.start_address());
        assert(page.number == frame.number) by (nonlinear_arith)
            requires
                page.number == (frame.number * 4096) / 4096,
        ;
        self.map_to(page, frame, flags, allocator)
    }

    /// Maps `frame` to the page at its address plus `offset` (a multiple of the
    /// page size).
    pub fn linear_map<A: FrameAllocator>(
        &mut self,
        frame: Frame,
        offset: u32,
        flags: u32,
        allocator: &mut A,
    ) -> (r: Result<(), PagingError>)
        requires
            old(self).wf(),
            old(allocator).wf(),
            frame.number < FRAME_LIMIT,
            offset % 4096 == 0,
            frame.number * 4096 + offset <= usize::MAX,
            flags < 0x400,
            old(self).translation(Page { number: (frame.number + offset / 4096) as usize }) is None,
        ensures
            final(self).wf(),
            final(allocator).wf(),
            r is Ok ==> final(self).translation(
                Page { number: (frame.number + offset / 4096) as usize },
            ) == Some(frame.number),
            r is Ok ==> final(self).leaf(
                Page { number: (frame.number + offset / 4096) as usize }.p2(),
            )[Page { number: (frame.number + offset / 4096) as usize }.p1()] == entry_for(
                frame.number,
                flags | 1,
            ),
            r is Err ==> *final(self) == *old(self) && old(allocator).allocated(
                final(allocator),
                None,
            ),
            valid_bit(
                old(self).root()[Page { number: (frame.number + offset / 4096) as usize }.p2()],
            ) ==> r is Ok && *final(allocator) == *old(allocator),
            r is Err ==> final(allocator).exhausted(),
            old(allocator).free_frames() > 0 ==> r is Ok,
            (r is Ok && !valid_bit(
                old(self).root()[Page { number: (frame.number + offset / 4096) as usize }.p2()],
            )) ==> final(allocator).free_frames() + 1 == old(allocator).free_frames(),
            final(self).grows_from(
                old(self),
                Page { number: (frame.number + offset / 4096) as usize }.p2(),
                Page { number: (frame.number + offset / 4096) as usize }.p1(),
            ),
            final(self).same_except(
                old(self),
                Page { number: (frame.number + offset / 4096) as usize }.p2(),
                Page { number: (frame.number + offset / 4096) as usize }.p1(),
            ),
    {
        let page = Page::containing_address(frame.start_address() + offset as usize);
        assert(page.number == frame.number + offset / 4096) by (nonlinear_arith)
            requires
                page.number == (frame.number * 4096 + offset) / 4096,
                offset % 4096 == 0,
        ;
        self.map_to(page, frame, flags, allocator)
    }

    /// Whether some entry of the leaf table under root entry `i` is valid.
    fn leaf_table_in_use(&self, i: usize) -> (r: bool)
        requires
            self.wf(),
            i < 1024,
        ensures
            r == exists|j: int| 0 <= j < 1024 && valid_bit(#[trigger] self.leaf(i as int)[j]),
    {
        let mut j: usize = 0;
        while j < ENTRY_COUNT
            invariant
                j <= ENTRY_COUNT,
                i < 1024,
                self.wf(),
                forall|m: int| 0 <= m < j ==> !valid_bit(#[trigger] self.leaf(i as int)[m]),
            decreases ENTRY_COUNT - j,
        {
            if self.leaf_entry(i, j).is_valid() {
                return true;
            }
            j = j + 1;
        }
        false
    }

    /// Unmaps the given page. If that leaves its leaf table with no valid
    /// entry, the leaf table's frame goes back to the allocator (when it takes
    /// it) and the root entry is cleared. The page must be mapped.
    pub fn unmap<A: FrameAllocator>(&mut self, page: Page, allocator: &mut A)
        requires
            old(self).wf(),
            old(allocator).wf(),
            old(self).translation(page) is Some,
            old(self).leaf_empty_except(page.p2(), page.p1()) ==> old(allocator).accepts(
                Frame { number: ppn_of(old(self).root()[page.p2()]) },
            ),
        ensures
            final(self).wf(),
            final(allocator).wf(),
            final(self).translation(page) is None,
            final(self).same_except(old(self), page.p2(), page.p1()),
            final(self).leaf(page.p2())[page.p1()] == 0,
            forall|x: int, y: int|
                in_tables(x, y) && (x != page.p2() || y != page.p1()) ==> #[trigger] final(self).leaf(
                    x,
                )[y] == old(self).leaf(x)[y],
            forall|k: int|
                0 <= k < 1024 && k != page.p2() ==> #[trigger] final(self).root()[k] == old(
                    self,
                ).root()[k],
            final(self).leaf_empty(page.p2()) ==> final(self).root()[page.p2()] == 0,
            !final(self).leaf_empty(page.p2()) ==> final(self).root()[page.p2()] == old(
                self,
            ).root()[page.p2()] && *final(allocator) == *old(allocator),
            final(self).leaf_empty(page.p2()) <==> old(self).leaf_empty_except(page.p2(), page.p1()),
            final(self).leaf_empty(page.p2()) ==> old(allocator).deallocated(
                final(allocator),
                Frame { number: ppn_of(old(self).root()[page.p2()]) },
            ),
    {
        let a = page.p2_index();
        let b = page.p1_index();
        let ghost before = *self;
        proof {
            assert(ppn_of(0) == 0) by (bit_vector);
        }
        self.set_leaf(a, b, Entry::zero());
        proof {
            lemma_zero_entry();
            assert forall|x: int, y: int|
                in_tables(x, y) && (x != a || y != b) implies #[trigger] self.lookup(x, y)
                == before.lookup(x, y) by {
                if x == a {
                    assert(self.leaf(x)[y] == before.leaf(x)[y]);
                }
            }
        }
        if !self.leaf_table_in_use(a) {
            let ghost mid = *self;
            proof {
                assert forall|k: int| 0 <= k < 1024 && k != b implies !valid_bit(
                    #[trigger] before.leaf(a as int)[k],
                ) by {
                    assert(mid.leaf(a as int)[k] == before.leaf(a as int)[k]);
                }
            }
            match self.root_entry(a).pointed_frame() {
                Some(table_frame) => {
                    allocator.deallocate_frame(table_frame);
                },
                None => {},
            }
            self.set_root(a, Entry::zero());
            proof {
                assert forall|x: int, y: int|
                    in_tables(x, y) && (x != a || y != b) implies #[trigger] self.lookup(x, y)
                    == before.lookup(x, y) by {
                    if x == a {
                        assert(!valid_bit(mid.leaf(x)[y]));
                    }
                    assert(mid.lookup(x, y) == before.lookup(x, y));
                }
            }
        }
    }
}

/// Mapping, translating and unmapping agree. `fresh` is a new mapper,
/// `mapped` a mapper where `map_to(page, frame, ..)` succeeded, `unmapped` one
/// where `unmap(page, ..)` ran. On `fresh` no address of `page` translates;
/// on `mapped` each translates to the frame's address plus its offset in the
/// page; on `unmapped` none translates again.
pub proof fn lemma_map_translate_round_trip(
    fresh: Mapper,
    mapped: Mapper,
    unmapped: Mapper,
    page: Page,
    frame: Frame,
    vaddr: usize,
)
    requires
        forall|a: int, b: int| in_tables(a, b) ==> #[trigger] fresh.lookup(a, b) is None,
        mapped.translation(page) == Some(frame.number),
        unmapped.translation(page) is None,
        vaddr / 4096 == page.number,
        frame.number < FRAME_LIMIT,
    ensures
        fresh.address_translation(vaddr) is None,
        mapped.address_translation(vaddr) == Some((frame.number * 4096 + vaddr % 4096) as usize),
        unmapped.address_translation(vaddr) is None,
{
    assert(in_tables(page.p2(), page.p1()));
    assert(Page { number: vaddr / 4096 } == page);
}

} // verus!
