//! A scratch page through which a frame (typically a page table not yet in
//! use) is mapped for a moment, with a one-frame allocator of its own for the
//! leaf table that mapping may need.
use vstd::prelude::*;
use crate::new_memory::{Frame, FrameAllocator, FRAME_LIMIT};
use crate::new_memory::paging::{ActivePageTable, Page, PagingError};
use crate::new_memory::paging::entry::{valid_bit, EntryBits};
use crate::new_memory::paging::mapper::Mapper;

verus! {

pub struct TemporaryPage {
    page: Page,
    allocator: TinyAllocator,
}

impl TemporaryPage {
    pub closed spec fn page(&self) -> Page {
        self.page
    }

    /// The frame held for a leaf table the mapping may need.
    pub closed spec fn reserve(&self) -> Option<Frame> {
        self.allocator.frame
    }

    /// Mapping the page in `m` cannot fail: a frame is held for its leaf
    /// table, or the leaf table is there already.
    pub open spec fn can_map(&self, m: &Mapper) -> bool {
        self.reserve() is Some || valid_bit(m.root()[self.page().p2()])
    }

    pub closed spec fn wf(&self) -> bool {
        &&& self.allocator.wf()
        &&& self.page.number < 0x10_0000
    }

    /// A temporary page at `page`, whose allocator takes one frame from
    /// `allocator`.
    pub fn new<A: FrameAllocator>(page: Page, allocator: &mut A) -> (r: TemporaryPage)
        requires
            old(allocator).wf(),
            page.number < 0x10_0000,
        ensures
            final(allocator).wf(),
            r.wf(),
            r.page() == page,
            old(allocator).allocated(final(allocator), r.reserve()),
            r.reserve() is None ==> final(allocator).exhausted(),
            old(allocator).free_frames() > 0 ==> r.reserve() is Some && final(allocator).free_frames()
                + 1 == old(allocator).free_frames(),
    {
        TemporaryPage { page, allocator: TinyAllocator::new(allocator) }
    }

    /// Maps the temporary page to `frame` in the active table and returns its
    /// start address. The temporary page must not be mapped already.
    pub fn map(&mut self, frame: Frame, active_table: &mut ActivePageTable) -> (r: Result<
        usize,
        PagingError,
    >)
        requires
            old(self).wf(),
            old(active_table).mapper.wf(),
            frame.number < FRAME_LIMIT,
            old(active_table).mapper.translation(old(self).page()) is None,
        ensures
            final(self).wf(),
            final(self).page() == old(self).page(),
            final(active_table).mapper.wf(),
            final(active_table).p2_frame == old(active_table).p2_frame,
            r matches Ok(a) ==> a == old(self).page().number * 4096
                && final(active_table).mapper.translation(old(self).page()) == Some(frame.number),
            r is Err ==> final(active_table).mapper.translation(old(self).page()) is None,
            old(self).can_map(&old(active_table).mapper) ==> r is Ok,
            r is Err ==> final(self).reserve() is None && *final(active_table) == *old(active_table),
            valid_bit(old(active_table).mapper.root()[old(self).page().p2()]) ==> final(self).reserve()
                == old(self).reserve(),
            (r is Ok && !valid_bit(old(active_table).mapper.root()[old(self).page().p2()])) ==> old(self).reserve() is Some,
            (r is Ok && !valid_bit(old(active_table).mapper.root()[old(self).page().p2()])) ==> final(self).reserve() is None,
            (r is Ok && !valid_bit(old(active_table).mapper.root()[old(self).page().p2()])) ==> final(active_table).mapper.leaf_empty_except(old(self).page().p2(), old(self).page().p1()),
            final(active_table).mapper.same_except(
                &old(active_table).mapper,
                old(self).page().p2(),
                old(self).page().p1(),
            ),
    {
        match active_table.mapper.map_to(
            self.page,
            frame,
            EntryBits::ReadWrite.val(),
            &mut self.allocator,
        ) {
            Ok(()) => Ok(self.page.start_address()),
            Err(e) => Err(e),
        }
    }

    /// Unmaps the temporary page in the active table.
    pub fn unmap(&mut self, active_table: &mut ActivePageTable)
        requires
            old(self).wf(),
            old(active_table).mapper.wf(),
            old(active_table).mapper.translation(old(self).page()) is Some,
            old(active_table).mapper.leaf_empty_except(old(self).page().p2(), old(self).page().p1())
                ==> old(self).reserve() is None,
        ensures
            final(self).wf(),
            final(self).page() == old(self).page(),
            final(active_table).mapper.wf(),
            final(active_table).p2_frame == old(active_table).p2_frame,
            final(active_table).mapper.translation(old(self).page()) is None,
            old(active_table).mapper.leaf_empty_except(old(self).page().p2(), old(self).page().p1())
                ==> final(self).reserve() is Some && !valid_bit(
                final(active_table).mapper.root()[old(self).page().p2()],
            ),
            !old(active_table).mapper.leaf_empty_except(old(self).page().p2(), old(self).page().p1())
                ==> final(self).reserve() == old(self).reserve(),
            final(active_table).mapper.same_except(
                &old(active_table).mapper,
                old(self).page().p2(),
                old(self).page().p1(),
            ),
    {
        proof {
            active_table.mapper.lemma_root_frames();
            crate::new_memory::paging::entry::lemma_zero_entry();
        }
        active_table.mapper.unmap(self.page, &mut self.allocator);
        proof {
            if !old(active_table).mapper.leaf_empty_except(self.page.p2(), self.page.p1()) {
                assert(!active_table.mapper.leaf_empty(self.page.p2()));
            }
        }
    }

    pub fn p2_index(&self) -> (r: usize)
        ensures
            r == self.page().p2(),
    {
        self.page.p2_index()
    }

    pub fn p1_index(&self) -> (r: usize)
        ensures
            r == self.page().p1(),
    {
        self.page.p1_index()
    }
}

/// Holds at most one frame.
struct TinyAllocator {
    frame: Option<Frame>,
}

impl TinyAllocator {
    fn new<A: FrameAllocator>(allocator: &mut A) -> (r: TinyAllocator)
        requires
            old(allocator).wf(),
        ensures
            final(allocator).wf(),
            r.wf(),
            old(allocator).allocated(final(allocator), r.frame),
            r.frame is None ==> final(allocator).exhausted(),
            old(allocator).free_frames() > 0 ==> r.frame is Some && final(allocator).free_frames() + 1
                == old(allocator).free_frames(),
    {
        TinyAllocator { frame: allocator.allocate_frame() }
    }
}

impl FrameAllocator for TinyAllocator {
    closed spec fn wf(&self) -> bool {
        self.frame matches Some(f) ==> f.number < FRAME_LIMIT
    }

    closed spec fn accepts(&self, frame: Frame) -> bool {
        self.frame is None && frame.number < FRAME_LIMIT
    }

    closed spec fn allocated(&self, after: &Self, r: Option<Frame>) -> bool {
        r == self.frame && after.frame is None
    }

    closed spec fn exhausted(&self) -> bool {
        self.frame is None
    }

    closed spec fn free_frames(&self) -> nat {
        if self.frame is Some {
            1
        } else {
            0
        }
    }

    closed spec fn deallocated(&self, after: &Self, frame: Frame) -> bool {
        after.frame == Some(frame)
    }

    fn allocate_frame(&mut self) -> (r: Option<Frame>) {
        self.frame.take()
    }

    fn accepts_frame(&self, frame: Frame) -> (r: bool) {
        self.frame.is_none() && frame.number < FRAME_LIMIT
    }

    fn deallocate_frame(&mut self, frame: Frame) {
        self.frame = Some(frame);
    }
}

} // verus!
