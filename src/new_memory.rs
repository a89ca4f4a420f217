//! Physical memory: frames, the buddy allocator behind them, and paging.
pub mod buddy_allocator;
pub mod frame_allocator;
pub mod paging;

use vstd::prelude::*;
use crate::consts;
use buddy_allocator::BuddyAllocator;
use paging::{ActivePageTable, InactivePageTable, Page, PagingError, TableEdit};
use paging::entry::{entry_for, valid_bit, EntryBits};
use paging::mapper::{in_tables, Mapper};
use paging::table::TABLE_WINDOW;
use paging::temporary_page::TemporaryPage;

verus! {

pub const PAGE_ORDER: usize = 12;

pub const PAGE_SIZE: usize = 4096;

/// Frames beyond this lie outside the 32-bit physical address space.
pub const FRAME_LIMIT: usize = 0x10_0000;

/// A physical frame, by its number (physical address / 4096).
#[derive(Copy, Clone, Debug, PartialEq, Eq, Structural, PartialOrd, Ord)]
pub struct Frame {
    pub number: usize,
}

impl Frame {
    pub fn containing_address(addr: usize) -> (r: Frame)
        ensures
            r.number == addr / 4096,
    {
        Frame { number: addr / PAGE_SIZE }
    }

    pub fn start_address(&self) -> (r: usize)
        requires
            self.number < FRAME_LIMIT,
        ensures
            r == self.number * 4096,
    {
        self.number * PAGE_SIZE
    }

    /// Index of the frame's root-table entry, were it mapped to itself.
    pub fn p2_index(&self) -> (r: usize)
        ensures
            r == (self.number / 1024) % 1024,
    {
        (self.number / 1024) % 1024
    }

    /// Index of the frame's leaf-table entry, were it mapped to itself.
    pub fn p1_index(&self) -> (r: usize)
        ensures
            r == self.number % 1024,
    {
        self.number % 1024
    }

    /// The frames from `start` to `end`, both included.
    pub fn range_inclusive(start: Frame, end: Frame) -> (r: FrameIter)
        requires
            end.number < usize::MAX,
        ensures
            r.wf(),
            r.next_number() == start.number,
            r.last_number() == end.number,
    {
        FrameIter { start, end }
    }
}

/// The frames of an inclusive range not yet handed out.
pub struct FrameIter {
    start: Frame,
    end: Frame,
}

impl FrameIter {
    pub closed spec fn wf(&self) -> bool {
        self.end.number < usize::MAX
    }

    pub closed spec fn next_number(&self) -> nat {
        self.start.number as nat
    }

    pub closed spec fn last_number(&self) -> nat {
        self.end.number as nat
    }

    /// The next frame of the range, if any is left.
    pub fn next(&mut self) -> (r: Option<Frame>)
        requires
            old(self).wf(),
        ensures
            final(self).wf(),
            final(self).last_number() == old(self).last_number(),
            old(self).next_number() <= old(self).last_number() ==> r == Some(
                Frame { number: old(self).next_number() as usize },
            ) && final(self).next_number() == old(self).next_number() + 1,
            old(self).next_number() > old(self).last_number() ==> r is None
                && final(self).next_number() == old(self).next_number(),
    {
        if self.start.number <= self.end.number {
            let frame = self.start;
            self.start.number = self.start.number + 1;
            Some(frame)
        } else {
            None
        }
    }
}

/// A source of physical frames for page tables.
pub trait FrameAllocator {
    spec fn wf(&self) -> bool;

    /// Whether `deallocate_frame` may take `frame` back.
    spec fn accepts(&self, frame: Frame) -> bool;

    /// `allocate_frame` took this allocator to `after` and returned `r`.
    spec fn allocated(&self, after: &Self, r: Option<Frame>) -> bool;

    /// No frame is left to hand out.
    spec fn exhausted(&self) -> bool;

    /// How many frames are left to hand out.
    spec fn free_frames(&self) -> nat;

    /// `deallocate_frame(frame)` took this allocator to `after`: the frame is
    /// its own again.
    spec fn deallocated(&self, after: &Self, frame: Frame) -> bool;

    fn allocate_frame(&mut self) -> (r: Option<Frame>)
        requires
            old(self).wf(),
        ensures
            final(self).wf(),
            r matches Some(f) ==> f.number < FRAME_LIMIT && final(self).accepts(f),
            old(self).allocated(final(self), r),
            r is None <==> old(self).exhausted(),
            r is None ==> final(self).exhausted(),
            r is None ==> forall|f: Frame| old(self).accepts(f) ==> #[trigger] final(self).accepts(f),
            r is None <==> old(self).free_frames() == 0,
            r is Some ==> final(self).free_frames() + 1 == old(self).free_frames(),
    ;

    fn accepts_frame(&self, frame: Frame) -> (r: bool)
        requires
            self.wf(),
        ensures
            r == self.accepts(frame),
    ;

    fn deallocate_frame(&mut self, frame: Frame)
        requires
            old(self).wf(),
            old(self).accepts(frame),
        ensures
            final(self).wf(),
            old(self).deallocated(final(self), frame),
    ;
}

/// The frame allocator over physical RAM, backed by the buddy allocator.
pub struct AreaFrameAllocator {
    pub buddy: BuddyAllocator,
}

impl AreaFrameAllocator {
    /// An allocator with no memory yet; `frame_allocator::init` gives it RAM.
    pub fn new() -> (r: AreaFrameAllocator)
        ensures
            r.wf(),
    {
        AreaFrameAllocator { buddy: BuddyAllocator::new() }
    }

    pub open spec fn wf(&self) -> bool {
        frame_allocator::buddy_wf(&self.buddy)
    }
}

impl FrameAllocator for AreaFrameAllocator {
    open spec fn wf(&self) -> bool {
        frame_allocator::buddy_wf(&self.buddy)
    }

    open spec fn accepts(&self, frame: Frame) -> bool {
        frame_allocator::managed(&self.buddy, frame)
    }

    open spec fn allocated(&self, after: &Self, r: Option<Frame>) -> bool {
        buddy_allocator::allocation(
            self.buddy.used(),
            after.buddy.used(),
            1,
            frame_allocator::index_of(r),
        )
    }

    open spec fn deallocated(&self, after: &Self, frame: Frame) -> bool {
        after.buddy.used() == buddy_allocator::mark(
            self.buddy.used(),
            frame_allocator::block_index(frame),
            1,
            false,
        )
    }

    open spec fn exhausted(&self) -> bool {
        forall|u: int| 0 <= u < self.buddy.used().len() ==> #[trigger] self.buddy.used()[u]
    }

    open spec fn free_frames(&self) -> nat {
        buddy_allocator::count_free(self.buddy.used())
    }

    fn allocate_frame(&mut self) -> (r: Option<Frame>) {
        let ghost before = self.buddy.used();
        let r = frame_allocator::alloc_frame(&mut self.buddy);
        proof {
            vstd::arithmetic::power2::lemma2_to64();
            assert(buddy_allocator::is_block_size(1, 1));
            match frame_allocator::index_of(r) {
                Some(i) => {
                    let p = choose|p: nat|
                        #![trigger buddy_allocator::is_block_size(p, 1)]
                        {
                            &&& buddy_allocator::is_block_size(p, 1)
                            &&& (i as int) % (p as int) == 0
                            &&& buddy_allocator::block_free(before, i as int, p as int)
                            &&& self.buddy.used() == buddy_allocator::mark(before, i as int, p as int, true)
                            &&& forall|b: int|
                                0 <= b < i && b % (p as int) == 0 ==> !buddy_allocator::block_free(
                                    before,
                                    b,
                                    p as int,
                                )
                        };
                    assert(!before[i as int]);
                    assert(p == 1);
                    buddy_allocator::lemma_count_free_take(before, i as int);
                    buddy_allocator::lemma_count_free_zero(before);
                },
                None => {
                    assert forall|u: int| 0 <= u < before.len() implies #[trigger] before[u] by {
                        assert(!buddy_allocator::block_free(before, u, 1));
                    }
                    buddy_allocator::lemma_count_free_zero(before);
                },
            }
        }
        r
    }

    fn accepts_frame(&self, frame: Frame) -> (r: bool) {
        frame_allocator::is_managed(&self.buddy, frame)
    }

    fn deallocate_frame(&mut self, frame: Frame) {
        frame_allocator::dealloc_frame(&mut self.buddy, frame)
    }
}

/// Distance, in pages, between a kernel frame and the page it is mapped at.
pub const KERNEL_PAGE_DELTA: usize = 0x4_0000;

/// The page used to reach page-table frames while building a table.
pub const TEMPORARY_PAGE: usize = 0x2_0000;

/// Where the linker placed the kernel's sections: virtual addresses in the
/// high half, each section from its start up to (not including) its end.
#[derive(Copy, Clone, Debug)]
pub struct KernelLayout {
    pub stext: usize,
    pub etext: usize,
    pub srodata: usize,
    pub erodata: usize,
    pub sdata: usize,
    pub edata: usize,
    pub sbss: usize,
    pub ebss: usize,
    pub bootstack: usize,
    pub bootstacktop: usize,
}

/// A section lies in the kernel's high-half window onto RAM.
pub open spec fn section_ok(s: usize, e: usize) -> bool {
    consts::KERNEL_OFFSET <= s < e <= consts::KERNEL_OFFSET + (consts::MEMORY_END
        - consts::MEMORY_OFFSET)
}

pub open spec fn first_page(s: usize) -> int {
    s as int / 4096
}

pub open spec fn last_page(e: usize) -> int {
    (e as int - 1) / 4096
}

/// Two sections share no page.
pub open spec fn apart(s1: usize, e1: usize, s2: usize, e2: usize) -> bool {
    last_page(e1) < first_page(s2) || last_page(e2) < first_page(s1)
}

impl KernelLayout {
    pub open spec fn sections(&self) -> Seq<(usize, usize)> {
        seq![
            (self.stext, self.etext),
            (self.srodata, self.erodata),
            (self.sdata, self.edata),
            (self.sbss, self.ebss),
            (self.bootstack, self.bootstacktop),
        ]
    }

    /// Every section is in the high half, and no two share a page.
    pub open spec fn wf(&self) -> bool {
        &&& forall|i: int| 0 <= i < 5 ==> section_ok(#[trigger] self.sections()[i].0, self.sections()[i].1)
        &&& forall|i: int, j: int|
            0 <= i < 5 && 0 <= j < 5 && i != j ==> apart(
                #[trigger] self.sections()[i].0,
                self.sections()[i].1,
                #[trigger] self.sections()[j].0,
                self.sections()[j].1,
            )
    }
}

/// Whether a section lies in the high-half window onto RAM.
fn section_in_window(s: usize, e: usize) -> (r: bool)
    ensures
        r == section_ok(s, e),
{
    consts::KERNEL_OFFSET <= s && s < e && e <= consts::KERNEL_OFFSET + (consts::MEMORY_END
        - consts::MEMORY_OFFSET)
}

/// Whether two sections share no page; both must be non-empty.
fn sections_apart(s1: usize, e1: usize, s2: usize, e2: usize) -> (r: bool)
    requires
        s1 < e1,
        s2 < e2,
    ensures
        r == apart(s1, e1, s2, e2),
{
    (e1 - 1) / 4096 < s2 / 4096 || (e2 - 1) / 4096 < s1 / 4096
}

impl KernelLayout {
    /// Whether `remap_kernel` may run on this layout: every section in the
    /// high half, no two sharing a page.
    pub fn is_valid(&self) -> (r: bool)
        ensures
            r == self.wf(),
    {
        let secs = self.sections_array();
        let mut i: usize = 0;
        while i < 5
            invariant
                i <= 5,
                secs@ == self.sections(),
                forall|k: int| 0 <= k < i ==> section_ok(#[trigger] self.sections()[k].0, self.sections()[k].1),
            decreases 5 - i,
        {
            if !section_in_window(secs[i].0, secs[i].1) {
                return false;
            }
            i = i + 1;
        }
        let mut a: usize = 0;
        while a < 5
            invariant
                a <= 5,
                secs@ == self.sections(),
                forall|k: int| 0 <= k < 5 ==> section_ok(#[trigger] self.sections()[k].0, self.sections()[k].1),
                forall|x: int, y: int|
                    0 <= x < a && 0 <= y < 5 && x != y ==> apart(
                        #[trigger] self.sections()[x].0,
                        self.sections()[x].1,
                        #[trigger] self.sections()[y].0,
                        self.sections()[y].1,
                    ),
            decreases 5 - a,
        {
            let mut b: usize = 0;
            while b < 5
                invariant
                    a < 5,
                    b <= 5,
                    secs@ == self.sections(),
                    forall|k: int| 0 <= k < 5 ==> section_ok(#[trigger] self.sections()[k].0, self.sections()[k].1),
                    forall|x: int, y: int|
                        0 <= x < a && 0 <= y < 5 && x != y ==> apart(
                            #[trigger] self.sections()[x].0,
                            self.sections()[x].1,
                            #[trigger] self.sections()[y].0,
                            self.sections()[y].1,
                        ),
                    forall|y: int|
                        0 <= y < b && a != y ==> apart(
                            self.sections()[a as int].0,
                            self.sections()[a as int].1,
                            #[trigger] self.sections()[y].0,
                            self.sections()[y].1,
                        ),
                decreases 5 - b,
            {
                if a != b {
                    proof {
                        assert(section_ok(self.sections()[a as int].0, self.sections()[a as int].1));
                        assert(section_ok(self.sections()[b as int].0, self.sections()[b as int].1));
                    }
                    if !sections_apart(secs[a].0, secs[a].1, secs[b].0, secs[b].1) {
                        return false;
                    }
                }
                b = b + 1;
            }
            a = a + 1;
        }
        true
    }

    fn sections_array(&self) -> (r: [(usize, usize); 5])
        ensures
            r@ == self.sections(),
    {
        let r = [
            (self.stext, self.etext),
            (self.srodata, self.erodata),
            (self.sdata, self.edata),
            (self.sbss, self.ebss),
            (self.bootstack, self.bootstacktop),
        ];
        assert(r@ =~= self.sections());
        r
    }
}

/// The translation of page number `n`.
pub open spec fn page_lookup(m: &Mapper, n: int) -> Option<usize> {
    m.lookup((n / 1024) % 1024, n % 1024)
}

/// Every page of the section is mapped to the frame `KERNEL_PAGE_DELTA` below.
pub open spec fn section_mapped(m: &Mapper, s: usize, e: usize) -> bool {
    forall|n: int|
        first_page(s) <= n <= last_page(e) ==> #[trigger] page_lookup(m, n) == Some(
            (n - KERNEL_PAGE_DELTA) as usize,
        )
}

/// No page of the section is mapped.
pub open spec fn section_unmapped(m: &Mapper, s: usize, e: usize) -> bool {
    forall|n: int| first_page(s) <= n <= last_page(e) ==> #[trigger] page_lookup(m, n) is None
}

/// The flags of section `i` of `KernelLayout::sections`: text read/execute,
/// rodata read-only, the rest read/write.
pub open spec fn section_flags(i: int) -> u32 {
    if i == 0 {
        0xa
    } else if i == 1 {
        0x2
    } else {
        0x6
    }
}

/// A section keeps its leaf entries where leaf entries under valid root
/// entries outside `lo..=hi` are kept, when the two share no page.
proof fn lemma_entries_kept(
    m1: &Mapper,
    m2: &Mapper,
    lo: int,
    hi: int,
    s: usize,
    e: usize,
    flags: u32,
)
    requires
        kept_outside(m1, m2, lo, hi),
        section_ok(s, e),
        last_page(e) < lo || hi < first_page(s),
        section_mapped(m1, s, e),
        section_entries(m1, s, e, flags),
    ensures
        section_entries(m2, s, e, flags),
{
    assert forall|n: int| first_page(s) <= n <= last_page(e) implies #[trigger] m2.leaf(
        (n / 1024) % 1024,
    )[n % 1024] == entry_for((n - KERNEL_PAGE_DELTA) as usize, flags | 1) by {
        lemma_page_index(n);
        assert(page_lookup(m1, n) is Some);
        assert(m1.leaf((n / 1024) % 1024)[n % 1024] == entry_for(
            (n - KERNEL_PAGE_DELTA) as usize,
            flags | 1,
        ));
    }
}

/// How many root entries in `lo..hi` are not valid.
pub open spec fn invalid_roots(m: &Mapper, lo: int, hi: int) -> nat
    decreases hi - lo,
{
    if hi <= lo {
        0
    } else {
        invalid_roots(m, lo, hi - 1) + if valid_bit(m.root()[hi - 1]) {
            0nat
        } else {
            1nat
        }
    }
}

/// At most one per entry.
proof fn lemma_invalid_roots_bound(m: &Mapper, lo: int, hi: int)
    ensures
        invalid_roots(m, lo, hi) <= if hi <= lo {
            0
        } else {
            hi - lo
        },
    decreases hi - lo,
{
    if hi > lo {
        lemma_invalid_roots_bound(m, lo, hi - 1);
    }
}

/// Fewer invalid root entries once more are valid; one fewer at least when
/// entry `a` of the range became valid.
proof fn lemma_invalid_roots_shrink(m1: &Mapper, m2: &Mapper, lo: int, hi: int, a: int)
    requires
        forall|k: int| lo <= k < hi && valid_bit(m1.root()[k]) ==> valid_bit(#[trigger] m2.root()[k]),
    ensures
        invalid_roots(m2, lo, hi) <= invalid_roots(m1, lo, hi),
        (lo <= a < hi && !valid_bit(m1.root()[a]) && valid_bit(m2.root()[a])) ==> invalid_roots(
            m2,
            lo,
            hi,
        ) + 1 <= invalid_roots(m1, lo, hi),
        (lo <= a < hi && !valid_bit(m1.root()[a])) ==> invalid_roots(m1, lo, hi) >= 1,
    decreases hi - lo,
{
    if hi > lo {
        lemma_invalid_roots_shrink(m1, m2, lo, hi - 1, a);
    }
}

/// Root entries that the kernel's high half can use: pages 0xC0000..0xC8000.
pub open spec fn kernel_roots(m: &Mapper) -> nat {
    invalid_roots(m, 768, 800)
}

/// Of the pages below `2^20`, only the UART's page and those of the first
/// `k` sections of `layout` are mapped.
pub open spec fn mapped_only(m: &Mapper, layout: &KernelLayout, k: int) -> bool {
    forall|n: int|
        0 <= n < 0x10_0000 && (#[trigger] page_lookup(m, n)) is Some ==> n == UART_PAGE || exists|
            i: int,
        |
            0 <= i < k && first_page(#[trigger] layout.sections()[i].0) <= n <= last_page(
                layout.sections()[i].1,
            )
}

/// Every page of the section has the leaf entry for its frame with `flags`
/// (and Valid).
pub open spec fn section_entries(m: &Mapper, s: usize, e: usize, flags: u32) -> bool {
    forall|n: int|
        first_page(s) <= n <= last_page(e) ==> #[trigger] m.leaf((n / 1024) % 1024)[n % 1024]
            == entry_for((n - KERNEL_PAGE_DELTA) as usize, flags | 1)
}

/// Every page of the section lies under a valid root entry.
pub open spec fn section_roots_valid(m: &Mapper, s: usize, e: usize) -> bool {
    forall|n: int|
        first_page(s) <= n <= last_page(e) ==> valid_bit(#[trigger] m.root()[(n / 1024) % 1024])
}

/// Root entries valid in `m1` are valid in `m2`, and leaf entries under them
/// outside `lo..=hi` are kept.
pub open spec fn kept_outside(m1: &Mapper, m2: &Mapper, lo: int, hi: int) -> bool {
    &&& forall|k: int| 0 <= k < 1024 && valid_bit(m1.root()[k]) ==> valid_bit(#[trigger] m2.root()[k])
    &&& forall|x: int, y: int|
        in_tables(x, y) && !(lo <= x * 1024 + y <= hi) && valid_bit(m1.root()[x]) ==> #[trigger] m2.leaf(
            x,
        )[y] == m1.leaf(x)[y]
}

/// Pages outside `lo..=hi` translate in `m2` as in `m1`.
pub open spec fn same_outside(m1: &Mapper, m2: &Mapper, lo: int, hi: int) -> bool {
    forall|x: int, y: int|
        in_tables(x, y) && !(lo <= x * 1024 + y <= hi) ==> #[trigger] m2.lookup(x, y) == m1.lookup(x, y)
}

proof fn lemma_page_index(n: int)
    requires
        0 <= n < 0x10_0000,
    ensures
        in_tables((n / 1024) % 1024, n % 1024),
        ((n / 1024) % 1024) * 1024 + n % 1024 == n,
        (n / 1024) % 1024 == n / 1024,
{
    assert(n / 1024 < 1024);
    assert((n / 1024) * 1024 + n % 1024 == n) by (nonlinear_arith);
}

/// A page outside `lo..=hi` translates the same in two mappers that agree
/// there.
proof fn lemma_same_outside_page(m1: &Mapper, m2: &Mapper, lo: int, hi: int, n: int)
    requires
        same_outside(m1, m2, lo, hi),
        0 <= n < 0x10_0000,
        !(lo <= n <= hi),
    ensures
        page_lookup(m2, n) == page_lookup(m1, n),
{
    lemma_page_index(n);
    let x = (n / 1024) % 1024;
    let y = n % 1024;
    assert(m2.lookup(x, y) == m1.lookup(x, y));
}

/// Agreement outside `lo..=hi` keeps a section mapped (or unmapped) when the
/// section shares no page with that range.
proof fn lemma_section_kept(m1: &Mapper, m2: &Mapper, lo: int, hi: int, s: usize, e: usize)
    requires
        same_outside(m1, m2, lo, hi),
        section_ok(s, e),
        last_page(e) < lo || hi < first_page(s),
    ensures
        section_mapped(m1, s, e) ==> section_mapped(m2, s, e),
        section_unmapped(m1, s, e) ==> section_unmapped(m2, s, e),
{
    assert forall|n: int| first_page(s) <= n <= last_page(e) implies #[trigger] page_lookup(m2, n)
        == page_lookup(m1, n) by {
        lemma_same_outside_page(m1, m2, lo, hi, n);
    }
}

/// Maps every page of the section `s..e` to the frame `KERNEL_PAGE_DELTA`
/// pages below it, with `flags`.
pub fn map_section<A: FrameAllocator>(
    mapper: &mut Mapper,
    s: usize,
    e: usize,
    flags: u32,
    allocator: &mut A,
) -> (r: Result<(), PagingError>)
    requires
        old(mapper).wf(),
        old(allocator).wf(),
        section_ok(s, e),
        flags < 0x400,
        section_unmapped(old(mapper), s, e),
    ensures
        final(mapper).wf(),
        final(allocator).wf(),
        r is Ok ==> section_mapped(final(mapper), s, e),
        r is Ok ==> section_entries(final(mapper), s, e, flags),
        section_roots_valid(old(mapper), s, e) ==> r is Ok,
        r is Err ==> final(allocator).exhausted(),
        old(allocator).free_frames() >= kernel_roots(old(mapper)) ==> r is Ok,
        old(allocator).free_frames() >= kernel_roots(old(mapper)) ==> final(allocator).free_frames() >= kernel_roots(final(mapper)),
        same_outside(old(mapper), final(mapper), first_page(s), last_page(e)),
        kept_outside(old(mapper), final(mapper), first_page(s), last_page(e)),
{
    let offset = consts::KERNEL_OFFSET - consts::MEMORY_OFFSET;
    let start = Frame::containing_address(s - offset);
    let end = Frame::containing_address(e - offset - 1);
    proof {
        assert(start.number == first_page(s) - KERNEL_PAGE_DELTA);
        assert(end.number == last_page(e) - KERNEL_PAGE_DELTA);
    }
    let ghost m0 = *mapper;
    let mut frames = Frame::range_inclusive(start, end);
    loop
        invariant
            mapper.wf(),
            allocator.wf(),
            frames.wf(),
            section_ok(s, e),
            flags < 0x400,
            offset == 0x4000_0000,
            frames.last_number() == end.number,
            end.number == last_page(e) - KERNEL_PAGE_DELTA,
            start.number == first_page(s) - KERNEL_PAGE_DELTA,
            start.number <= frames.next_number() <= end.number + 1,
            forall|n: int|
                first_page(s) <= n < frames.next_number() + KERNEL_PAGE_DELTA ==> #[trigger] page_lookup(
                    mapper,
                    n,
                ) == Some((n - KERNEL_PAGE_DELTA) as usize),
            forall|n: int|
                frames.next_number() + KERNEL_PAGE_DELTA <= n <= last_page(e) ==> #[trigger] page_lookup(
                    mapper,
                    n,
                ) is None,
            same_outside(&m0, mapper, first_page(s), last_page(e)),
            kept_outside(&m0, mapper, first_page(s), last_page(e)),
            forall|k: int| 0 <= k < 1024 && valid_bit(m0.root()[k]) ==> valid_bit(#[trigger] mapper.root()[k]),
            forall|n: int|
                first_page(s) <= n < frames.next_number() + KERNEL_PAGE_DELTA ==> #[trigger] mapper.leaf(
                    (n / 1024) % 1024,
                )[n % 1024] == entry_for((n - KERNEL_PAGE_DELTA) as usize, flags | 1),
            m0 == *old(mapper),
            old(allocator).free_frames() >= kernel_roots(&m0) ==> allocator.free_frames()
                >= kernel_roots(mapper),
        decreases end.number + 1 - frames.next_number(),
    {
        let ghost before = *mapper;
        let ghost free_before = allocator.free_frames();
        let ghost cur = frames.next_number();
        match frames.next() {
            Some(frame) => {
                let ghost n = frame.number + KERNEL_PAGE_DELTA;
                proof {
                    lemma_page_index(n);
                    assert(page_lookup(mapper, n) is None);
                }
                let res = mapper.linear_map(frame, offset as u32, flags, allocator);
                proof {
                    assert(offset as u32 / 4096 == KERNEL_PAGE_DELTA);
                    let pg = Page { number: (frame.number + KERNEL_PAGE_DELTA) as usize };
                    assert(pg.p2() == (n / 1024) % 1024 && pg.p1() == n % 1024);
                    assert forall|m: int| 0 <= m < 0x10_0000 && m != n implies #[trigger] page_lookup(
                        mapper,
                        m,
                    ) == page_lookup(&before, m) by {
                        lemma_page_index(m);
                        lemma_page_index(n);
                    }
                    assert forall|x: int, y: int|
                        in_tables(x, y) && !(first_page(s) <= x * 1024 + y <= last_page(e)) implies #[trigger] mapper.lookup(
                        x,
                        y,
                    ) == m0.lookup(x, y) by {
                        lemma_page_index(n);
                        assert(x != (n / 1024) % 1024 || y != n % 1024);
                        assert(before.lookup(x, y) == m0.lookup(x, y));
                    }
                    assert forall|x: int, y: int|
                        in_tables(x, y) && !(first_page(s) <= x * 1024 + y <= last_page(e)) && valid_bit(
                            m0.root()[x],
                        ) implies #[trigger] mapper.leaf(x)[y] == m0.leaf(x)[y] by {
                        lemma_page_index(n);
                        assert(x != (n / 1024) % 1024 || y != n % 1024);
                        assert(before.leaf(x)[y] == m0.leaf(x)[y]);
                    }
                    assert forall|k: int| 0 <= k < 1024 && valid_bit(m0.root()[k]) implies valid_bit(
                        #[trigger] mapper.root()[k],
                    ) by {
                        assert(valid_bit(before.root()[k]));
                    }
                    if res is Ok {
                        assert forall|m: int|
                            first_page(s) <= m < cur + 1 + KERNEL_PAGE_DELTA implies #[trigger] mapper.leaf(
                                (m / 1024) % 1024,
                            )[m % 1024] == entry_for((m - KERNEL_PAGE_DELTA) as usize, flags | 1) by {
                            lemma_page_index(m);
                            lemma_page_index(n);
                            if m != n {
                                assert(page_lookup(&before, m) is Some);
                                assert(before.leaf((m / 1024) % 1024)[m % 1024] == entry_for(
                                    (m - KERNEL_PAGE_DELTA) as usize,
                                    flags | 1,
                                ));
                            }
                        }
                    } else {
                        assert(!valid_bit(before.root()[(n / 1024) % 1024]));
                        assert(!valid_bit(m0.root()[(n / 1024) % 1024]));
                        assert(!section_roots_valid(&m0, s, e));
                    }
                    let a = (n / 1024) % 1024;
                    assert(768 <= a < 800);
                    assert forall|k: int| 768 <= k < 800 && valid_bit(before.root()[k]) implies valid_bit(
                        #[trigger] mapper.root()[k],
                    ) by {}
                    lemma_invalid_roots_shrink(&before, mapper, 768, 800, a);
                    if old(allocator).free_frames() >= kernel_roots(&m0) {
                        if !valid_bit(before.root()[a]) {
                            assert(free_before >= 1);
                            assert(res is Ok);
                            assert(page_lookup(mapper, n) is Some);
                        }
                    }
                }
                match res {
                    Ok(()) => {},
                    Err(err) => {
                        return Err(err);
                    },
                }
            },
            None => {
                proof {
                    assert forall|n: int| first_page(s) <= n <= last_page(e) implies #[trigger] page_lookup(
                        mapper,
                        n,
                    ) == Some((n - KERNEL_PAGE_DELTA) as usize) by {}
                }
                return Ok(());
            },
        }
    }
}

/// The kernel's own mappings: the UART's page to itself and every section
/// to the frames it was loaded at.
#[derive(Copy, Clone, Debug)]
pub struct KernelRemap {
    pub layout: KernelLayout,
}

impl TableEdit for KernelRemap {
    open spec fn ready(&self, m: &Mapper) -> bool {
        &&& self.layout.wf()
        &&& forall|a: int, b: int| in_tables(a, b) ==> #[trigger] m.lookup(a, b) is None
        &&& page_lookup(m, UART_PAGE as int) is None
        &&& forall|i: int|
            0 <= i < 5 ==> section_unmapped(
                m,
                #[trigger] self.layout.sections()[i].0,
                self.layout.sections()[i].1,
            )
    }

    open spec fn done(&self, before: &Mapper, after: &Mapper) -> bool {
        &&& mapped_only(after, &self.layout, 5)
        &&& page_lookup(after, UART_PAGE as int) == Some(UART_PAGE)
        &&& forall|i: int|
            0 <= i < 5 ==> section_mapped(
                after,
                #[trigger] self.layout.sections()[i].0,
                self.layout.sections()[i].1,
            )
        &&& forall|i: int|
            0 <= i < 5 ==> section_entries(
                after,
                #[trigger] self.layout.sections()[i].0,
                self.layout.sections()[i].1,
                section_flags(i),
            )
    }

    /// A leaf table for the UART's root entry and for each root entry of the
    /// high half, where none is there yet.
    open spec fn frames_needed(&self, m: &Mapper) -> nat {
        invalid_roots(m, 64, 65) + kernel_roots(m)
    }

    fn apply<A: FrameAllocator>(&self, mapper: &mut Mapper, allocator: &mut A) -> (r: Result<
        (),
        PagingError,
    >) {
        let ghost m0 = *mapper;
        let ghost free0 = allocator.free_frames();
        let ghost enough = free0 >= self.frames_needed(&m0);
        // The UART keeps working once this table is active.
        let uart_frame = Frame::containing_address(consts::UART_BASE);
        proof {
            lemma_page_index(UART_PAGE as int);
            lemma_invalid_roots_shrink(&m0, &m0, 64, 65, 64);
        }
        match mapper.identity_map(uart_frame, EntryBits::ReadWrite.val(), allocator) {
            Ok(()) => {},
            Err(e) => {
                proof {
                    lemma_page_index(UART_PAGE as int);
                }
                return Err(e);
            },
        }
        let ghost m1 = *mapper;
        proof {
            assert forall|k: int| 768 <= k < 800 && valid_bit(m0.root()[k]) implies valid_bit(
                #[trigger] m1.root()[k],
            ) by {}
            lemma_invalid_roots_shrink(&m0, &m1, 768, 800, 0);
        }
        proof {
            assert(same_outside(&m0, &m1, UART_PAGE as int, UART_PAGE as int)) by {
                assert forall|x: int, y: int|
                    in_tables(x, y) && !(UART_PAGE as int <= x * 1024 + y <= UART_PAGE as int) implies #[trigger] m1.lookup(
                    x,
                    y,
                ) == m0.lookup(x, y) by {
                    assert(x != 64 || y != 0);
                }
            }
            assert forall|n: int| 0 <= n < 0x10_0000 && (#[trigger] page_lookup(&m1, n)) is Some implies n
                == UART_PAGE by {
                lemma_page_index(n);
                if n != UART_PAGE {
                    assert(m1.lookup((n / 1024) % 1024, n % 1024) == m0.lookup(
                        (n / 1024) % 1024,
                        n % 1024,
                    ));
                }
            }
            assert forall|i: int| 0 <= i < 5 implies section_unmapped(
                &m1,
                #[trigger] self.layout.sections()[i].0,
                self.layout.sections()[i].1,
            ) by {
                lemma_section_kept(&m0, &m1, UART_PAGE as int, UART_PAGE as int, self.layout.sections()[i].0, self.layout.sections()[i].1);
            }
        }
        let mut k: usize = 0;
        while k < 5
            invariant
                0 <= k <= 5,
                self.layout.wf(),
                mapper.wf(),
                allocator.wf(),
                page_lookup(mapper, UART_PAGE as int) == Some(UART_PAGE),
                forall|i: int| 0 <= i < k ==> section_mapped(
                    mapper,
                    #[trigger] self.layout.sections()[i].0,
                    self.layout.sections()[i].1,
                ),
                forall|i: int| k <= i < 5 ==> section_unmapped(
                    mapper,
                    #[trigger] self.layout.sections()[i].0,
                    self.layout.sections()[i].1,
                ),
                forall|i: int| 0 <= i < k ==> section_entries(
                    mapper,
                    #[trigger] self.layout.sections()[i].0,
                    self.layout.sections()[i].1,
                    section_flags(i),
                ),
                forall|j: int|
                    0 <= j < 1024 && valid_bit(m0.root()[j]) ==> valid_bit(#[trigger] mapper.root()[j]),
                mapped_only(mapper, &self.layout, k as int),
                enough == (old(allocator).free_frames() >= self.frames_needed(&m0)),
                enough ==> allocator.free_frames() >= kernel_roots(mapper),
                m0 == *old(mapper),
                m0.wf(),
            decreases 5 - k,
        {
            let (s, e, flags) = if k == 0 {
                (self.layout.stext, self.layout.etext, EntryBits::ReadExecute.val())
            } else if k == 1 {
                (self.layout.srodata, self.layout.erodata, EntryBits::Read.val())
            } else if k == 2 {
                (self.layout.sdata, self.layout.edata, EntryBits::ReadWrite.val())
            } else if k == 3 {
                (self.layout.sbss, self.layout.ebss, EntryBits::ReadWrite.val())
            } else {
                (self.layout.bootstack, self.layout.bootstacktop, EntryBits::ReadWrite.val())
            };
            assert(s == self.layout.sections()[k as int].0 && e == self.layout.sections()[k as int].1);
            assert(flags == section_flags(k as int));
            let ghost before = *mapper;
            match map_section(mapper, s, e, flags, allocator) {
                Ok(()) => {},
                Err(err) => {
                    return Err(err);
                },
            }
            proof {
                assert(section_ok(s, e));
                lemma_same_outside_page(&before, mapper, first_page(s), last_page(e), UART_PAGE as int);
                assert forall|i: int| 0 <= i < 5 && i != k implies {
                    &&& section_mapped(&before, #[trigger] self.layout.sections()[i].0, self.layout.sections()[i].1)
                        ==> section_mapped(mapper, self.layout.sections()[i].0, self.layout.sections()[i].1)
                    &&& section_unmapped(&before, self.layout.sections()[i].0, self.layout.sections()[i].1)
                        ==> section_unmapped(mapper, self.layout.sections()[i].0, self.layout.sections()[i].1)
                } by {
                    assert(apart(self.layout.sections()[i].0, self.layout.sections()[i].1, self.layout.sections()[k as int].0, self.layout.sections()[k as int].1));
                    assert(section_ok(self.layout.sections()[i].0, self.layout.sections()[i].1));
                    lemma_section_kept(&before, mapper, first_page(s), last_page(e), self.layout.sections()[i].0, self.layout.sections()[i].1);
                }
                assert forall|i: int| 0 <= i < k implies section_entries(
                    mapper,
                    #[trigger] self.layout.sections()[i].0,
                    self.layout.sections()[i].1,
                    section_flags(i),
                ) by {
                    assert(apart(self.layout.sections()[i].0, self.layout.sections()[i].1, self.layout.sections()[k as int].0, self.layout.sections()[k as int].1));
                    assert(section_ok(self.layout.sections()[i].0, self.layout.sections()[i].1));
                    lemma_entries_kept(&before, mapper, first_page(s), last_page(e), self.layout.sections()[i].0, self.layout.sections()[i].1, section_flags(i));
                }
                assert forall|j: int|
                    0 <= j < 1024 && valid_bit(m0.root()[j]) implies valid_bit(#[trigger] mapper.root()[j]) by {
                    assert(valid_bit(before.root()[j]));
                }
                assert forall|n: int|
                    0 <= n < 0x10_0000 && (#[trigger] page_lookup(mapper, n)) is Some implies n
                    == UART_PAGE || exists|i: int|
                    0 <= i < k + 1 && first_page(#[trigger] self.layout.sections()[i].0) <= n
                        <= last_page(self.layout.sections()[i].1) by {
                    if first_page(s) <= n <= last_page(e) {
                        assert(0 <= k < k + 1 && first_page(self.layout.sections()[k as int].0) <= n
                            <= last_page(self.layout.sections()[k as int].1));
                    } else {
                        lemma_same_outside_page(&before, mapper, first_page(s), last_page(e), n);
                        assert(page_lookup(&before, n) is Some);
                    }
                }
            }
            k = k + 1;
        }
        Ok(())
    }
}

/// Builds the kernel's own page table and makes it `active_table`: the UART's
/// page is mapped to itself, each kernel section to the frames it was loaded
/// at (text read/execute, rodata read-only, data, bss and boot stack
/// read/write); the page of the previous root frame stays unmapped, so a
/// stray access through it faults. The tables are values: the
/// caller stores their entries into their frames, installs the new root frame
/// in `satp` and flushes the TLB. On failure the active table is unchanged.
pub fn remap_kernel<A: FrameAllocator>(
    allocator: &mut A,
    active_table: &mut ActivePageTable,
    layout: &KernelLayout,
) -> (r: Result<(), PagingError>)
    requires
        old(allocator).wf(),
        old(active_table).mapper.wf(),
        layout.wf(),
        FIRST_RAM_FRAME <= old(active_table).p2_frame.number < LAST_RAM_FRAME,
        !valid_bit(old(active_table).mapper.root()[Page { number: TEMPORARY_PAGE }.p2()]),
    ensures
        final(allocator).wf(),
        final(active_table).mapper.wf(),
        r is Err ==> final(allocator).exhausted(),
        old(allocator).free_frames() >= REMAP_FRAMES ==> r is Ok,
        r is Ok ==> {
            &&& forall|i: int|
                0 <= i < 5 ==> section_mapped(
                    &final(active_table).mapper,
                    #[trigger] layout.sections()[i].0,
                    layout.sections()[i].1,
                )
            &&& page_lookup(&final(active_table).mapper, UART_PAGE as int) == Some(UART_PAGE)
            &&& page_lookup(&final(active_table).mapper, old(active_table).p2_frame.number as int) is None
            &&& forall|i: int|
                0 <= i < 5 ==> section_entries(
                    &final(active_table).mapper,
                    #[trigger] layout.sections()[i].0,
                    layout.sections()[i].1,
                    section_flags(i),
                )
        },
        r is Err ==> {
            &&& final(active_table).p2_frame == old(active_table).p2_frame
            &&& forall|a: int, b: int|
                in_tables(a, b) ==> #[trigger] final(active_table).mapper.lookup(a, b) == old(
                    active_table,
                ).mapper.lookup(a, b)
        },
{
    let mut temporary_page = TemporaryPage::new(Page { number: TEMPORARY_PAGE }, allocator);
    let frame = match allocator.allocate_frame() {
        Some(f) => f,
        None => {
            return Err(PagingError::OutOfFrames);
        },
    };
    let mut new_table = match InactivePageTable::new(frame, active_table, &mut temporary_page) {
        Ok(t) => t,
        Err(e) => {
            return Err(e);
        },
    };
    let edit = KernelRemap { layout: *layout };
    proof {
        let m = new_table.mapper;
        assert forall|i: int| 0 <= i < 5 implies section_unmapped(
            &m,
            #[trigger] layout.sections()[i].0,
            layout.sections()[i].1,
        ) by {
            assert forall|n: int|
                first_page(layout.sections()[i].0) <= n <= last_page(
                    layout.sections()[i].1,
                ) implies #[trigger] page_lookup(&m, n) is None by {
                lemma_page_index(n);
            }
        }
        lemma_page_index(UART_PAGE as int);
    }
    proof {
        lemma_invalid_roots_bound(&new_table.mapper, 64, 65);
        lemma_invalid_roots_bound(&new_table.mapper, 768, 800);
    }
    match active_table.with(&mut new_table, &mut temporary_page, &edit, allocator) {
        Ok(()) => {},
        Err(e) => {
            return Err(e);
        },
    }
    let old_table = active_table.switch(new_table);
    // The old root table's page is a guard page: the new table maps no page
    // of RAM at its own address.
    let ghost old_p2_page = Page { number: old_table.p2_frame.number };
    proof {
        lemma_page_index(old_p2_page.number as int);
    }
    let ghost m2 = active_table.mapper;
    proof {
        assert forall|i: int| 0 <= i < 5 implies section_entries(
            &m2,
            #[trigger] layout.sections()[i].0,
            layout.sections()[i].1,
            section_flags(i),
        ) by {
            assert(edit.layout.sections()[i].0 == layout.sections()[i].0);
        }
        assert forall|i: int| 0 <= i < 5 implies section_mapped(
            &m2,
            #[trigger] layout.sections()[i].0,
            layout.sections()[i].1,
        ) by {
            assert(edit.layout.sections()[i].0 == layout.sections()[i].0);
        }
        assert(page_lookup(&m2, UART_PAGE as int) == Some(UART_PAGE));
        assert(FIRST_RAM_FRAME <= old_p2_page.number < LAST_RAM_FRAME);
        let n = old_p2_page.number as int;
        assert(mapped_only(&m2, &edit.layout, 5));
        if page_lookup(&m2, n) is Some {
            let i = choose|i: int|
                0 <= i < 5 && first_page(#[trigger] edit.layout.sections()[i].0) <= n <= last_page(
                    edit.layout.sections()[i].1,
                );
            assert(section_ok(layout.sections()[i].0, layout.sections()[i].1));
        }
        assert(m2.translation(old_p2_page) is None);
    }
    Ok(())
}

/// Where the root table of the active table is reached: its last entry
/// opens the table window at the top 4 MiB, and its second-to-last entry, a
/// read/write reference to itself, exposes the root table in that window.
pub const ROOT_TABLE_WINDOW: usize = 0xffff_e000;

/// The virtual address of an entry of the active tables: at level 2 root
/// entry `index[0]`; at level 1 entry `index[1]` of the leaf table under root
/// entry `index[0]`; at level 0 word `index[2]` of the page `index[0]`,
/// `index[1]`.
pub fn entry_address(table_level: usize, index: [usize; 3]) -> (r: usize)
    requires
        table_level <= 2,
        index@[0] < 1024,
        index@[1] < 1024,
        index@[2] < 1024,
    ensures
        table_level == 2 ==> r == ROOT_TABLE_WINDOW + index@[0] * 4,
        table_level == 1 ==> r == TABLE_WINDOW + index@[0] * 4096 + index@[1] * 4,
        table_level == 0 ==> r == index@[0] * 0x40_0000 + index@[1] * 4096 + index@[2] * 4,
{
    if table_level == 2 {
        ROOT_TABLE_WINDOW + index[0] * 4
    } else if table_level == 1 {
        TABLE_WINDOW + index[0] * 4096 + index[1] * 4
    } else {
        index[0] * 0x40_0000 + index[1] * 4096 + index[2] * 4
    }
}

/// Frames that `remap_kernel` can take: the temporary page's, the new root
/// table's, and a leaf table for the UART's root entry and for each of the 32
/// root entries of the kernel's high half.
pub const REMAP_FRAMES: usize = 35;

/// Where free physical memory starts: one page past the physical address of
/// `kernel_end`, the kernel image's (high-half) end; that page is left for
/// the device tree.
pub fn free_memory_start(kernel_end: usize) -> (r: usize)
    requires
        consts::KERNEL_OFFSET <= kernel_end,
        kernel_end <= consts::KERNEL_OFFSET + (consts::MEMORY_END - consts::MEMORY_OFFSET)
            - consts::PAGE_SIZE,
    ensures
        r == kernel_end - consts::KERNEL_OFFSET + consts::MEMORY_OFFSET + consts::PAGE_SIZE,
        consts::MEMORY_OFFSET < r <= consts::MEMORY_END,
{
    (kernel_end - consts::KERNEL_OFFSET + consts::MEMORY_OFFSET) + consts::PAGE_SIZE
}

/// First frame of RAM.
pub const FIRST_RAM_FRAME: usize = 0x8_0000;

/// One past the last frame of RAM.
pub const LAST_RAM_FRAME: usize = 0x8_8000;

/// The UART's page (and frame).
pub const UART_PAGE: usize = 0x1_0000;

} // verus!
