//! Physical frames from the buddy allocator: block index `i` is the frame at
//! `i * PAGE_SIZE + MEMORY_OFFSET`.
use vstd::prelude::*;
use vstd::arithmetic::power2::{lemma2_to64, lemma_pow2_strictly_increases, pow2};
use crate::consts::{MEMORY_END, MEMORY_OFFSET, PAGE_SIZE};
use crate::new_memory::buddy_allocator::{
    allocation,
    block_free,
    is_block_size,
    log2_down,
    mark,
    BuddyAllocator,
};
use crate::new_memory::Frame;

verus! {

/// The frame of buddy block 0: the first frame of RAM.
pub const FIRST_FRAME: usize = 0x8_0000;

/// A buddy allocator sized for the RAM window: at most `2^15` units.
pub open spec fn buddy_wf(buddy: &BuddyAllocator) -> bool {
    buddy.wf() && buddy.order() <= 15
}

/// The buddy block index of `frame`.
pub open spec fn block_index(frame: Frame) -> int {
    frame.number - FIRST_FRAME
}

/// `frame` is one of the frames `buddy` hands out.
pub open spec fn managed(buddy: &BuddyAllocator, frame: Frame) -> bool {
    FIRST_FRAME <= frame.number < FIRST_FRAME + buddy.used().len()
}

/// The frames returned by an allocation, as buddy block indices.
pub open spec fn index_of(r: Option<Frame>) -> Option<usize> {
    match r {
        Some(f) => Some((f.number - FIRST_FRAME) as usize),
        None => None,
    }
}

proof fn lemma_buddy_bound(buddy: &BuddyAllocator)
    requires
        buddy_wf(buddy),
    ensures
        1 <= buddy.used().len() <= 0x8000,
{
    buddy.lemma_units();
    lemma2_to64();
    if buddy.order() < 15 {
        lemma_pow2_strictly_increases(buddy.order(), 15);
    }
}

/// Whole frames from `lo` up to `hi`.
pub open spec fn frames_between(lo: usize, hi: int) -> nat {
    ((hi - lo) / 4096) as nat
}

/// Frames from `lo` needed to cover up to `hi`: partial frames count whole.
pub open spec fn frames_covering(lo: usize, hi: int) -> nat {
    ((hi - lo + 4095) / 4096) as nat
}

/// A block serving `reserved` units fits in what `buddy` manages.
pub open spec fn reserve_fits(buddy: &BuddyAllocator, reserved: nat) -> bool {
    exists|p: nat| is_block_size(p, reserved) && p <= buddy.used().len()
}

/// Sizes `buddy` for the RAM from `start` to `start + length` (in whole
/// frames, rounded down to a power of two counted from `MEMORY_OFFSET`) and
/// takes every frame below `start`, and the one holding `start` when it is
/// not frame-aligned, out of use. When no block that large fits, nothing is
/// taken out of use.
pub fn init(buddy: &mut BuddyAllocator, start: usize, length: usize)
    requires
        MEMORY_OFFSET <= start,
        length <= MEMORY_END - start,
        start + length - MEMORY_OFFSET >= PAGE_SIZE,
    ensures
        buddy_wf(final(buddy)),
        pow2(final(buddy).order()) <= frames_between(MEMORY_OFFSET, start + length as int),
        frames_between(MEMORY_OFFSET, start + length as int) < 2 * pow2(final(buddy).order()),
        reserve_fits(final(buddy), frames_covering(MEMORY_OFFSET, start as int)) ==> forall|u: int|
            0 <= u < frames_covering(MEMORY_OFFSET, start as int) ==> #[trigger] final(buddy).used()[u],
        !reserve_fits(final(buddy), frames_covering(MEMORY_OFFSET, start as int)) ==> forall|u: int|
            0 <= u < final(buddy).used().len() ==> final(buddy).used()[u] == false,
{
    let units = (start + length - MEMORY_OFFSET) / PAGE_SIZE;
    let order = log2_down(units);
    proof {
        lemma2_to64();
        if order > 15 {
            lemma_pow2_strictly_increases(15, order as nat);
        }
    }
    buddy.init(order as u8);
    let reserved = (start - MEMORY_OFFSET + (PAGE_SIZE - 1)) / PAGE_SIZE;
    let ghost free = buddy.used();
    let r = alloc_frames(buddy, reserved);
    proof {
        if exists|p: nat| is_block_size(p, reserved as nat) && p <= buddy.used().len() {
            let p = choose|p: nat| is_block_size(p, reserved as nat) && p <= buddy.used().len();
            assert(block_free(free, 0, p as int));
            match index_of(r) {
                Some(i) => {
                    let q = choose|q: nat|
                        #![trigger is_block_size(q, reserved as nat)]
                        {
                            &&& is_block_size(q, reserved as nat)
                            &&& (i as int) % (q as int) == 0
                            &&& block_free(free, i as int, q as int)
                            &&& buddy.used() == mark(free, i as int, q as int, true)
                            &&& forall|b: int|
                                0 <= b < i && b % (q as int) == 0 ==> !block_free(
                                    free,
                                    b,
                                    q as int,
                                )
                        };
                    crate::new_memory::buddy_allocator::lemma_block_size_unique(q, p, reserved as nat);
                    assert(i == 0);
                },
                None => {
                    assert(!block_free(free, 0, p as int));
                },
            }
        } else {
            match index_of(r) {
                Some(i) => {
                    let q = choose|q: nat|
                        #![trigger is_block_size(q, reserved as nat)]
                        {
                            &&& is_block_size(q, reserved as nat)
                            &&& (i as int) % (q as int) == 0
                            &&& block_free(free, i as int, q as int)
                            &&& buddy.used() == mark(free, i as int, q as int, true)
                            &&& forall|b: int|
                                0 <= b < i && b % (q as int) == 0 ==> !block_free(
                                    free,
                                    b,
                                    q as int,
                                )
                        };
                    assert(q <= buddy.used().len());
                },
                None => {},
            }
        }
    }
}

/// One frame, if one is free.
pub fn alloc_frame(buddy: &mut BuddyAllocator) -> (r: Option<Frame>)
    requires
        buddy_wf(old(buddy)),
    ensures
        buddy_wf(final(buddy)),
        final(buddy).order() == old(buddy).order(),
        allocation(old(buddy).used(), final(buddy).used(), 1, index_of(r)),
        r matches Some(f) ==> managed(final(buddy), f) && MEMORY_OFFSET <= f.number * PAGE_SIZE
            < MEMORY_END,
{
    alloc_frames(buddy, 1)
}

/// The first of `size` contiguous frames (rounded up to a power of two), if
/// such a block is free.
pub fn alloc_frames(buddy: &mut BuddyAllocator, size: usize) -> (r: Option<Frame>)
    requires
        buddy_wf(old(buddy)),
    ensures
        buddy_wf(final(buddy)),
        final(buddy).order() == old(buddy).order(),
        allocation(old(buddy).used(), final(buddy).used(), size as nat, index_of(r)),
        r matches Some(f) ==> managed(final(buddy), f) && MEMORY_OFFSET <= f.number * PAGE_SIZE
            < MEMORY_END,
{
    proof {
        lemma_buddy_bound(buddy);
    }
    match buddy.allocate(size) {
        Some(id) => {
            proof {
                let p = choose|p: nat|
                    #![trigger is_block_size(p, size as nat)]
                    {
                        &&& is_block_size(p, size as nat)
                        &&& (id as int) % (p as int) == 0
                        &&& block_free(old(buddy).used(), id as int, p as int)
                        &&& buddy.used() == mark(old(buddy).used(), id as int, p as int, true)
                        &&& forall|b: int|
                            0 <= b < id && b % (p as int) == 0 ==> !block_free(
                                old(buddy).used(),
                                b,
                                p as int,
                            )
                    };
                assert(id < 0x8000);
                assert((id * 4096 + 0x8000_0000) / 4096 == id + 0x8_0000) by (nonlinear_arith)
                    requires
                        id < 0x8000,
                ;
            }
            let frame = Frame::containing_address(id * PAGE_SIZE + MEMORY_OFFSET);
            proof {
                assert(index_of(Some(frame)) == Some(id));
            }
            Some(frame)
        },
        None => None,
    }
}

/// Whether `frame` is one that `buddy` hands out.
pub fn is_managed(buddy: &BuddyAllocator, frame: Frame) -> (r: bool)
    ensures
        r == managed(buddy, frame),
{
    let units = buddy.units();
    frame.number >= FIRST_FRAME && frame.number - FIRST_FRAME < units
}

/// Gives one frame back.
pub fn dealloc_frame(buddy: &mut BuddyAllocator, target: Frame)
    requires
        buddy_wf(old(buddy)),
        managed(old(buddy), target),
    ensures
        buddy_wf(final(buddy)),
        final(buddy).order() == old(buddy).order(),
        final(buddy).used() == mark(old(buddy).used(), block_index(target), 1, false),
{
    proof {
        lemma2_to64();
        assert(is_block_size(1, 1));
    }
    dealloc_frames(buddy, target, 1)
}

/// Gives back the block of `size` frames (rounded up to a power of two) that
/// starts at `target`.
pub fn dealloc_frames(buddy: &mut BuddyAllocator, target: Frame, size: usize)
    requires
        buddy_wf(old(buddy)),
        FIRST_FRAME <= target.number,
        exists|p: nat|
            is_block_size(p, size as nat) && block_index(target) % (p as int) == 0 && block_index(
                target,
            ) + p <= old(buddy).used().len(),
    ensures
        buddy_wf(final(buddy)),
        final(buddy).order() == old(buddy).order(),
        forall|p: nat|
            is_block_size(p, size as nat) ==> final(buddy).used() == mark(
                old(buddy).used(),
                block_index(target),
                p as int,
                false,
            ),
{
    proof {
        lemma_buddy_bound(buddy);
        let p = choose|p: nat|
            is_block_size(p, size as nat) && block_index(target) % (p as int) == 0
                && block_index(target) + p <= old(buddy).used().len();
        assert(target.number < 0x8_8000);
        assert((target.number * 4096) / 4096 == target.number) by (nonlinear_arith);
    }
    buddy.deallocate(target.start_address() / PAGE_SIZE - MEMORY_OFFSET / PAGE_SIZE, size);
}

/// A frame handed out is never one of the frames taken out of use before
/// (those below `reserved`), and freeing it right away restores every unit's
/// state: `alloc_frame` took `before` to `after` and returned `f`.
pub proof fn lemma_frame_round_trip(before: Seq<bool>, after: Seq<bool>, f: Frame, reserved: int)
    requires
        forall|u: int| 0 <= u < reserved && u < before.len() ==> #[trigger] before[u],
        allocation(before, after, 1, index_of(Some(f))),
        FIRST_FRAME <= f.number,
    ensures
        block_index(f) >= reserved,
        block_index(f) < before.len(),
        mark(after, block_index(f), 1, false) == before,
{
    let i = index_of(Some(f)).unwrap();
    let p = choose|p: nat|
        #![trigger is_block_size(p, 1)]
        {
            &&& is_block_size(p, 1)
            &&& (i as int) % (p as int) == 0
            &&& block_free(before, i as int, p as int)
            &&& after == mark(before, i as int, p as int, true)
            &&& forall|b: int| 0 <= b < i && b % (p as int) == 0 ==> !block_free(before, b, p as int)
        };
    assert(p == 1);
    assert(!before[i as int]);
    crate::new_memory::buddy_allocator::lemma_allocate_then_free(before, i as int, 1);
}

} // verus!
