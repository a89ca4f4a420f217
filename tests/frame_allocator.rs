use serica_os::consts::{MEMORY_END, MEMORY_OFFSET, PAGE_SIZE};
use serica_os::new_memory::buddy_allocator::BuddyAllocator;
use serica_os::new_memory::frame_allocator::{
    alloc_frame, alloc_frames, dealloc_frame, dealloc_frames, init, is_managed,
};
use serica_os::new_memory::{AreaFrameAllocator, Frame, FrameAllocator};

/// RAM from just above a kernel image ending at 0x8040_0000.
fn ready() -> BuddyAllocator {
    let mut b = BuddyAllocator::new();
    let start = 0x8040_0000;
    init(&mut b, start, MEMORY_END - start);
    b
}

#[test]
fn frames_come_after_the_reserved_region() {
    let mut b = ready();
    // 0x8000 frames from the start of RAM up to its end.
    assert_eq!(b.units(), 0x8000);
    let f = alloc_frame(&mut b).unwrap();
    let addr = f.start_address();
    assert_eq!(addr % PAGE_SIZE, 0);
    assert!(addr >= 0x8040_0000);
    assert!(addr < MEMORY_END);
    assert_eq!(addr, 0x8040_0000);
}

#[test]
fn frame_round_trip_returns_same_block() {
    let mut b = ready();
    let f = alloc_frame(&mut b).unwrap();
    dealloc_frame(&mut b, f);
    assert_eq!(alloc_frame(&mut b), Some(f));
}

#[test]
fn several_frames() {
    let mut b = ready();
    let f1 = alloc_frame(&mut b).unwrap();
    let f2 = alloc_frames(&mut b, 2).unwrap();
    let f3 = alloc_frame(&mut b).unwrap();
    assert_eq!(f1.number, 0x80400);
    assert_eq!(f2.number, 0x80402);
    assert_eq!(f3.number, 0x80401);
    dealloc_frame(&mut b, f1);
    dealloc_frames(&mut b, f2, 2);
    dealloc_frame(&mut b, f3);
    assert_eq!(alloc_frames(&mut b, 4), Some(Frame { number: 0x80400 }));
}

#[test]
fn managed_range() {
    let b = ready();
    assert!(is_managed(&b, Frame { number: 0x80000 }));
    assert!(is_managed(&b, Frame { number: 0x87fff }));
    assert!(!is_managed(&b, Frame { number: 0x88000 }));
    assert!(!is_managed(&b, Frame { number: 0x7ffff }));
}

#[test]
fn area_allocator_uses_buddy() {
    let mut area = AreaFrameAllocator::new();
    assert_eq!(area.allocate_frame(), None);
    init(&mut area.buddy, MEMORY_OFFSET + 4 * PAGE_SIZE, 12 * PAGE_SIZE);
    let f = area.allocate_frame().unwrap();
    assert_eq!(f.number, 0x80004);
    assert!(area.accepts_frame(f));
    area.deallocate_frame(f);
    assert_eq!(area.allocate_frame(), Some(f));
}

#[test]
fn frame_holding_unaligned_start_is_reserved() {
    let mut b = BuddyAllocator::new();
    let start = MEMORY_OFFSET + 4 * PAGE_SIZE + 1;
    init(&mut b, start, MEMORY_OFFSET + 16 * PAGE_SIZE - start);
    // Five frames are covered, so a block of eight is taken.
    let f = alloc_frame(&mut b).unwrap();
    assert_eq!(f.number, 0x80008);
    assert!(f.start_address() >= start);
}
