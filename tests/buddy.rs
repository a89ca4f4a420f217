use serica_os::new_memory::buddy_allocator::{log2_down, BuddyAllocator};

fn allocator(order: u8) -> BuddyAllocator {
    let mut b = BuddyAllocator::new();
    b.init(order);
    b
}

#[test]
fn allocation_rounds_up_to_power_of_two() {
    let mut b = allocator(4);
    assert_eq!(b.units(), 16);
    assert_eq!(b.allocate(3), Some(0));
    // The first block took four units.
    assert_eq!(b.allocate(1), Some(4));
    assert_eq!(b.allocate(2), Some(6));
    assert_eq!(b.allocate(8), Some(8));
    assert_eq!(b.allocate(1), Some(5));
}

#[test]
fn exhaustion_is_reported() {
    let mut b = allocator(3);
    assert_eq!(b.allocate(4), Some(0));
    assert_eq!(b.allocate(4), Some(4));
    assert_eq!(b.allocate(1), None);
    assert_eq!(b.allocate(16), None);
}

#[test]
fn too_large_request_fails() {
    let mut b = allocator(2);
    assert_eq!(b.allocate(5), None);
    assert_eq!(b.allocate(4), Some(0));
}

#[test]
fn freeing_everything_restores_the_start() {
    let mut b = allocator(4);
    let a1 = b.allocate(1).unwrap();
    let a2 = b.allocate(4).unwrap();
    let a3 = b.allocate(2).unwrap();
    b.deallocate(a2, 4);
    b.deallocate(a1, 1);
    b.deallocate(a3, 2);
    // The whole space is one free block again.
    assert_eq!(b.allocate(16), Some(0));
}

#[test]
fn freed_buddies_merge() {
    let mut b = allocator(2);
    assert_eq!(b.allocate(1), Some(0));
    assert_eq!(b.allocate(1), Some(1));
    assert_eq!(b.allocate(2), Some(2));
    b.deallocate(0, 1);
    assert_eq!(b.allocate(2), None);
    b.deallocate(1, 1);
    assert_eq!(b.allocate(2), Some(0));
}

#[test]
fn new_allocator_manages_nothing() {
    let mut b = BuddyAllocator::new();
    assert_eq!(b.allocate(1), None);
}

#[test]
fn log2_down_values() {
    assert_eq!(log2_down(1), 0);
    assert_eq!(log2_down(2), 1);
    assert_eq!(log2_down(3), 1);
    assert_eq!(log2_down(4), 2);
    assert_eq!(log2_down(0x7fff), 14);
    assert_eq!(log2_down(0x8000), 15);
}
