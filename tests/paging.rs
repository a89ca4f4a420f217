use serica_os::consts::{KERNEL_OFFSET, MEMORY_END};
use serica_os::new_memory::buddy_allocator::BuddyAllocator;
use serica_os::new_memory::frame_allocator::init;
use serica_os::new_memory::paging::entry::{Entry, EntryBits};
use serica_os::new_memory::paging::mapper::Mapper;
use serica_os::new_memory::paging::table::{Level2, Table};
use serica_os::new_memory::paging::temporary_page::TemporaryPage;
use serica_os::new_memory::paging::{ActivePageTable, InactivePageTable, Page};
use serica_os::memory::paging::InactivePageTable as LinearTable;
use serica_os::memory_set::MemoryAttr;
use serica_os::new_memory::{entry_address, remap_kernel, AreaFrameAllocator, Frame, FrameAllocator, KernelLayout};

fn area() -> AreaFrameAllocator {
    let mut a = AreaFrameAllocator { buddy: BuddyAllocator::new() };
    let start = 0x8040_0000;
    init(&mut a.buddy, start, MEMORY_END - start);
    a
}

#[test]
fn map_translate_unmap_round_trip() {
    let mut alloc = area();
    let mut m = Mapper::new();
    let addr = 42 * 1024 * 4096 + 0x123;
    let page = Page::containing_address(addr);
    assert_eq!(m.translate(addr), None);
    let frame = Frame { number: 0x80123 };
    m.map_to(page, frame, EntryBits::ReadWrite.val(), &mut alloc).unwrap();
    assert_eq!(m.translate(addr), Some(frame.start_address() + (addr & 0xfff)));
    assert_eq!(m.translate_page(page), Some(frame));
    m.unmap(page, &mut alloc);
    assert_eq!(m.translate(addr), None);
}

#[test]
fn unmap_frees_empty_leaf_table() {
    let mut alloc = area();
    let mut m = Mapper::new();
    let first = alloc.buddy.units();
    assert_eq!(first, 0x8000);
    let page = Page { number: 0x12345 };
    m.map_to(page, Frame { number: 0x80200 }, EntryBits::Read.val(), &mut alloc).unwrap();
    // The leaf table took the lowest free frame.
    assert_eq!(m.root_entry(page.p2_index()).pointed_frame(), Some(Frame { number: 0x80400 }));
    m.unmap(page, &mut alloc);
    assert_eq!(m.root_entry(page.p2_index()).get_entry(), 0);
    // ... and gave it back.
    let mut b2 = alloc.buddy;
    assert_eq!(serica_os::new_memory::frame_allocator::alloc_frame(&mut b2), Some(Frame { number: 0x80400 }));
}

#[test]
fn neighbours_stay_mapped() {
    let mut alloc = area();
    let mut m = Mapper::new();
    let p = Page { number: 0x400 };
    let q = Page { number: 0x401 };
    m.map_to(p, Frame { number: 0x80500 }, EntryBits::ReadWrite.val(), &mut alloc).unwrap();
    m.map_to(q, Frame { number: 0x80501 }, EntryBits::ReadWrite.val(), &mut alloc).unwrap();
    m.unmap(p, &mut alloc);
    assert_eq!(m.translate_page(p), None);
    assert_eq!(m.translate_page(q), Some(Frame { number: 0x80501 }));
}

#[test]
fn identity_and_linear_maps() {
    let mut alloc = area();
    let mut m = Mapper::new();
    m.identity_map(Frame { number: 0x10000 }, EntryBits::ReadWrite.val(), &mut alloc).unwrap();
    assert_eq!(m.translate(0x1000_0005), Some(0x1000_0005));
    m.linear_map(Frame { number: 0x80200 }, 0x4000_0000, EntryBits::ReadExecute.val(), &mut alloc)
        .unwrap();
    assert_eq!(m.translate(0xC020_0010), Some(0x8020_0010));
}

#[test]
fn map_allocates_the_frame() {
    let mut alloc = area();
    let mut m = Mapper::new();
    let page = Page { number: 0x777 };
    let f = m.map(page, EntryBits::ReadWrite.val(), &mut alloc).unwrap();
    assert_eq!(m.translate_page(page), Some(f));
}

#[test]
fn out_of_frames_is_an_error() {
    let mut alloc = AreaFrameAllocator::new();
    let mut m = Mapper::new();
    let r = m.map_to(Page { number: 5 }, Frame { number: 9 }, 0, &mut alloc);
    assert!(r.is_err());
    assert_eq!(m.translate_page(Page { number: 5 }), None);
}

#[test]
fn inactive_table_has_self_references() {
    let mut alloc = area();
    let mut active = ActivePageTable::new(Frame { number: 0x80100 });
    let mut temp = TemporaryPage::new(Page { number: 0x20000 }, &mut alloc);
    let frame = Frame { number: 0x80900 };
    let t = InactivePageTable::new(frame, &mut active, &mut temp).unwrap();
    assert_eq!(t.p2_frame, frame);
    assert_eq!(t.mapper.root_entry(1023).get_entry() >> 10, 0x80900);
    assert_eq!(t.mapper.root_entry(1023).get_entry() & 0x3ff, 1);
    assert_eq!(t.mapper.root_entry(1022).get_entry() & 0x3ff, 7);
    assert_eq!(active.mapper.translate_page(Page { number: 0x20000 }), None);
    assert_eq!(temp.p2_index(), 128);
    assert_eq!(temp.p1_index(), 0);
}

#[test]
fn switch_swaps_tables() {
    let mut alloc = area();
    let mut active = ActivePageTable::new(Frame { number: 0x80100 });
    let mut temp = TemporaryPage::new(Page { number: 0x20000 }, &mut alloc);
    let t = InactivePageTable::new(Frame { number: 0x80900 }, &mut active, &mut temp).unwrap();
    let old = active.switch(t);
    assert_eq!(old.p2_frame, Frame { number: 0x80100 });
    assert_eq!(active.p2_frame, Frame { number: 0x80900 });
}

fn layout() -> KernelLayout {
    KernelLayout {
        stext: 0xC020_0000,
        etext: 0xC020_3000,
        srodata: 0xC020_3000,
        erodata: 0xC020_4800,
        sdata: 0xC020_5000,
        edata: 0xC020_6000,
        sbss: 0xC020_6000,
        ebss: 0xC020_9000,
        bootstack: 0xC020_9000,
        bootstacktop: 0xC020_D000,
    }
}

#[test]
fn remap_keeps_kernel_reachable() {
    let mut alloc = area();
    let mut active = ActivePageTable::new(Frame { number: 0x80100 });
    // The boot table maps its own frame, which must become a guard page.
    active
        .mapper
        .identity_map(Frame { number: 0x80100 }, EntryBits::ReadWrite.val(), &mut alloc)
        .unwrap();
    remap_kernel(&mut alloc, &mut active, &layout()).unwrap();
    let l = layout();
    for (s, e) in [
        (l.stext, l.etext),
        (l.srodata, l.erodata),
        (l.sdata, l.edata),
        (l.sbss, l.ebss),
        (l.bootstack, l.bootstacktop),
    ] {
        let mut a = s;
        while a < e {
            assert_eq!(active.mapper.translate(a), Some(a - KERNEL_OFFSET + 0x8000_0000));
            a += 0x800;
        }
    }
    assert_eq!(active.mapper.translate(0x1000_0000), Some(0x1000_0000));
    assert_eq!(active.mapper.translate(0x8010_0000), None);
    assert_ne!(active.p2_frame, Frame { number: 0x80100 });
    // Text is read/execute, rodata read-only.
    let text = Page::containing_address(l.stext);
    let leaf = active.mapper.leaf_entry(text.p2_index(), text.p1_index()).get_entry();
    assert_eq!(leaf & 0x3ff, 0xb);
    let ro = Page::containing_address(l.srodata);
    let leaf = active.mapper.leaf_entry(ro.p2_index(), ro.p1_index()).get_entry();
    assert_eq!(leaf & 0x3ff, 0x3);
}

#[test]
fn entry_bits() {
    let mut e = Entry::zero();
    assert!(e.is_invalid());
    // An invalid entry points nowhere: it is neither a leaf nor a branch.
    assert!(!e.is_branch());
    assert!(!e.is_leaf());
    assert_eq!(e.pointed_frame(), None);
    e.set(Frame { number: 0x80123 }, EntryBits::ReadWrite.val() | EntryBits::Valid.val());
    assert_eq!(e.get_entry(), (0x80123 << 10) | 7);
    assert!(e.is_valid());
    assert!(e.is_leaf());
    assert_eq!(e.pointed_frame(), Some(Frame { number: 0x80123 }));
    e.set_entry(1);
    assert!(e.is_valid());
    assert!(e.is_branch());
    assert_eq!(EntryBits::UserReadWriteExecute.val(), 0x1e);
    assert_eq!(EntryBits::Dirty.val(), 0x80);
}

#[test]
fn page_and_frame_numbers() {
    let p = Page::containing_address(0xC020_1234);
    assert_eq!(p.number, 0xC0201);
    assert_eq!(p.p2_index(), 0x300);
    assert_eq!(p.p1_index(), 0x201);
    assert_eq!(p.start_address(), 0xC020_1000);
    let f = Frame::containing_address(0x8020_0fff);
    assert_eq!(f.number, 0x80200);
    assert_eq!(f.p2_index(), 0x200);
    assert_eq!(f.p1_index(), 0x200);
    let mut it = Page::range_inclusive(Page { number: 3 }, Page { number: 5 });
    assert_eq!(it.next(), Some(Page { number: 3 }));
    assert_eq!(it.next(), Some(Page { number: 4 }));
    assert_eq!(it.next(), Some(Page { number: 5 }));
    assert_eq!(it.next(), None);
    let mut fi = Frame::range_inclusive(Frame { number: 7 }, Frame { number: 7 });
    assert_eq!(fi.next(), Some(Frame { number: 7 }));
    assert_eq!(fi.next(), None);
}

#[test]
fn legacy_table_maps_range_linearly() {
    let mut alloc = area();
    let mut t = LinearTable::new(0x4000_0000, &mut alloc).unwrap();
    assert_eq!(t.pgtable_vaddr(), 0x8040_0000 + 0x4000_0000);
    assert_eq!(t.activate(), 0x80400 | 0x8000_0000);
    t.set(0xC020_0123, 0xC020_2001, MemoryAttr::new().set_readonly().set_execute(), &mut alloc)
        .unwrap();
}

#[test]
fn entry_addresses_in_the_table_window() {
    assert_eq!(entry_address(2, [1023, 0, 0]), 0xffff_effc);
    assert_eq!(entry_address(2, [0, 7, 7]), 0xffff_e000);
    assert_eq!(entry_address(1, [42, 5, 0]), 0xffc0_0000 + 42 * 4096 + 20);
    assert_eq!(entry_address(0, [1, 2, 3]), 0x40_0000 + 0x2000 + 12);
}

#[test]
fn next_table_address_follows_valid_entries() {
    let mut root: Table<Level2> = Table::new();
    assert_eq!(root.next_table_address(5), None);
    root.set(5, Entry { entry: (0x80400 << 10) | 1 });
    assert_eq!(root.next_table_address(5), Some(0xffc0_0000 + 5 * 4096));
    root.init();
    assert_eq!(root.next_table_address(5), None);
}

#[test]
fn layout_check() {
    assert!(layout().is_valid());
    let mut overlapping = layout();
    overlapping.etext = 0xC020_3800;
    assert!(!overlapping.is_valid());
    let mut low = layout();
    low.sbss = 0x8020_6000;
    assert!(!low.is_valid());
    let mut empty = layout();
    empty.edata = empty.sdata;
    assert!(!empty.is_valid());
}

#[test]
fn map_gives_frame_back_when_no_leaf_table() {
    let mut alloc = AreaFrameAllocator::new();
    // Two frames of RAM, the first taken out of use: one frame is free.
    init(&mut alloc.buddy, 0x8000_1000, 0x1000);
    let mut m = Mapper::new();
    assert!(m.map(Page { number: 0x500 }, EntryBits::ReadWrite.val(), &mut alloc).is_err());
    assert_eq!(m.translate_page(Page { number: 0x500 }), None);
    assert_eq!(alloc.allocate_frame(), Some(Frame { number: 0x80001 }));
}

#[test]
fn free_memory_starts_a_page_after_the_kernel() {
    assert_eq!(serica_os::new_memory::free_memory_start(0xC021_0000), 0x8021_1000);
}
