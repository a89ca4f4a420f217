use serica_os::device::uart::{RegWrite, Uart};
use serica_os::io::{putchar, puts};
use serica_os::memory_set::MemoryAttr;
use serica_os::riscv::addr::{Frame, Page, PhysAddr, VirtAddr};
use serica_os::riscv::register::satp::{self, Mode};
use serica_os::riscv::register::sstatus::{self, Sstatus, SPP};
use serica_os::riscv::register::stvec::{self, TrapMode};
use serica_os::sbi::{
    clear_ipi, console_getchar, console_putchar, remote_fence_i, remote_sfence_vma,
    remote_sfence_vma_asid, send_ipi, set_timer, shutdown, SbiCall,
};
use serica_os::usr;

#[test]
fn virtual_address_fields() {
    let a = VirtAddr::new(0xC020_1234);
    assert_eq!(a.as_usize(), 0xC020_1234);
    assert_eq!(a.p2_index(), 0x300);
    assert_eq!(a.p1_index(), 0x201);
    assert_eq!(a.page_number(), 0xC0201);
    assert_eq!(a.page_offset(), 0x234);
    assert_eq!(a.to_4k_aligned(), VirtAddr::new(0xC020_1000));
    assert_eq!(VirtAddr::from_page_table_indices(0x300, 0x201, 0x234), a);
}

#[test]
fn physical_address_fields() {
    let a = PhysAddr::new(0x8765_4321);
    assert_eq!(a.as_usize(), 0x8765_4321);
    assert_eq!(a.p2_index(), 0x21d);
    assert_eq!(a.p1_index(), 0x254);
    assert_eq!(a.page_number(), 0x87654);
    assert_eq!(a.page_offset(), 0x321);
    assert_eq!(a.to_4k_aligned(), PhysAddr::new(0x8765_4000));
}

#[test]
fn legacy_pages_and_frames() {
    let p = Page::of_addr(VirtAddr::new(0x1234_5678));
    assert_eq!(p.start_address(), VirtAddr::new(0x1234_5000));
    assert_eq!(p.number(), 0x12345);
    assert_eq!(p.p2_index(), 0x48);
    assert_eq!(p.p1_index(), 0x345);
    assert_eq!(Page::of_vpn(0x12345), p);
    assert_eq!(Page::from_page_table_indices(0x48, 0x345), p);
    let f = Frame::of_addr(PhysAddr::new(0x8000_1fff));
    assert_eq!(f.start_address(), PhysAddr::new(0x8000_1000));
    assert_eq!(f.number(), 0x80001);
    assert_eq!(f.p2_index(), 0x200);
    assert_eq!(f.p1_index(), 0x1);
    assert_eq!(Frame::of_ppn(0x80001), f);
}

#[test]
fn satp_fields() {
    let bits = satp::set_root_table(Mode::Sv32, 0, 0x80400);
    assert_eq!(bits, 0x8008_0400);
    assert_eq!(satp::root_table_ppn(bits), 0x80400);
    assert_eq!(satp::root_table_paddr(bits), 0x8040_0000);
    assert_eq!(satp::mode(bits), Mode::Sv32);
    assert_eq!(satp::mode(0x80400), Mode::Bare);
    assert_eq!(satp::set_root_table(Mode::Bare, 3, 5), (3 << 22) | 5);
}

#[test]
fn sstatus_bits() {
    let mut s = Sstatus::from_bits(0x22);
    s.set_spp(SPP::Supervisor);
    assert_eq!(s.bits(), 0x122);
    s.set_spp(SPP::User);
    assert_eq!(s.bits(), 0x22);
    assert_eq!(sstatus::set_sie(0x100), 0x102);
    assert_eq!(sstatus::set_sum(0), 1 << 18);
    assert_eq!(sstatus::sie_flag(0x103), 2);
    assert_eq!(sstatus::sie_flag(0x101), 0);
}

#[test]
fn stvec_modes() {
    assert_eq!(stvec::bits(0x8020_0040, TrapMode::Direct), 0x8020_0040);
    assert_eq!(stvec::bits(0x8020_0040, TrapMode::Vectored), 0x8020_0041);
}

#[test]
fn sbi_calls() {
    assert_eq!(
        set_timer(0x1_0000_0002),
        SbiCall { func: 0, arg0: 2, arg1: 1, arg2: 0 }
    );
    assert_eq!(console_putchar(65), SbiCall { func: 1, arg0: 65, arg1: 0, arg2: 0 });
    assert_eq!(console_getchar().func, 2);
    assert_eq!(clear_ipi().func, 3);
    assert_eq!(send_ipi(0x100), SbiCall { func: 4, arg0: 0x100, arg1: 0, arg2: 0 });
    assert_eq!(remote_fence_i(0x100).func, 5);
    assert_eq!(remote_sfence_vma(0x100, 0, 0).func, 6);
    assert_eq!(remote_sfence_vma_asid(0x100, 0, 0, 1).func, 7);
    assert_eq!(shutdown().func, 8);
}

#[test]
fn console_output() {
    assert_eq!(putchar('A'), console_putchar(65));
    let calls = puts("hi!");
    assert_eq!(calls.len(), 3);
    assert_eq!(calls[0].arg0, 'h' as usize);
    assert_eq!(calls[2].arg0, '!' as usize);
    assert!(puts("").is_empty());
}

#[test]
fn uart_programming() {
    let u = Uart::new(0x1000_0000);
    let w = u.init();
    assert_eq!(
        w,
        vec![
            RegWrite { addr: 0x1000_0003, value: 3 },
            RegWrite { addr: 0x1000_0002, value: 1 },
            RegWrite { addr: 0x1000_0001, value: 1 },
            RegWrite { addr: 0x1000_0003, value: 0x83 },
            RegWrite { addr: 0x1000_0000, value: 0x50 },
            RegWrite { addr: 0x1000_0001, value: 0x02 },
            RegWrite { addr: 0x1000_0003, value: 3 },
        ]
    );
    // 0x250 is the divisor 592.
    assert_eq!((w[5].value as u16) << 8 | w[4].value as u16, 592);
    assert_eq!(u.put(b'x'), RegWrite { addr: 0x1000_0000, value: b'x' });
    assert_eq!(u.get(0x61, b'q'), Some(b'q'));
    assert_eq!(u.get(0x60, b'q'), None);
    assert_eq!(u.line_status_address(), 0x1000_0005);
}

#[test]
fn memory_attributes() {
    assert_eq!(MemoryAttr::new().0, 1);
    assert_eq!(MemoryAttr::new().set_readonly().set_execute().0, 0b1011);
    assert_eq!(MemoryAttr::new().set_WR().0, 0b111);
}

#[test]
fn user_syscalls() {
    let w = usr::syscall::sys_write(b'A');
    assert_eq!(w.id, 64);
    assert_eq!(w.args, [65, 0, 0, 0]);
    let e = usr::syscall::sys_exit(7);
    assert_eq!(e.id, 93);
    assert_eq!(e.args, [7, 0, 0, 0]);
    let calls = usr::io::puts("ok");
    assert_eq!(calls.len(), 2);
    assert_eq!(calls[1].args[0], 'k' as usize);
    assert_eq!(usr::io::putchar('z').args[0], 'z' as usize);
}
