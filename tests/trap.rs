use serica_os::clock::{clock_set_next_event, read_cycle, Clock, TIMEBASE};
use serica_os::context::{Context, ContextContent, TrapFrame};
use serica_os::interrupt::{rust_trap, super_timer, syscall, SyscallAction, TrapAction};
use serica_os::process;
use serica_os::process::structs::{KernelStack, Thread};
use serica_os::riscv::register::scause::{Exception, Interrupt, Scause, Trap};
use serica_os::riscv::register::sstatus::Sstatus;
use serica_os::sbi::{set_timer, SbiCall};

const INTERRUPT: usize = 1 << (usize::BITS - 1);

fn frame(scause: usize) -> TrapFrame {
    let mut tf = TrapFrame::zeroed();
    tf.scause = Scause::from_bits(scause);
    tf.sepc = 0x8020_0100;
    tf
}

#[test]
fn write_syscall_prints_one_character() {
    let mut tf = frame(8);
    tf.x[17] = 64;
    tf.x[10] = 'A' as usize;
    let action = rust_trap(&mut tf);
    assert_eq!(action, TrapAction::Syscall(SyscallAction::Write(b'A')));
    assert_eq!(tf.sepc, 0x8020_0104);
}

#[test]
fn exit_syscall_carries_code() {
    let mut tf = frame(8);
    tf.x[17] = 93;
    tf.x[10] = 7;
    assert_eq!(syscall(&mut tf), SyscallAction::Exit(7));
    assert_eq!(tf.sepc, 0x8020_0104);
}

#[test]
fn unknown_syscall_is_reported() {
    let mut tf = frame(8);
    tf.x[17] = 1000;
    assert_eq!(rust_trap(&mut tf), TrapAction::Syscall(SyscallAction::Unknown(1000)));
    assert_eq!(tf.sepc, 0x8020_0104);
}

#[test]
fn faults_and_breakpoints() {
    let mut tf = frame(3);
    assert_eq!(rust_trap(&mut tf), TrapAction::Breakpoint);
    assert_eq!(tf.sepc, 0x8020_0100);
    let mut tf = frame(13);
    tf.stval = 0xdead_b000;
    assert_eq!(
        rust_trap(&mut tf),
        TrapAction::PageFault {
            cause: Trap::Exception(Exception::LoadPageFault),
            addr: 0xdead_b000
        }
    );
    let mut tf = frame(2);
    assert_eq!(
        rust_trap(&mut tf),
        TrapAction::Unexpected(Trap::Exception(Exception::IllegalInstruction))
    );
    let mut tf = frame(INTERRUPT | 5);
    assert_eq!(rust_trap(&mut tf), TrapAction::Timer);
    let mut tf = frame(INTERRUPT | 9);
    assert_eq!(
        rust_trap(&mut tf),
        TrapAction::Unexpected(Trap::Interrupt(Interrupt::SupervisorExternalInterrupt))
    );
}

#[test]
fn scause_decoding() {
    let s = Scause::from_bits(INTERRUPT | 5);
    assert!(s.is_interrupt());
    assert!(!s.is_exception());
    assert_eq!(s.code(), 5);
    assert_eq!(s.bits(), INTERRUPT | 5);
    assert_eq!(s.cause(), Trap::Interrupt(Interrupt::SupervisorTimerInterrupt));
    let e = Scause::from_bits(15);
    assert!(e.is_exception());
    assert_eq!(e.cause(), Trap::Exception(Exception::StorePageFault));
    assert_eq!(Scause::from_bits(14).cause(), Trap::Exception(Exception::Unknown));
    assert_eq!(Interrupt::from(2), Interrupt::Unknown);
    assert_eq!(Interrupt::from(11), Interrupt::MachineExternalInterrupt);
    assert_eq!(Exception::from(8), Exception::UserEnvCall);
}

#[test]
fn deadlines_advance() {
    let first = clock_set_next_event(5_000);
    let second = clock_set_next_event(5_001);
    assert_eq!(first, set_timer(5_000 + TIMEBASE));
    assert_eq!(first.arg0, 105_000);
    assert!(second.arg0 > first.arg0);
    let high = clock_set_next_event(0x1_0000_0000 - 10);
    assert_eq!(high, SbiCall { func: 0, arg0: 99_990, arg1: 1, arg2: 0 });
}

#[test]
fn cycle_read_retries_on_rollover() {
    assert_eq!(read_cycle(1, 5, 1), Some(0x1_0000_0005));
    assert_eq!(read_cycle(1, 0xffff_ffff, 2), None);
}

#[test]
fn ticks_count_once_each() {
    let mut clock = Clock::new();
    let mut logged = 0;
    for _ in 0..250 {
        if clock.on_timer() {
            logged += 1;
        }
    }
    assert_eq!(clock.tick, 250);
    assert_eq!(logged, 2);
}

#[test]
fn timer_interrupt_preempts_running_thread() {
    let mut clock = Clock::new();
    let mut cpu = process::init(Box::new(Thread { context: Context::null(), kstack: KernelStack(0) }));
    cpu.add_thread(Box::new(Thread { context: Context { content_addr: 8 }, kstack: KernelStack(16) }));
    let idle = super_timer(&mut clock, &mut cpu, 7);
    assert!(!idle.preempt);
    assert_eq!(cpu.switch_in(), Some(0));
    let ev = super_timer(&mut clock, &mut cpu, 1_000);
    assert!(ev.preempt);
    assert_eq!(ev.next_timer, set_timer(101_000));
    assert_eq!(clock.tick, 2);
    assert!(!ev.log_tick);
}

#[test]
fn sepc_step() {
    let mut tf = frame(0);
    tf.increase_sepc();
    assert_eq!(tf.sepc, 0x8020_0104);
}

#[test]
fn kernel_thread_context() {
    let content = ContextContent::new_kernel_thread(0x8020_1000, 3, 0x8000_0123, Sstatus::from_bits(0x22));
    assert_eq!(content.ra, 0x8020_1000);
    assert_eq!(content.satp, 0x8000_0123);
    assert_eq!(content.s[0], 3);
    assert_eq!(content.s[1], 0x122);
    let (ctx, c2) = Context::new_kernel_thread(1, 2, 0x9000, 4, Sstatus::from_bits(0x100), 400);
    assert_eq!(ctx.content_addr, 0x9000 - 400);
    assert_eq!(c2.s[1], 0x100);
    let (t, _) = Thread::new_kernel(1, 2, KernelStack(0x10000), 0, Sstatus::from_bits(0), 400);
    assert_eq!(t.context.content_addr, 0x10000 + 0x8000 - 400);
    assert_eq!(KernelStack::new(0x10000).top(), 0x18000);
    assert_eq!(Thread::new_idle(KernelStack(5)).context, Context::null());
}
