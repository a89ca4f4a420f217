//! Trap dispatch: decides from a saved trap frame what the trap means and
//! what the kernel does next. The caller performs the action (reprogramming
//! the timer, printing, switching threads, halting).
use vstd::prelude::*;
use crate::clock::{clock_set_next_event, next_deadline, Clock};
use crate::context::TrapFrame;
use crate::process::processor::Processor;
use crate::riscv::register::scause::{cause_of, Exception, Interrupt, Trap};
use crate::sbi::{set_timer_call, SbiCall};

verus! {

pub const SYS_WRITE: usize = 64;

pub const SYS_EXIT: usize = 93;

/// What a system call asks for.
#[derive(Copy, Clone, Debug, PartialEq, Eq, Structural)]
pub enum SyscallAction {
    /// Print this byte as a character.
    Write(u8),
    /// End the calling thread with this exit code.
    Exit(usize),
    /// An unknown system call number: logged and otherwise ignored.
    Unknown(usize),
}

/// What the kernel does about a trap.
#[derive(Copy, Clone, Debug, PartialEq, Eq, Structural)]
pub enum TrapAction {
    /// A breakpoint: fatal.
    Breakpoint,
    /// The supervisor timer: set the next deadline, count the tick, and let
    /// the scheduler decide on preemption.
    Timer,
    /// A page fault at `addr`: fatal.
    PageFault { cause: Trap, addr: usize },
    /// A system call, already stepped past.
    Syscall(SyscallAction),
    /// Any other cause: fatal.
    Unexpected(Trap),
}

pub open spec fn syscall_action(x17: usize, x10: usize) -> SyscallAction {
    if x17 == SYS_WRITE {
        SyscallAction::Write(x10 as u8)
    } else if x17 == SYS_EXIT {
        SyscallAction::Exit(x10)
    } else {
        SyscallAction::Unknown(x17)
    }
}

/// Handles a system call: steps `sepc` past the `ecall` (it must not run
/// again) and reads the call number in x17 and its argument in x10.
pub fn syscall(tf: &mut TrapFrame) -> (r: SyscallAction)
    requires
        old(tf).sepc <= usize::MAX - 4,
    ensures
        final(tf).sepc == old(tf).sepc + 4,
        final(tf).x == old(tf).x,
        final(tf).scause == old(tf).scause,
        final(tf).stval == old(tf).stval,
        final(tf).sstatus == old(tf).sstatus,
        r == syscall_action(old(tf).x@[17], old(tf).x@[10]),
{
    tf.increase_sepc();
    let n = tf.x[17];
    let arg = tf.x[10];
    if n == SYS_WRITE {
        SyscallAction::Write(arg as u8)
    } else if n == SYS_EXIT {
        SyscallAction::Exit(arg)
    } else {
        SyscallAction::Unknown(n)
    }
}

pub open spec fn trap_action(cause: Trap, x17: usize, x10: usize, stval: usize) -> TrapAction {
    match cause {
        Trap::Exception(Exception::Breakpoint) => TrapAction::Breakpoint,
        Trap::Interrupt(Interrupt::SupervisorTimerInterrupt) => TrapAction::Timer,
        Trap::Exception(Exception::InstructionPageFault) => TrapAction::PageFault {
            cause,
            addr: stval,
        },
        Trap::Exception(Exception::LoadPageFault) => TrapAction::PageFault { cause, addr: stval },
        Trap::Exception(Exception::StorePageFault) => TrapAction::PageFault { cause, addr: stval },
        Trap::Exception(Exception::UserEnvCall) => TrapAction::Syscall(syscall_action(x17, x10)),
        _ => TrapAction::Unexpected(cause),
    }
}

/// Decodes the cause of the trap saved in `tf` and decides what to do. Only
/// a system call changes the frame: its `sepc` moves past the `ecall`.
pub fn rust_trap(tf: &mut TrapFrame) -> (r: TrapAction)
    requires
        cause_of(old(tf).scause.bits) == Trap::Exception(Exception::UserEnvCall) ==> old(tf).sepc
            <= usize::MAX - 4,
    ensures
        r == trap_action(cause_of(old(tf).scause.bits), old(tf).x@[17], old(tf).x@[10], old(tf).stval),
        final(tf).sepc == (if r is Syscall {
            old(tf).sepc + 4
        } else {
            old(tf).sepc as int
        }),
        final(tf).x == old(tf).x,
        final(tf).scause == old(tf).scause,
        final(tf).stval == old(tf).stval,
        final(tf).sstatus == old(tf).sstatus,
{
    let cause = tf.scause.cause();
    match cause {
        Trap::Exception(Exception::Breakpoint) => TrapAction::Breakpoint,
        Trap::Interrupt(Interrupt::SupervisorTimerInterrupt) => TrapAction::Timer,
        Trap::Exception(Exception::InstructionPageFault) => TrapAction::PageFault {
            cause,
            addr: tf.stval,
        },
        Trap::Exception(Exception::LoadPageFault) => TrapAction::PageFault {
            cause,
            addr: tf.stval,
        },
        Trap::Exception(Exception::StorePageFault) => TrapAction::PageFault {
            cause,
            addr: tf.stval,
        },
        Trap::Exception(Exception::UserEnvCall) => TrapAction::Syscall(syscall(tf)),
        _ => TrapAction::Unexpected(cause),
    }
}

/// The outcome of a timer interrupt.
#[derive(Copy, Clone, Debug, PartialEq, Eq, Structural)]
pub struct TimerEvent {
    /// The SBI call that programs the next deadline; issued first.
    pub next_timer: SbiCall,
    /// This tick is one to log.
    pub log_tick: bool,
    /// The running thread must switch to idle now.
    pub preempt: bool,
}

/// Handles the supervisor timer interrupt at cycle count `now`: the next
/// deadline, one more tick, and the scheduler's verdict.
pub fn super_timer(clock: &mut Clock, cpu: &mut Processor, now: u64) -> (r: TimerEvent)
    requires
        now <= u64::MAX - 100000,
        old(clock).tick < usize::MAX,
        old(cpu).wf(),
        old(cpu).initialized(),
    ensures
        r.next_timer == set_timer_call(next_deadline(now) as u64),
        final(clock).tick == old(clock).tick + 1,
        r.log_tick == (final(clock).tick % 100 == 0),
        final(cpu).wf(),
        final(cpu).initialized(),
        final(cpu).current_tid() == old(cpu).current_tid(),
        final(cpu).pool().slots() == old(cpu).pool().slots(),
        final(cpu).pool().ready() == old(cpu).pool().ready(),
        r.preempt == (old(cpu).current_tid() is Some && match old(cpu).pool().running() {
            None => true,
            Some(cur) => old(cpu).pool().scheduler_view().slice_left(cur) <= 1,
        }),
        final(cpu).pool().running() == old(cpu).pool().running(),
        old(cpu).current_tid() is None ==> final(cpu).pool() == old(cpu).pool(),
        (old(cpu).current_tid() is Some && old(cpu).pool().running() is Some) ==> {
            let cur = old(cpu).pool().running().unwrap();
            &&& final(cpu).pool().scheduler_view().slice_left(cur) == (if old(
                cpu,
            ).pool().scheduler_view().slice_left(cur) == 0 {
                0
            } else {
                (old(cpu).pool().scheduler_view().slice_left(cur) - 1) as nat
            })
            &&& forall|u: usize|
                u != cur ==> #[trigger] final(cpu).pool().scheduler_view().slice_left(u) == old(
                    cpu,
                ).pool().scheduler_view().slice_left(u)
        },
{
    let next_timer = clock_set_next_event(now);
    let log_tick = clock.on_timer();
    let preempt = crate::process::tick(cpu);
    TimerEvent { next_timer, log_tick, preempt }
}

/// A system call made from user mode reaches the kernel intact. Place a
/// request's number in x17 and its first argument in x10 of the trap frame
/// `tf` of an environment call: dispatching it steps `sepc` by exactly one
/// instruction, a write of byte `ch` becomes `Write(ch)`, and an exit with
/// `code` becomes `Exit(code)`.
pub proof fn lemma_syscall_round_trip(tf: TrapFrame, id: usize, arg: usize, r: TrapAction, after: TrapFrame)
    requires
        cause_of(tf.scause.bits) == Trap::Exception(Exception::UserEnvCall),
        tf.x@[17] == id,
        tf.x@[10] == arg,
        r == trap_action(cause_of(tf.scause.bits), tf.x@[17], tf.x@[10], tf.stval),
        after.sepc == (if r is Syscall {
            tf.sepc + 4
        } else {
            tf.sepc as int
        }),
    ensures
        after.sepc == tf.sepc + 4,
        id == SYS_WRITE ==> r == TrapAction::Syscall(SyscallAction::Write(arg as u8)),
        id == SYS_EXIT ==> r == TrapAction::Syscall(SyscallAction::Exit(arg)),
{
}

} // verus!
