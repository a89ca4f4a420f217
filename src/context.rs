//! Trap frames and thread contexts.
//!
//! A `TrapFrame` is what the trap entry routine saves: the 32 general
//! registers and four CSRs. A `ContextContent` is the callee-saved state of a
//! suspended thread, stored at the top of its kernel stack; a `Context` is
//! the address of that block. Saving, restoring and switching are done by the
//! hand-written routines of the caller.
use vstd::prelude::*;
use crate::riscv::register::scause::Scause;
use crate::riscv::register::sstatus::{Sstatus, SPP, SPP_BIT};

verus! {

#[derive(Debug, Clone, Copy)]
pub struct TrapFrame {
    /// General registers
    pub x: [usize; 32],
    /// Supervisor Status Register
    pub sstatus: usize,
    /// Supervisor exception program counter
    pub sepc: usize,
    /// Supervisor trap value
    pub stval: usize,
    /// The cause of the trap
    pub scause: Scause,
}

impl TrapFrame {
    /// A frame with every register zero.
    pub fn zeroed() -> (r: TrapFrame)
        ensures
            forall|i: int| 0 <= i < 32 ==> r.x@[i] == 0,
            r.sstatus == 0,
            r.sepc == 0,
            r.stval == 0,
            r.scause.bits == 0,
    {
        TrapFrame { x: [0usize; 32], sstatus: 0, sepc: 0, stval: 0, scause: Scause::from_bits(0) }
    }

    /// Steps the saved program counter past the (4-byte) trapping instruction.
    pub fn increase_sepc(&mut self)
        requires
            old(self).sepc <= usize::MAX - 4,
        ensures
            final(self).sepc == old(self).sepc + 4,
            final(self).x == old(self).x,
            final(self).sstatus == old(self).sstatus,
            final(self).stval == old(self).stval,
            final(self).scause == old(self).scause,
    {
        self.sepc = self.sepc + 4;
    }
}

/// The saved state of a suspended kernel thread.
#[derive(Debug, Clone, Copy)]
pub struct ContextContent {
    /// Return address: where the thread resumes.
    pub ra: usize,
    /// The address space the thread runs in.
    pub satp: usize,
    /// Callee-saved registers s0..s11.
    pub s: [usize; 12],
    pub tf: TrapFrame,
}

impl ContextContent {
    /// The content that starts a new kernel thread at `entry` with `arg` as its
    /// only argument (in s0), in address space `satp`. s1 holds `sstatus` with
    /// the previous privilege forced to supervisor.
    pub fn new_kernel_thread(entry: usize, arg: usize, satp: usize, sstatus: Sstatus) -> (r:
        ContextContent)
        ensures
            r.ra == entry,
            r.satp == satp,
            r.s@[0] == arg,
            r.s@[1] == sstatus.bits | SPP_BIT,
            forall|i: int| 2 <= i < 12 ==> r.s@[i] == 0,
            forall|i: int| 0 <= i < 32 ==> r.tf.x@[i] == 0,
            r.tf.sepc == 0,
    {
        let mut sstatus_ = sstatus;
        sstatus_.set_spp(SPP::Supervisor);
        let s1 = sstatus_.bits();
        ContextContent {
            ra: entry,
            satp,
            s: [arg, s1, 0, 0, 0, 0, 0, 0, 0, 0, 0, 0],
            tf: TrapFrame::zeroed(),
        }
    }
}

/// Handle of a suspended thread: the address of its `ContextContent`.
#[derive(Debug, Clone, Copy, PartialEq, Eq, Structural)]
pub struct Context {
    pub content_addr: usize,
}

impl Context {
    /// A context with no saved state, for the idle thread.
    pub fn null() -> (r: Context)
        ensures
            r.content_addr == 0,
    {
        Context { content_addr: 0 }
    }

    /// The context of a new kernel thread whose stack top is `kstack_top`: its
    /// content (returned too, for the caller to store) sits immediately below
    /// the top, taking `content_size` bytes.
    pub fn new_kernel_thread(
        entry: usize,
        arg: usize,
        kstack_top: usize,
        satp: usize,
        sstatus: Sstatus,
        content_size: usize,
    ) -> (r: (Context, ContextContent))
        requires
            content_size <= kstack_top,
        ensures
            r.0.content_addr == kstack_top - content_size,
            r.1.ra == entry,
            r.1.satp == satp,
            r.1.s@[0] == arg,
            r.1.s@[1] == sstatus.bits | SPP_BIT,
    {
        let content = ContextContent::new_kernel_thread(entry, arg, satp, sstatus);
        (Context { content_addr: kstack_top - content_size }, content)
    }
}

} // verus!
