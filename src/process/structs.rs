//! Kernel threads and their stacks.
use vstd::prelude::*;
use crate::consts::STACK_SIZE;
use crate::context::{Context, ContextContent};
use crate::riscv::register::sstatus::{Sstatus, SPP_BIT};

verus! {

/// Thread id: the index of the thread's slot in the pool.
pub type Tid = usize;

pub type ExitCode = usize;

#[derive(Debug, Clone, Copy, PartialEq, Eq, Structural)]
pub struct Thread {
    /// Where the thread's saved state lives.
    pub context: Context,
    /// The stack it runs on.
    pub kstack: KernelStack,
}

/// A kernel stack of `STACK_SIZE` bytes, held as its lowest address. The
/// caller allocates it (aligned to its size) and frees it when the thread is
/// released.
#[derive(Debug, Clone, Copy, PartialEq, Eq, Structural)]
pub struct KernelStack(pub usize);

#[derive(Debug, Clone, Copy, PartialEq, Eq, Structural)]
pub enum Status {
    Ready,
    Running(Tid),
    Sleeping,
    Exited(ExitCode),
}

impl Thread {
    /// The idle thread: a null context on the given stack. It is only ever
    /// switched away from first, which fills in its context.
    pub fn new_idle(kstack: KernelStack) -> (r: Box<Thread>)
        ensures
            r.context.content_addr == 0,
            r.kstack == kstack,
    {
        Box::new(Thread { context: Context::null(), kstack })
    }

    /// A kernel thread that starts at `entry` with argument `arg` in address
    /// space `satp`. Its context sits at the top of `kstack`; the content to
    /// store there is returned beside the thread.
    pub fn new_kernel(
        entry: usize,
        arg: usize,
        kstack: KernelStack,
        satp: usize,
        sstatus: Sstatus,
        content_size: usize,
    ) -> (r: (Box<Thread>, ContextContent))
        requires
            kstack.0 <= usize::MAX - STACK_SIZE,
            content_size <= STACK_SIZE,
        ensures
            r.0.kstack == kstack,
            r.0.context.content_addr == kstack.0 + STACK_SIZE - content_size,
            r.1.ra == entry,
            r.1.satp == satp,
            r.1.s@[0] == arg,
            r.1.s@[1] == sstatus.bits | SPP_BIT,
    {
        let (context, content) = Context::new_kernel_thread(
            entry,
            arg,
            kstack.top(),
            satp,
            sstatus,
            content_size,
        );
        (Box::new(Thread { context, kstack }), content)
    }
}

impl KernelStack {
    /// The stack whose lowest address is `bottom`.
    pub fn new(bottom: usize) -> (r: KernelStack)
        ensures
            r.0 == bottom,
    {
        KernelStack(bottom)
    }

    /// One past the highest address of the stack.
    pub fn top(&self) -> (r: usize)
        requires
            self.0 <= usize::MAX - STACK_SIZE,
        ensures
            r == self.0 + STACK_SIZE,
    {
        self.0 + STACK_SIZE
    }
}

} // verus!
