//! Kernel threads: their scheduling, their pool and the processor that runs
//! them.
pub mod processor;
pub mod scheduler;
pub mod structs;
pub mod thread_pool;

use vstd::prelude::*;
use processor::Processor;
use scheduler::Scheduler;
use structs::{Thread, Tid};
use thread_pool::{slot_free, ThreadPool};

verus! {

/// Number of thread slots.
pub const MAX_THREADS: usize = 10;

/// Time slice, in ticks.
pub const TIME_SLICE: usize = 1;

/// The processor with `idle` as its idle thread and an empty pool of
/// `MAX_THREADS` slots scheduled round-robin with a slice of `TIME_SLICE`.
pub fn init(idle: Box<Thread>) -> (cpu: Processor)
    ensures
        cpu.wf(),
        cpu.initialized(),
        cpu.current_tid() is None,
        cpu.pool().slots().len() == MAX_THREADS,
        forall|i: int| 0 <= i < MAX_THREADS ==> cpu.pool().slots()[i] is None,
        cpu.pool().ready().len() == 0,
        cpu.pool().scheduler_view().slice() == TIME_SLICE,
{
    let scheduler = Scheduler::new(TIME_SLICE);
    let thread_pool = ThreadPool::new(MAX_THREADS, scheduler);
    let mut cpu = Processor::new();
    cpu.init(idle, Box::new(thread_pool));
    cpu
}

/// Adds `threads` to a processor whose slots are all unused; they get ids
/// 0, 1, ... in order and are queued in that order. The caller then runs the
/// scheduling loop.
pub fn run(cpu: &mut Processor, threads: Vec<Box<Thread>>) -> (tids: Vec<Tid>)
    requires
        old(cpu).wf(),
        old(cpu).initialized(),
        old(cpu).current_tid() is None,
        forall|i: int| 0 <= i < old(cpu).pool().slots().len() ==> old(cpu).pool().slots()[i] is None,
        threads@.len() <= old(cpu).pool().slots().len(),
    ensures
        final(cpu).wf(),
        final(cpu).initialized(),
        final(cpu).current_tid() is None,
        tids@.len() == threads@.len(),
        forall|i: int| 0 <= i < tids@.len() ==> #[trigger] tids@[i] == i,
        final(cpu).pool().ready() == old(cpu).pool().ready() + tids@,
        forall|i: int|
            0 <= i < threads@.len() ==> #[trigger] final(cpu).pool().slots()[i] == Some(
                (structs::Status::Ready, true, Some(*threads@[i])),
            ),
{
    let ghost start = *cpu;
    let mut tids: Vec<Tid> = Vec::new();
    let mut threads = threads;
    let ghost all = threads@;
    let mut rest: Vec<Box<Thread>> = Vec::new();
    // Reverse so that popping hands the threads out in the order given.
    while threads.len() > 0
        invariant
            rest@.len() + threads@.len() == all.len(),
            forall|i: int| 0 <= i < threads@.len() ==> threads@[i] == all[i],
            forall|i: int| 0 <= i < rest@.len() ==> rest@[i] == all[all.len() - 1 - i],
        decreases threads@.len(),
    {
        let t = threads.pop().unwrap();
        rest.push(t);
    }
    let mut i: usize = 0;
    while rest.len() > 0
        invariant
            i + rest@.len() == all.len(),
            all.len() <= cpu.pool().slots().len(),
            cpu.wf(),
            cpu.initialized(),
            cpu.current_tid() is None,
            cpu.pool().slots().len() == start.pool().slots().len(),
            forall|j: int| 0 <= j < rest@.len() ==> rest@[j] == all[all.len() - 1 - j],
            tids@.len() == i,
            forall|j: int| 0 <= j < i ==> #[trigger] tids@[j] == j,
            cpu.pool().ready() == start.pool().ready() + tids@,
            forall|j: int|
                0 <= j < i ==> #[trigger] cpu.pool().slots()[j] == Some(
                    (structs::Status::Ready, true, Some(*all[j])),
                ),
            forall|j: int| i <= j < cpu.pool().slots().len() ==> #[trigger] cpu.pool().slots()[j] is None,
        decreases rest@.len(),
    {
        let t = rest.pop().unwrap();
        proof {
            assert(slot_free(cpu.pool().slots()[i as int]));
        }
        let tid = cpu.add_thread(t);
        proof {
            cpu.pool().lemma_ready_slots();
        }
        tids.push(tid);
        i = i + 1;
        proof {
            assert(cpu.pool().ready() =~= start.pool().ready() + tids@);
        }
    }
    tids
}

/// The timer tick entry point: true when the running thread must yield.
pub fn tick(cpu: &mut Processor) -> (r: bool)
    requires
        old(cpu).wf(),
        old(cpu).initialized(),
    ensures
        final(cpu).wf(),
        final(cpu).initialized(),
        final(cpu).current_tid() == old(cpu).current_tid(),
        final(cpu).pool().slots() == old(cpu).pool().slots(),
        final(cpu).pool().ready() == old(cpu).pool().ready(),
        r == (old(cpu).current_tid() is Some && match old(cpu).pool().running() {
            None => true,
            Some(cur) => old(cpu).pool().scheduler_view().slice_left(cur) <= 1,
        }),
        final(cpu).pool().running() == old(cpu).pool().running(),
        old(cpu).current_tid() is None ==> final(cpu).pool() == old(cpu).pool(),
        (old(cpu).current_tid() is Some && old(cpu).pool().running() is Some) ==> {
            let cur = old(cpu).pool().running().unwrap();
            &&& final(cpu).pool().scheduler_view().slice_left(cur) == (if old(
                cpu,
            ).pool().scheduler_view().slice_left(cur) == 0 {
                0
            } else {
                (old(cpu).pool().scheduler_view().slice_left(cur) - 1) as nat
            })
            &&& forall|u: usize|
                u != cur ==> #[trigger] final(cpu).pool().scheduler_view().slice_left(u) == old(
                    cpu,
                ).pool().scheduler_view().slice_left(u)
        },
{
    cpu.tick()
}

/// The running thread finishes with `code`; returns its id.
pub fn exit(cpu: &mut Processor, code: usize) -> (tid: Tid)
    requires
        old(cpu).wf(),
        old(cpu).initialized(),
        old(cpu).current_tid() is Some,
    ensures
        final(cpu).wf(),
        final(cpu).initialized(),
        tid == old(cpu).current_tid().unwrap(),
        final(cpu).pool().slots() == old(cpu).pool().slots().update(
            tid as int,
            Some((structs::Status::Ready, false, None)),
        ),
        final(cpu).pool().ready() == old(cpu).pool().ready(),
        final(cpu).pool().running() == (if old(cpu).pool().running() == Some(tid) {
            None
        } else {
            old(cpu).pool().running()
        }),
{
    cpu.exit(code)
}

} // verus!
