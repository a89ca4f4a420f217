//! A fixed number of thread slots keyed by thread id, with a round-robin
//! scheduler deciding which ready thread runs next.
use vstd::prelude::*;
use crate::process::scheduler::Scheduler;
use crate::process::structs::{Status, Thread, Tid};

verus! {

struct ThreadInfo {
    status: Status,
    /// False once the thread has exited: the slot may then be reused.
    present: bool,
    /// The thread, while it is not running.
    thread: Option<Box<Thread>>,
}

/// What a slot holds: its status, whether its thread is present, and the
/// thread stored there (absent while it runs).
pub type SlotView = Option<(Status, bool, Option<Thread>)>;

spec fn info_view(slot: Option<ThreadInfo>) -> SlotView {
    match slot {
        None => None,
        Some(info) => Some(
            (
                info.status,
                info.present,
                match info.thread {
                    None => None,
                    Some(b) => Some(*b),
                },
            ),
        ),
    }
}

/// A slot that `add` may take: never used, or its thread has exited.
pub open spec fn slot_free(s: SlotView) -> bool {
    match s {
        None => true,
        Some(v) => !v.1,
    }
}

pub struct ThreadPool {
    threads: Vec<Option<ThreadInfo>>,
    scheduler: Box<Scheduler>,
}

impl ThreadPool {
    pub closed spec fn slots(&self) -> Seq<SlotView> {
        self.threads@.map_values(|s: Option<ThreadInfo>| info_view(s))
    }

    /// The ready thread ids, the next to run first.
    pub closed spec fn ready(&self) -> Seq<Tid> {
        self.scheduler.ready()
    }

    /// The thread the scheduler last handed out and has not seen exit.
    pub closed spec fn running(&self) -> Option<Tid> {
        self.scheduler.running()
    }

    pub closed spec fn scheduler_view(&self) -> Scheduler {
        *self.scheduler
    }

    pub closed spec fn wf(&self) -> bool {
        &&& self.scheduler.wf()
        &&& self.threads@.len() <= usize::MAX - 2
        &&& forall|k: int|
            0 <= k < self.ready().len() ==> {
                let t = #[trigger] self.ready()[k];
                &&& t < self.threads@.len()
                &&& self.slots()[t as int] matches Some(v) && v.0 == Status::Ready && v.1
                    && v.2 is Some
            }
    }

    pub open spec fn has_free_slot(&self) -> bool {
        exists|i: int| 0 <= i < self.slots().len() && slot_free(#[trigger] self.slots()[i])
    }

    /// A pool of `size` empty slots run by `scheduler`, which has no ready thread.
    pub fn new(size: usize, scheduler: Scheduler) -> (r: ThreadPool)
        requires
            scheduler.wf(),
            scheduler.ready().len() == 0,
            size <= usize::MAX - 2,
        ensures
            r.wf(),
            r.slots().len() == size,
            forall|i: int| 0 <= i < size ==> r.slots()[i] is None,
            r.ready().len() == 0,
            r.running() == scheduler.running(),
            r.scheduler_view() == scheduler,
    {
        let mut threads: Vec<Option<ThreadInfo>> = Vec::new();
        let mut i: usize = 0;
        while i < size
            invariant
                i <= size,
                threads@.len() == i,
                forall|j: int| 0 <= j < i ==> threads@[j] is None,
            decreases size - i,
        {
            threads.push(None);
            i = i + 1;
        }
        ThreadPool { threads, scheduler: Box::new(scheduler) }
    }

    /// The first free slot, if any.
    pub fn alloc_tid(&self) -> (r: Option<Tid>)
        ensures
            match r {
                Some(t) => t < self.slots().len() && slot_free(self.slots()[t as int]) && forall|
                    j: int,
                | 0 <= j < t ==> !slot_free(#[trigger] self.slots()[j]),
                None => !self.has_free_slot(),
            },
    {
        let mut i: usize = 0;
        while i < self.threads.len()
            invariant
                i <= self.threads@.len(),
                forall|j: int| 0 <= j < i ==> !slot_free(#[trigger] self.slots()[j]),
            decreases self.threads@.len() - i,
        {
            let free = match &self.threads[i] {
                None => true,
                Some(info) => !info.present,
            };
            if free {
                return Some(i);
            }
            i = i + 1;
        }
        None
    }

    fn replace_slot(&mut self, i: usize, slot: Option<ThreadInfo>) -> (prev: Option<ThreadInfo>)
        requires
            i < old(self).threads@.len(),
        ensures
            final(self).threads@ == old(self).threads@.update(i as int, slot),
            prev == old(self).threads@[i as int],
            final(self).scheduler == old(self).scheduler,
    {
        let mut slot = slot;
        std::mem::swap(&mut self.threads[i], &mut slot);
        slot
    }

    proof fn lemma_slots_update(&self, before: &Self, i: int, slot: Option<ThreadInfo>)
        requires
            0 <= i < before.threads@.len(),
            self.threads@ == before.threads@.update(i, slot),
        ensures
            self.slots() == before.slots().update(i, info_view(slot)),
    {
        assert(self.slots() =~= before.slots().update(i, info_view(slot)));
    }

    /// Stores `thread` in the first free slot, marks it ready and queues it.
    /// Returns the slot's index, which is the new thread's id.
    pub fn add(&mut self, thread: Box<Thread>) -> (tid: Tid)
        requires
            old(self).wf(),
            old(self).has_free_slot(),
        ensures
            final(self).wf(),
            tid < old(self).slots().len(),
            slot_free(old(self).slots()[tid as int]),
            forall|j: int| 0 <= j < tid ==> !slot_free(#[trigger] old(self).slots()[j]),
            final(self).slots() == old(self).slots().update(
                tid as int,
                Some((Status::Ready, true, Some(*thread))),
            ),
            final(self).ready() == old(self).ready().push(tid),
            final(self).running() == old(self).running(),
    {
        let tid = match self.alloc_tid() {
            Some(t) => t,
            None => {
                proof {
                    let i = choose|i: int|
                        0 <= i < self.slots().len() && slot_free(#[trigger] self.slots()[i]);
                }
                return 0;
            },
        };
        let ghost before = *self;
        let slot = Some(ThreadInfo { status: Status::Ready, present: true, thread: Some(thread) });
        let _ = self.replace_slot(tid, slot);
        proof {
            self.lemma_slots_update(&before, tid as int, slot);
            if self.scheduler.ready().contains(tid) {
                let k = choose|k: int|
                    0 <= k < before.ready().len() && before.ready()[k] == tid;
                assert(before.slots()[tid as int] matches Some(v) && v.1);
            }
        }
        self.scheduler.push(tid);
        proof {
            assert forall|k: int| 0 <= k < self.ready().len() implies {
                let t = #[trigger] self.ready()[k];
                &&& t < self.threads@.len()
                &&& self.slots()[t as int] matches Some(v) && v.0 == Status::Ready && v.1
                    && v.2 is Some
            } by {
                if k < before.ready().len() {
                    assert(self.ready()[k] == before.ready()[k]);
                }
            }
        }
        tid
    }

    /// Hands out the next ready thread, marking its slot running and taking the
    /// thread out of it; `None` when no thread is ready.
    pub fn acquire(&mut self) -> (r: Option<(Tid, Box<Thread>)>)
        requires
            old(self).wf(),
        ensures
            final(self).wf(),
            old(self).ready().len() == 0 ==> r is None && final(self).slots() == old(self).slots()
                && final(self).ready() == old(self).ready() && final(self).running() == old(
                self,
            ).running(),
            old(self).ready().len() > 0 ==> {
                let t = old(self).ready()[0];
                &&& r matches Some(p) && p.0 == t
                &&& (old(self).slots()[t as int] matches Some(v) && v.2 == Some(*r.unwrap().1))
                &&& final(self).slots() == old(self).slots().update(
                    t as int,
                    Some((Status::Running(t), true, None)),
                )
                &&& final(self).ready() == old(self).ready().drop_first()
                &&& final(self).running() == Some(t)
            },
    {
        let ghost before = *self;
        match self.scheduler.pop() {
            Some(tid) => {
                assert(before.ready()[0] == tid);
                let prev = self.replace_slot(tid, None);
                let ghost mid = *self;
                match prev {
                    Some(info) => {
                        match info.thread {
                            Some(thread) => {
                                let slot = Some(
                                    ThreadInfo {
                                        status: Status::Running(tid),
                                        present: true,
                                        thread: None,
                                    },
                                );
                                let _ = self.replace_slot(tid, slot);
                                proof {
                                    self.lemma_slots_update(&mid, tid as int, slot);
                                    mid.lemma_slots_update(&before, tid as int, None);
                                    assert(self.slots() =~= before.slots().update(
                                        tid as int,
                                        Some((Status::Running(tid), true, None)),
                                    ));
                                    assert forall|k: int| 0 <= k < self.ready().len() implies {
                                        let t = #[trigger] self.ready()[k];
                                        &&& t < self.threads@.len()
                                        &&& self.slots()[t as int] matches Some(v) && v.0
                                            == Status::Ready && v.1 && v.2 is Some
                                    } by {
                                        assert(self.ready()[k] == before.ready()[k + 1]);
                                        assert(before.ready().no_duplicates()) by {
                                            before.scheduler.lemma_ready_distinct();
                                        }
                                    }
                                }
                                Some((tid, thread))
                            },
                            None => {
                                proof {
                                    assert(before.slots()[tid as int] matches Some(v) && v.2 is Some);
                                }
                                None
                            },
                        }
                    },
                    None => {
                        proof {
                            assert(before.slots()[tid as int] is Some);
                        }
                        None
                    },
                }
            },
            None => None,
        }
    }

    /// Every queued id names a present, ready slot that holds its thread.
    pub proof fn lemma_ready_slots(&self)
        requires
            self.wf(),
        ensures
            self.slots().len() <= usize::MAX - 2,
            forall|k: int|
                0 <= k < self.ready().len() ==> {
                    let t = #[trigger] self.ready()[k];
                    &&& t < self.slots().len()
                    &&& self.slots()[t as int] matches Some(v) && v.0 == Status::Ready && v.1
                        && v.2 is Some
                },
    {
    }

    /// No thread id is queued twice.
    pub proof fn lemma_ready_distinct(&self)
        requires
            self.wf(),
        ensures
            self.ready().no_duplicates(),
    {
        self.scheduler.lemma_ready_distinct();
    }

    /// Takes back a thread that stopped running. If its slot still holds it as
    /// running, the thread is stored, marked ready and queued again, and `None`
    /// is returned. Otherwise (it exited while away) the thread is handed back
    /// for the caller to release.
    pub fn retrieve(&mut self, tid: Tid, thread: Box<Thread>) -> (r: Option<Box<Thread>>)
        requires
            old(self).wf(),
            tid < old(self).slots().len(),
        ensures
            final(self).wf(),
            final(self).running() == old(self).running(),
            (old(self).slots()[tid as int] matches Some(v) && v.1 && v.0 is Running) ==> {
                &&& r is None
                &&& final(self).slots() == old(self).slots().update(
                    tid as int,
                    Some((Status::Ready, true, Some(*thread))),
                )
                &&& final(self).ready() == old(self).ready().push(tid)
            },
            !(old(self).slots()[tid as int] matches Some(v) && v.1 && v.0 is Running) ==> {
                &&& r == Some(thread)
                &&& final(self).slots() == old(self).slots()
                &&& final(self).ready() == old(self).ready()
            },
    {
        let ghost before = *self;
        let prev = self.replace_slot(tid, None);
        match prev {
            Some(info) => {
                if info.present && matches!(info.status, Status::Running(_)) {
                    let slot = Some(
                        ThreadInfo { status: Status::Ready, present: true, thread: Some(thread) },
                    );
                    let _ = self.replace_slot(tid, slot);
                    proof {
                        assert(self.threads@ =~= before.threads@.update(tid as int, slot));
                        self.lemma_slots_update(&before, tid as int, slot);
                        if before.ready().contains(tid) {
                            let k = choose|k: int|
                                0 <= k < before.ready().len() && before.ready()[k] == tid;
                            assert(before.slots()[tid as int] matches Some(v) && v.0
                                == Status::Ready);
                        }
                    }
                    self.scheduler.push(tid);
                    proof {
                        assert forall|k: int| 0 <= k < self.ready().len() implies {
                            let t = #[trigger] self.ready()[k];
                            &&& t < self.threads@.len()
                            &&& self.slots()[t as int] matches Some(v) && v.0 == Status::Ready
                                && v.1 && v.2 is Some
                        } by {
                            if k < before.ready().len() {
                                assert(self.ready()[k] == before.ready()[k]);
                            }
                        }
                    }
                    None
                } else {
                    let _ = self.replace_slot(tid, Some(info));
                    proof {
                        assert(self.threads@ =~= before.threads@);
                    }
                    Some(thread)
                }
            },
            None => {
                let _ = self.replace_slot(tid, None);
                proof {
                    assert(self.threads@ =~= before.threads@);
                }
                Some(thread)
            },
        }
    }

    /// Counts one tick against the running thread; true when it should be
    /// preempted.
    pub fn tick(&mut self) -> (r: bool)
        requires
            old(self).wf(),
        ensures
            final(self).wf(),
            final(self).slots() == old(self).slots(),
            final(self).ready() == old(self).ready(),
            final(self).running() == old(self).running(),
            final(self).scheduler_view().slice() == old(self).scheduler_view().slice(),
            match old(self).running() {
                None => r && forall|u: usize|
                    #[trigger] final(self).scheduler_view().slice_left(u) == old(
                        self,
                    ).scheduler_view().slice_left(u),
                Some(cur) => {
                    &&& r == (old(self).scheduler_view().slice_left(cur) <= 1)
                    &&& final(self).scheduler_view().slice_left(cur) == (if old(
                        self,
                    ).scheduler_view().slice_left(cur) == 0 {
                        0
                    } else {
                        (old(self).scheduler_view().slice_left(cur) - 1) as nat
                    })
                    &&& forall|u: usize|
                        u != cur ==> #[trigger] final(self).scheduler_view().slice_left(u) == old(
                            self,
                        ).scheduler_view().slice_left(u)
                },
            },
    {
        self.scheduler.tick()
    }

    /// Records that thread `tid` exited: its slot becomes free for reuse and
    /// the scheduler stops counting it as running.
    pub fn exit(&mut self, tid: Tid, code: usize)
        requires
            old(self).wf(),
            tid < old(self).slots().len(),
            !old(self).ready().contains(tid),
        ensures
            final(self).wf(),
            final(self).slots() == old(self).slots().update(
                tid as int,
                Some((Status::Ready, false, None)),
            ),
            final(self).ready() == old(self).ready(),
            final(self).running() == (if old(self).running() == Some(tid) {
                None
            } else {
                old(self).running()
            }),
    {
        let ghost before = *self;
        let slot = Some(ThreadInfo { status: Status::Ready, present: false, thread: None });
        let _ = self.replace_slot(tid, slot);
        proof {
            self.lemma_slots_update(&before, tid as int, slot);
            assert forall|k: int| 0 <= k < self.ready().len() implies {
                let t = #[trigger] self.ready()[k];
                &&& t < self.threads@.len()
                &&& self.slots()[t as int] matches Some(v) && v.0 == Status::Ready && v.1
                    && v.2 is Some
            } by {
                assert(before.ready()[k] != tid);
            }
        }
        self.scheduler.exit(tid);
    }
}

/// A thread added to a pool with nothing ready is the one the next `acquire`
/// hands out, and its slot then reads as running. `added` is `before` after
/// `add(thread)` returned `tid`; `acquired` is `added` after `acquire`
/// returned `r` (each as the two functions ensure).
pub proof fn lemma_add_then_acquire(
    before: ThreadPool,
    thread: Thread,
    tid: Tid,
    added: ThreadPool,
    r: Option<(Tid, Box<Thread>)>,
    acquired: ThreadPool,
)
    requires
        before.ready().len() == 0,
        tid < before.slots().len(),
        added.slots() == before.slots().update(tid as int, Some((Status::Ready, true, Some(thread)))),
        added.ready() == before.ready().push(tid),
        added.ready().len() > 0 ==> {
            let t = added.ready()[0];
            &&& r matches Some(p) && p.0 == t
            &&& (added.slots()[t as int] matches Some(v) && v.2 == Some(*r.unwrap().1))
            &&& acquired.slots() == added.slots().update(t as int, Some((Status::Running(t), true, None)))
        },
    ensures
        r matches Some(p) && p.0 == tid && *p.1 == thread,
        acquired.slots()[tid as int] == Some((Status::Running(tid), true, None::<Thread>)),
{
    assert(added.ready()[0] == tid);
}

/// An exited thread's id is free again: after `exit(tid, _)` took `before`
/// to `after`, the slot of `tid` may be taken by `add`, and if every slot
/// below it was in use, `tid` is the first free one, so `alloc_tid` returns it.
pub proof fn lemma_exit_frees_tid(before: ThreadPool, tid: Tid, after: ThreadPool)
    requires
        tid < before.slots().len(),
        after.slots() == before.slots().update(tid as int, Some((Status::Ready, false, None))),
    ensures
        slot_free(after.slots()[tid as int]),
        (forall|j: int| 0 <= j < tid ==> !slot_free(#[trigger] before.slots()[j])) ==> forall|j: int|
            0 <= j < tid ==> !slot_free(#[trigger] after.slots()[j]),
{
}

/// A thread that comes back after its id exited while it was away is
/// released, not stored: `retrieve` on `exited` (the pool after `exit(tid, _)`)
/// hands the thread back and leaves the slots and the ready list as they were.
pub proof fn lemma_retrieve_after_exit(
    before: ThreadPool,
    tid: Tid,
    exited: ThreadPool,
    thread: Box<Thread>,
    r: Option<Box<Thread>>,
    after: ThreadPool,
)
    requires
        tid < before.slots().len(),
        exited.slots() == before.slots().update(tid as int, Some((Status::Ready, false, None))),
        !(exited.slots()[tid as int] matches Some(v) && v.1 && v.0 is Running) ==> {
            &&& r == Some(thread)
            &&& after.slots() == exited.slots()
            &&& after.ready() == exited.ready()
        },
    ensures
        r == Some(thread),
        after.slots() == exited.slots(),
        after.ready() == exited.ready(),
{
}

} // verus!
