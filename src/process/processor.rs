//! The processor: the thread pool, the idle thread and the running thread.
//!
//! Scheduling alternates with context switches, which the caller performs:
//! `switch_in` picks the thread to switch to from idle, `switch_back` takes it
//! back once it has switched to idle again, `tick` says whether the running
//! thread must switch to idle now, and `exit` records that it is finishing.
use vstd::prelude::*;
use crate::process::structs::{Status, Thread, Tid};
use crate::process::thread_pool::{slot_free, ThreadPool};

verus! {

pub struct ProcessorInner {
    pub pool: Box<ThreadPool>,
    pub idle: Box<Thread>,
    pub current: Option<(Tid, Box<Thread>)>,
}

pub struct Processor {
    pub inner: Option<ProcessorInner>,
}

impl ProcessorInner {
    pub open spec fn wf(&self) -> bool {
        &&& self.pool.wf()
        &&& self.current matches Some(c) ==> {
            &&& c.0 < self.pool.slots().len()
            &&& !self.pool.ready().contains(c.0)
        }
    }
}

impl Processor {
    pub open spec fn wf(&self) -> bool {
        self.inner matches Some(inner) ==> inner.wf()
    }

    pub open spec fn initialized(&self) -> bool {
        self.inner is Some
    }

    pub open spec fn pool(&self) -> ThreadPool {
        *self.inner.unwrap().pool
    }

    pub open spec fn current_tid(&self) -> Option<Tid> {
        match self.inner.unwrap().current {
            Some(c) => Some(c.0),
            None => None,
        }
    }

    /// A processor not yet given its threads.
    pub fn new() -> (r: Processor)
        ensures
            r.wf(),
            !r.initialized(),
    {
        Processor { inner: None }
    }

    /// Installs the idle thread and the pool, with no thread running.
    pub fn init(&mut self, idle: Box<Thread>, pool: Box<ThreadPool>)
        requires
            pool.wf(),
        ensures
            final(self).wf(),
            final(self).initialized(),
            final(self).pool() == *pool,
            final(self).current_tid() is None,
            final(self).inner.unwrap().idle == idle,
    {
        self.inner = Some(ProcessorInner { pool, idle, current: None });
    }

    /// Adds a thread to the pool; returns its id. A running thread must not
    /// have exited, so that its id is not handed out again while it runs.
    pub fn add_thread(&mut self, thread: Box<Thread>) -> (tid: Tid)
        requires
            old(self).wf(),
            old(self).initialized(),
            old(self).pool().has_free_slot(),
            old(self).current_tid() matches Some(c) ==> !slot_free(old(self).pool().slots()[c as int]),
        ensures
            final(self).wf(),
            final(self).initialized(),
            final(self).current_tid() == old(self).current_tid(),
            final(self).pool().slots() == old(self).pool().slots().update(
                tid as int,
                Some((Status::Ready, true, Some(*thread))),
            ),
            final(self).pool().ready() == old(self).pool().ready().push(tid),
            tid < old(self).pool().slots().len(),
            slot_free(old(self).pool().slots()[tid as int]),
            forall|j: int| 0 <= j < tid ==> !slot_free(#[trigger] old(self).pool().slots()[j]),
            final(self).inner.unwrap().idle == old(self).inner.unwrap().idle,
            final(self).pool().running() == old(self).pool().running(),
    {
        let mut inner = self.inner.take().unwrap();
        let tid = inner.pool.add(thread);
        self.inner = Some(inner);
        tid
    }

    /// Picks the next thread to run and makes it current; the caller then
    /// switches from idle into it. `None` when no thread is ready, and the
    /// caller waits for an interrupt.
    pub fn switch_in(&mut self) -> (r: Option<Tid>)
        requires
            old(self).wf(),
            old(self).initialized(),
            old(self).current_tid() is None,
        ensures
            final(self).wf(),
            final(self).initialized(),
            old(self).pool().ready().len() == 0 ==> r is None && final(self).current_tid() is None
                && final(self).pool().slots() == old(self).pool().slots()
                && final(self).pool().ready() == old(self).pool().ready(),
            old(self).pool().ready().len() > 0 ==> {
                let t = old(self).pool().ready()[0];
                &&& r == Some(t)
                &&& final(self).current_tid() == Some(t)
                &&& (old(self).pool().slots()[t as int] matches Some(v) && v.2 == Some(
                    *final(self).inner.unwrap().current.unwrap().1,
                ))
                &&& final(self).pool().slots() == old(self).pool().slots().update(
                    t as int,
                    Some((Status::Running(t), true, None)),
                )
                &&& final(self).pool().ready() == old(self).pool().ready().drop_first()
            },
    {
        let mut inner = self.inner.take().unwrap();
        let ghost before = *inner.pool;
        proof {
            inner.pool.lemma_ready_distinct();
            inner.pool.lemma_ready_slots();
        }
        let acquired = inner.pool.acquire();
        let r = match acquired {
            Some(pair) => {
                let tid = pair.0;
                proof {
                    let q = before.ready();
                    assert(q[0] == tid);
                    if inner.pool.ready().contains(tid) {
                        let k = choose|k: int|
                            0 <= k < inner.pool.ready().len() && inner.pool.ready()[k] == tid;
                        assert(q[k + 1] == q[0]);
                    }
                }
                inner.current = Some(pair);
                Some(tid)
            },
            None => None,
        };
        self.inner = Some(inner);
        r
    }

    /// Takes back the current thread once it has switched to idle and returns
    /// it to the pool. Returns its id and, if it exited meanwhile, the thread
    /// itself for the caller to release.
    pub fn switch_back(&mut self) -> (r: (Tid, Option<Box<Thread>>))
        requires
            old(self).wf(),
            old(self).initialized(),
            old(self).current_tid() is Some,
        ensures
            final(self).wf(),
            final(self).initialized(),
            final(self).current_tid() is None,
            r.0 == old(self).current_tid().unwrap(),
            (old(self).pool().slots()[r.0 as int] matches Some(v) && v.1 && v.0 is Running) ==> {
                &&& r.1 is None
                &&& final(self).pool().slots() == old(self).pool().slots().update(
                    r.0 as int,
                    Some((Status::Ready, true, Some(*old(self).inner.unwrap().current.unwrap().1))),
                )
                &&& final(self).pool().ready() == old(self).pool().ready().push(r.0)
            },
            !(old(self).pool().slots()[r.0 as int] matches Some(v) && v.1 && v.0 is Running) ==> {
                &&& r.1 == Some(old(self).inner.unwrap().current.unwrap().1)
                &&& final(self).pool().slots() == old(self).pool().slots()
                &&& final(self).pool().ready() == old(self).pool().ready()
            },
    {
        let mut inner = self.inner.take().unwrap();
        let (tid, thread) = inner.current.take().unwrap();
        let released = inner.pool.retrieve(tid, thread);
        self.inner = Some(inner);
        (tid, released)
    }

    /// Called on every timer tick: true when a thread is running and its time
    /// slice ran out, so that it must switch to idle now.
    pub fn tick(&mut self) -> (r: bool)
        requires
            old(self).wf(),
            old(self).initialized(),
        ensures
            final(self).wf(),
            final(self).initialized(),
            final(self).current_tid() == old(self).current_tid(),
            final(self).pool().slots() == old(self).pool().slots(),
            final(self).pool().ready() == old(self).pool().ready(),
            r == (old(self).current_tid() is Some && match old(self).pool().running() {
                None => true,
                Some(cur) => old(self).pool().scheduler_view().slice_left(cur) <= 1,
            }),
            final(self).inner.unwrap().idle == old(self).inner.unwrap().idle,
            final(self).pool().running() == old(self).pool().running(),
            old(self).current_tid() is None ==> final(self).pool() == old(self).pool(),
            (old(self).current_tid() is Some && old(self).pool().running() is Some) ==> {
                let cur = old(self).pool().running().unwrap();
                &&& final(self).pool().scheduler_view().slice_left(cur) == (if old(
                    self,
                ).pool().scheduler_view().slice_left(cur) == 0 {
                    0
                } else {
                    (old(self).pool().scheduler_view().slice_left(cur) - 1) as nat
                })
                &&& forall|u: usize|
                    u != cur ==> #[trigger] final(self).pool().scheduler_view().slice_left(u) == old(
                        self,
                    ).pool().scheduler_view().slice_left(u)
            },
    {
        let mut inner = self.inner.take().unwrap();
        let r = if inner.current.is_some() {
            inner.pool.tick()
        } else {
            false
        };
        self.inner = Some(inner);
        r
    }

    /// The current thread is finishing with `code`: its slot is freed and the
    /// scheduler forgets it. Returns its id; the caller then switches to idle
    /// for good.
    pub fn exit(&mut self, code: usize) -> (tid: Tid)
        requires
            old(self).wf(),
            old(self).initialized(),
            old(self).current_tid() is Some,
        ensures
            final(self).wf(),
            final(self).initialized(),
            tid == old(self).current_tid().unwrap(),
            final(self).current_tid() == old(self).current_tid(),
            final(self).pool().slots() == old(self).pool().slots().update(
                tid as int,
                Some((Status::Ready, false, None)),
            ),
            final(self).pool().ready() == old(self).pool().ready(),
            final(self).pool().running() == (if old(self).pool().running() == Some(tid) {
                None
            } else {
                old(self).pool().running()
            }),
            final(self).inner.unwrap().idle == old(self).inner.unwrap().idle,
    {
        let mut inner = self.inner.take().unwrap();
        let tid = match &inner.current {
            Some(c) => c.0,
            None => 0,
        };
        inner.pool.exit(tid, code);
        self.inner = Some(inner);
        tid
    }
}

} // verus!
