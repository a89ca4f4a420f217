//! Round-robin scheduling over thread ids.
//!
//! The ready list is circular and doubly linked through `prev` / `next`
//! indices, with a permanent dummy head at index 0; thread id `t` lives at
//! index `t + 1`. The ghost sequence `order` lists the ready entries from the
//! head onward, and `wf` ties the links to it.
use vstd::prelude::*;

verus! {

#[derive(Clone, Copy)]
struct RRInfo {
    valid: bool,
    /// Ticks left in the current time slice.
    time: usize,
    prev: usize,
    next: usize,
}

impl RRInfo {
    fn empty() -> (r: RRInfo)
        ensures
            r == (RRInfo { valid: false, time: 0, prev: 0, next: 0 }),
    {
        RRInfo { valid: false, time: 0, prev: 0, next: 0 }
    }
}

pub struct RRScheduler {
    threads: Vec<RRInfo>,
    max_time: usize,
    /// Index of the thread last handed out by `pop`, or 0 for none.
    current: usize,
    order: Ghost<Seq<usize>>,
}

impl RRScheduler {
    spec fn link_next(&self, k: int) -> usize {
        if k + 1 < self.order@.len() {
            self.order@[k + 1]
        } else {
            0
        }
    }

    spec fn link_prev(&self, k: int) -> usize {
        if k > 0 {
            self.order@[k - 1]
        } else {
            0
        }
    }

    pub closed spec fn wf(&self) -> bool {
        let q = self.order@;
        let t = self.threads@;
        &&& t.len() >= 1
        &&& self.current < t.len()
        &&& q.no_duplicates()
        &&& forall|k: int| 0 <= k < q.len() ==> 1 <= #[trigger] q[k] < t.len()
        &&& t[0].next == (if q.len() == 0 { 0 } else { q[0] })
        &&& t[0].prev == (if q.len() == 0 { 0 } else { q.last() })
        &&& forall|k: int|
            0 <= k < q.len() ==> #[trigger] t[q[k] as int].next == self.link_next(k)
                && t[q[k] as int].prev == self.link_prev(k)
        &&& forall|i: int| 1 <= i < t.len() ==> (#[trigger] t[i].valid <==> q.contains(i as usize))
    }

    /// The ready thread ids, the next to run first.
    pub closed spec fn ready(&self) -> Seq<usize> {
        self.order@.map_values(|i: usize| (i - 1) as usize)
    }

    /// The thread id last handed out by `pop` and not since exited.
    pub closed spec fn running(&self) -> Option<usize> {
        if self.current == 0 {
            None
        } else {
            Some((self.current - 1) as usize)
        }
    }

    /// Ticks left in the time slice of `tid`; 0 for a thread never seen.
    pub closed spec fn slice_left(&self, tid: usize) -> nat {
        if tid + 1 < self.threads@.len() {
            self.threads@[tid + 1].time as nat
        } else {
            0
        }
    }

    /// The time slice given to a thread whose previous one was used up.
    pub closed spec fn slice(&self) -> usize {
        self.max_time
    }

    /// A scheduler with an empty ready list and the given time slice (in ticks).
    pub fn new(max_time_slice: usize) -> (r: Self)
        ensures
            r.wf(),
            r.ready() == Seq::<usize>::empty(),
            r.running() is None,
            r.slice() == max_time_slice,
            forall|tid: usize| r.slice_left(tid) == 0,
    {
        let mut threads: Vec<RRInfo> = Vec::new();
        threads.push(RRInfo::empty());
        let r = RRScheduler {
            threads,
            max_time: max_time_slice,
            current: 0,
            order: Ghost(Seq::empty()),
        };
        assert(r.ready() =~= Seq::<usize>::empty());
        r
    }

    proof fn lemma_ready_contains(&self, tid: usize)
        requires
            self.wf(),
            tid + 1 <= usize::MAX,
        ensures
            self.ready().contains(tid) <==> self.order@.contains((tid + 1) as usize),
    {
        let q = self.order@;
        if self.ready().contains(tid) {
            let k = choose|k: int| 0 <= k < self.ready().len() && self.ready()[k] == tid;
            assert(q[k] == tid + 1);
        }
        if q.contains((tid + 1) as usize) {
            let k = choose|k: int| 0 <= k < q.len() && q[k] == tid + 1;
            assert(self.ready()[k] == tid);
        }
    }

    /// Changing only time slices keeps the list well formed.
    proof fn lemma_wf_time_only(a: Self, b: Self)
        requires
            a.wf(),
            a.order == b.order,
            a.current == b.current,
            a.threads@.len() == b.threads@.len(),
            forall|i: int|
                0 <= i < a.threads@.len() ==> a.threads@[i].next == b.threads@[i].next
                    && a.threads@[i].prev == b.threads@[i].prev && a.threads@[i].valid
                    == b.threads@[i].valid,
        ensures
            b.wf(),
    {
        let q = a.order@;
        assert forall|k: int| 0 <= k < q.len() implies #[trigger] b.threads@[q[k] as int].next
            == b.link_next(k) && b.threads@[q[k] as int].prev == b.link_prev(k) by {
            assert(a.threads@[q[k] as int].next == a.link_next(k));
        }
        assert forall|i: int| 1 <= i < b.threads@.len() implies (#[trigger] b.threads@[i].valid
            <==> q.contains(i as usize)) by {
            assert(a.threads@[i].valid <==> q.contains(i as usize));
        }
    }

    /// No thread id is ready twice.
    pub proof fn lemma_ready_distinct(&self)
        requires
            self.wf(),
        ensures
            self.ready().no_duplicates(),
    {
        let q = self.order@;
        assert forall|a: int, b: int|
            0 <= a < self.ready().len() && 0 <= b < self.ready().len() && a != b implies self.ready()[a]
            != self.ready()[b] by {
            assert(q[a] != q[b]);
        }
    }

    fn set_info(&mut self, i: usize, info: RRInfo)
        requires
            i < old(self).threads@.len(),
        ensures
            final(self).threads@ == old(self).threads@.update(i as int, info),
            final(self).max_time == old(self).max_time,
            final(self).current == old(self).current,
            final(self).order == old(self).order,
    {
        self.threads.set(i, info);
    }

    /// Appends `tid` to the tail of the ready list, first giving it a fresh
    /// time slice if its previous one was used up (or it was never seen).
    pub fn push(&mut self, tid: usize)
        requires
            old(self).wf(),
            !old(self).ready().contains(tid),
            tid + 2 <= usize::MAX,
        ensures
            final(self).wf(),
            final(self).ready() == old(self).ready().push(tid),
            final(self).running() == old(self).running(),
            final(self).slice() == old(self).slice(),
            final(self).slice_left(tid) == (if old(self).slice_left(tid) == 0 {
                old(self).slice() as nat
            } else {
                old(self).slice_left(tid)
            }),
            forall|u: usize| u != tid ==> final(self).slice_left(u) == old(self).slice_left(u),
    {
        let ghost old_self = *self;
        proof {
            self.lemma_ready_contains(tid);
        }
        let t = tid + 1;
        while self.threads.len() < t + 1
            invariant
                self.wf(),
                t == tid + 1,
                t + 1 <= usize::MAX,
                !self.order@.contains(t),
                self.order == old_self.order,
                self.current == old_self.current,
                self.max_time == old_self.max_time,
                self.threads@.len() >= old_self.threads@.len(),
                forall|i: int|
                    0 <= i < old_self.threads@.len() ==> self.threads@[i] == old_self.threads@[i],
                forall|i: int|
                    old_self.threads@.len() <= i < self.threads@.len() ==> self.threads@[i]
                        == (RRInfo { valid: false, time: 0, prev: 0, next: 0 }),
            decreases t + 1 - self.threads.len(),
        {
            self.threads.push(RRInfo::empty());
            assert forall|i: int| 1 <= i < self.threads@.len() implies (
            #[trigger] self.threads@[i].valid <==> self.order@.contains(i as usize)) by {
                if i == self.threads@.len() - 1 {
                    if self.order@.contains(i as usize) {
                        let k = choose|k: int|
                            0 <= k < self.order@.len() && self.order@[k] == i as usize;
                        assert(1 <= self.order@[k] < self.threads@.len() - 1);
                    }
                }
            }
        }
        let ghost q = self.order@;
        let ghost before_links = *self;
        let mut info = self.threads[t];
        if info.time == 0 {
            info.time = self.max_time;
        }
        info.valid = true;
        self.set_info(t, info);
        let prev = self.threads[0].prev;
        assert(prev == 0 || (q.len() > 0 && prev == q.last()));
        let mut pinfo = self.threads[prev];
        pinfo.next = t;
        self.set_info(prev, pinfo);
        let mut tinfo = self.threads[t];
        tinfo.prev = prev;
        self.set_info(t, tinfo);
        let mut hinfo = self.threads[0];
        hinfo.prev = t;
        self.set_info(0, hinfo);
        let mut tinfo = self.threads[t];
        tinfo.next = 0;
        self.set_info(t, tinfo);
        self.order = Ghost(q.push(t));
        proof {
            let nq = self.order@;
            let th = self.threads@;
            assert(forall|k: int| 0 <= k < q.len() ==> q[k] != t);
            assert(nq.no_duplicates()) by {
                assert forall|a: int, b: int|
                    0 <= a < nq.len() && 0 <= b < nq.len() && a != b implies nq[a] != nq[b] by {
                    if a < q.len() && b < q.len() {
                    } else if a < q.len() {
                        assert(q[a] != t);
                    } else if b < q.len() {
                        assert(q[b] != t);
                    }
                }
            }
            assert forall|k: int| 0 <= k < nq.len() implies #[trigger] th[nq[k] as int].next
                == self.link_next(k) && th[nq[k] as int].prev == self.link_prev(k) by {
                if k < q.len() {
                    assert(before_links.threads@[q[k] as int].next == before_links.link_next(k));
                    assert(before_links.threads@[q[k] as int].prev == before_links.link_prev(k));
                    if k + 1 < q.len() {
                        assert(q[k] != q.last()) by {
                            assert(q.no_duplicates());
                        }
                    }
                }
            }
            assert forall|i: int| 1 <= i < th.len() implies (#[trigger] th[i].valid
                <==> nq.contains(i as usize)) by {
                assert(before_links.threads@[i].valid <==> q.contains(i as usize));
                if i != t {
                    if nq.contains(i as usize) {
                        let k = choose|k: int| 0 <= k < nq.len() && nq[k] == i as usize;
                        assert(k < q.len());
                        assert(q.contains(i as usize));
                    }
                    if q.contains(i as usize) {
                        let k = choose|k: int| 0 <= k < q.len() && q[k] == i as usize;
                        assert(nq[k] == i);
                    }
                } else {
                    assert(nq[q.len() as int] == t);
                }
            }
            assert(self.ready() =~= old_self.ready().push(tid));
            assert forall|u: usize| u != tid implies self.slice_left(u) == old_self.slice_left(u) by {
                if u + 1 < self.threads@.len() && u + 1 >= old_self.threads@.len() {
                    assert(self.threads@[u + 1] == before_links.threads@[u + 1]);
                }
            }
        }
    }

    /// Takes the thread at the head of the ready list and remembers it as the
    /// running one; `None` when the list is empty.
    pub fn pop(&mut self) -> (r: Option<usize>)
        requires
            old(self).wf(),
        ensures
            final(self).wf(),
            final(self).slice() == old(self).slice(),
            forall|u: usize| final(self).slice_left(u) == old(self).slice_left(u),
            old(self).ready().len() == 0 ==> r is None && final(self).ready() == old(self).ready()
                && final(self).running() == old(self).running(),
            old(self).ready().len() > 0 ==> r == Some(old(self).ready()[0]) && final(self).ready()
                == old(self).ready().drop_first() && final(self).running() == r,
    {
        let ghost q = self.order@;
        let ghost old_self = *self;
        let ret = self.threads[0].next;
        if ret != 0 {
            assert(q.len() > 0);
            let next = self.threads[ret].next;
            let prev = self.threads[ret].prev;
            assert(prev == 0);
            assert(next == 0 || (q.len() > 1 && next == q[1]));
            let mut ninfo = self.threads[next];
            ninfo.prev = prev;
            self.set_info(next, ninfo);
            let mut pinfo = self.threads[prev];
            pinfo.next = next;
            self.set_info(prev, pinfo);
            let mut rinfo = self.threads[ret];
            rinfo.prev = 0;
            rinfo.next = 0;
            rinfo.valid = false;
            self.set_info(ret, rinfo);
            self.current = ret;
            self.order = Ghost(q.drop_first());
            proof {
                let nq = self.order@;
                let th = self.threads@;
                assert(forall|k: int| 1 <= k < q.len() ==> q[k] != ret);
                assert forall|k: int| 0 <= k < nq.len() implies #[trigger] th[nq[k] as int].next
                    == self.link_next(k) && th[nq[k] as int].prev == self.link_prev(k) by {
                    assert(nq[k] == q[k + 1]);
                    assert(old_self.threads@[q[k + 1] as int].next == old_self.link_next(k + 1));
                    assert(old_self.threads@[q[k + 1] as int].prev == old_self.link_prev(k + 1));
                    if k > 0 {
                        assert(q[k + 1] != q[1]) by {
                            assert(q.no_duplicates());
                        }
                    }
                }
                assert(q[0] == ret);
                assert forall|k: int| 0 <= k < nq.len() implies nq[k] == q[k + 1] by {}
                assert forall|i: int| 1 <= i < th.len() implies (#[trigger] th[i].valid
                    <==> nq.contains(i as usize)) by {
                    assert(old_self.threads@[i].valid <==> q.contains(i as usize));
                    assert(i < self.threads.len());
                    if i != ret {
                        if nq.contains(i as usize) {
                            let k = choose|k: int| 0 <= k < nq.len() && nq[k] == i as usize;
                            assert(q[k + 1] == i);
                        }
                        if q.contains(i as usize) {
                            let k = choose|k: int| 0 <= k < q.len() && q[k] == i as usize;
                            assert(k != 0);
                            assert(nq[k - 1] == i);
                        }
                    } else {
                        if nq.contains(i as usize) {
                            let k = choose|k: int| 0 <= k < nq.len() && nq[k] == i as usize;
                            assert(q[k + 1] == ret);
                        }
                    }
                }
                assert(self.ready() =~= old_self.ready().drop_first());
                assert forall|u: usize| self.slice_left(u) == old_self.slice_left(u) by {
                }
            }
            Some(ret - 1)
        } else {
            None
        }
    }

    /// Counts one tick against the running thread. Returns true when the caller
    /// should preempt: the running thread's slice has now run out (or had
    /// already), or no thread is running.
    pub fn tick(&mut self) -> (r: bool)
        requires
            old(self).wf(),
        ensures
            final(self).wf(),
            final(self).ready() == old(self).ready(),
            final(self).running() == old(self).running(),
            final(self).slice() == old(self).slice(),
            match old(self).running() {
                None => r && forall|u: usize| final(self).slice_left(u) == old(self).slice_left(u),
                Some(cur) => {
                    &&& r == (old(self).slice_left(cur) <= 1)
                    &&& final(self).slice_left(cur) == (if old(self).slice_left(cur) == 0 {
                        0
                    } else {
                        (old(self).slice_left(cur) - 1) as nat
                    })
                    &&& forall|u: usize|
                        u != cur ==> final(self).slice_left(u) == old(self).slice_left(u)
                },
            },
    {
        let tid = self.current;
        if tid != 0 {
            let mut info = self.threads[tid];
            if info.time > 0 {
                info.time = info.time - 1;
            }
            let ghost before = *self;
            self.set_info(tid, info);
            proof {
                Self::lemma_wf_time_only(before, *self);
            }
            info.time == 0
        } else {
            true
        }
    }

    /// Forgets `tid` as the running thread, if it is the one.
    pub fn exit(&mut self, tid: usize)
        requires
            old(self).wf(),
            tid < usize::MAX,
        ensures
            final(self).wf(),
            final(self).ready() == old(self).ready(),
            final(self).slice() == old(self).slice(),
            forall|u: usize| final(self).slice_left(u) == old(self).slice_left(u),
            final(self).running() == (if old(self).running() == Some(tid) {
                None
            } else {
                old(self).running()
            }),
    {
        let tid = tid + 1;
        if self.current == tid {
            self.current = 0;
        }
    }
}

/// Round-robin order is first in, first out. Start from a scheduler with no
/// ready thread, push the ids of `pushed` one by one (each state the ready list
/// of the one before with the next id appended, as `push` ensures), then pop
/// as many times (each state the one before without its head, as `pop`
/// ensures): the `j`-th pop hands out `pushed[j]`, and the list ends empty.
pub proof fn lemma_fifo_order(
    pushed: Seq<usize>,
    after_push: Seq<RRScheduler>,
    after_pop: Seq<RRScheduler>,
)
    requires
        after_push.len() == pushed.len() + 1,
        after_push[0].ready().len() == 0,
        forall|i: int|
            0 <= i < pushed.len() ==> #[trigger] after_push[i + 1].ready() == after_push[i].ready().push(
                pushed[i],
            ),
        after_pop.len() == pushed.len() + 1,
        after_pop[0].ready() == after_push.last().ready(),
        forall|j: int|
            0 <= j < pushed.len() ==> #[trigger] after_pop[j + 1].ready()
                == after_pop[j].ready().drop_first(),
    ensures
        forall|j: int|
            0 <= j < pushed.len() ==> after_pop[j].ready().len() > 0 && #[trigger] after_pop[j].ready()[0]
                == pushed[j],
        after_pop.last().ready().len() == 0,
{
    assert forall|i: int| 0 <= i <= pushed.len() implies #[trigger] after_push[i].ready()
        == pushed.take(i) by {
        lemma_pushes_prefix(pushed, after_push, i);
    }
    assert(pushed.take(pushed.len() as int) =~= pushed);
    assert(after_push.last() == after_push[pushed.len() as int]);
    assert forall|j: int| 0 <= j <= pushed.len() implies #[trigger] after_pop[j].ready()
        == pushed.skip(j) by {
        lemma_pops_suffix(pushed, after_pop, j);
    }
    assert(after_pop.last().ready() == after_pop[pushed.len() as int].ready());
}

proof fn lemma_pushes_prefix(pushed: Seq<usize>, after_push: Seq<RRScheduler>, i: int)
    requires
        after_push.len() == pushed.len() + 1,
        after_push[0].ready().len() == 0,
        forall|i: int|
            0 <= i < pushed.len() ==> #[trigger] after_push[i + 1].ready() == after_push[i].ready().push(
                pushed[i],
            ),
        0 <= i <= pushed.len(),
    ensures
        after_push[i].ready() == pushed.take(i),
    decreases i,
{
    if i == 0 {
        assert(pushed.take(0) =~= after_push[0].ready());
    } else {
        lemma_pushes_prefix(pushed, after_push, i - 1);
        assert(after_push[i].ready() == after_push[i - 1].ready().push(pushed[i - 1]));
        assert(pushed.take(i) =~= pushed.take(i - 1).push(pushed[i - 1]));
    }
}

proof fn lemma_pops_suffix(pushed: Seq<usize>, after_pop: Seq<RRScheduler>, j: int)
    requires
        after_pop.len() == pushed.len() + 1,
        after_pop[0].ready() == pushed,
        forall|j: int|
            0 <= j < pushed.len() ==> #[trigger] after_pop[j + 1].ready()
                == after_pop[j].ready().drop_first(),
        0 <= j <= pushed.len(),
    ensures
        after_pop[j].ready() == pushed.skip(j),
    decreases j,
{
    if j == 0 {
        assert(pushed.skip(0) =~= pushed);
    } else {
        lemma_pops_suffix(pushed, after_pop, j - 1);
        let jm = j - 1;
        assert(after_pop[jm + 1].ready() == after_pop[jm].ready().drop_first());
        let a = pushed.skip(j - 1);
        assert(a.len() == pushed.len() - j + 1);
        assert forall|k: int| 0 <= k < pushed.len() - j implies #[trigger] a.drop_first()[k]
            == pushed.skip(j)[k] by {
            assert(a.drop_first()[k] == a[k + 1]);
        }
        assert(pushed.skip(j) =~= a.drop_first());
    }
}

/// A thread re-queued right after it was popped goes behind every thread that
/// is ready at that moment: popping from `before` handed out `tid` and left
/// `popped`, and pushing `tid` onto that gave `requeued`.
pub proof fn lemma_requeue_goes_last(
    before: RRScheduler,
    popped: RRScheduler,
    requeued: RRScheduler,
    tid: usize,
)
    requires
        before.ready().len() > 0,
        before.ready()[0] == tid,
        popped.ready() == before.ready().drop_first(),
        requeued.ready() == popped.ready().push(tid),
    ensures
        requeued.ready().len() == before.ready().len(),
        requeued.ready().last() == tid,
        forall|k: int|
            0 <= k < popped.ready().len() ==> #[trigger] requeued.ready()[k] == before.ready()[k + 1],
{
}

} // verus!
