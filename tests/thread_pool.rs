use serica_os::context::Context;
use serica_os::process::scheduler::round_robin::RRScheduler;
use serica_os::process::structs::{KernelStack, Thread};
use serica_os::process::thread_pool::ThreadPool;

fn thread(n: usize) -> Box<Thread> {
    Box::new(Thread {
        context: Context { content_addr: 0x1000 * n + 0x800 },
        kstack: KernelStack(0x1000 * n),
    })
}

#[test]
fn add_then_acquire_yields_same_thread() {
    let mut pool = ThreadPool::new(10, RRScheduler::new(1));
    let tid = pool.add(thread(5));
    assert_eq!(tid, 0);
    let (t, th) = pool.acquire().unwrap();
    assert_eq!(t, 0);
    assert_eq!(*th, *thread(5));
    assert!(pool.acquire().is_none());
}

#[test]
fn exited_tid_is_reused() {
    let mut pool = ThreadPool::new(3, RRScheduler::new(1));
    assert_eq!(pool.add(thread(1)), 0);
    assert_eq!(pool.add(thread(2)), 1);
    let (t, _th) = pool.acquire().unwrap();
    assert_eq!(t, 0);
    pool.exit(0, 0);
    assert_eq!(pool.alloc_tid(), Some(0));
    assert_eq!(pool.add(thread(3)), 0);
    assert_eq!(pool.alloc_tid(), Some(2));
}

#[test]
fn full_pool_has_no_free_tid() {
    let mut pool = ThreadPool::new(2, RRScheduler::new(1));
    pool.add(thread(1));
    pool.add(thread(2));
    assert_eq!(pool.alloc_tid(), None);
}

#[test]
fn retrieve_after_exit_releases_thread() {
    let mut pool = ThreadPool::new(4, RRScheduler::new(1));
    pool.add(thread(1));
    let (tid, th) = pool.acquire().unwrap();
    pool.exit(tid, 3);
    let released = pool.retrieve(tid, th);
    assert_eq!(released.map(|b| *b), Some(*thread(1)));
    assert!(pool.acquire().is_none());
}

#[test]
fn retrieve_of_running_thread_requeues_it() {
    let mut pool = ThreadPool::new(4, RRScheduler::new(1));
    pool.add(thread(1));
    pool.add(thread(2));
    let (tid, th) = pool.acquire().unwrap();
    assert!(pool.retrieve(tid, th).is_none());
    assert_eq!(pool.acquire().unwrap().0, 1);
    assert_eq!(pool.acquire().unwrap().0, 0);
}

#[test]
fn pool_tick_follows_slice() {
    let mut pool = ThreadPool::new(4, RRScheduler::new(2));
    pool.add(thread(1));
    pool.acquire().unwrap();
    assert!(!pool.tick());
    assert!(pool.tick());
}
