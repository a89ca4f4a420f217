use serica_os::process::scheduler::round_robin::RRScheduler;

#[test]
fn pops_in_push_order() {
    let mut s = RRScheduler::new(1);
    for tid in [3usize, 0, 7, 2] {
        s.push(tid);
    }
    assert_eq!(s.pop(), Some(3));
    assert_eq!(s.pop(), Some(0));
    assert_eq!(s.pop(), Some(7));
    assert_eq!(s.pop(), Some(2));
    assert_eq!(s.pop(), None);
}

#[test]
fn requeued_thread_goes_behind_ready_ones() {
    let mut s = RRScheduler::new(1);
    s.push(0);
    s.push(1);
    s.push(2);
    assert_eq!(s.pop(), Some(0));
    s.push(0);
    assert_eq!(s.pop(), Some(1));
    assert_eq!(s.pop(), Some(2));
    assert_eq!(s.pop(), Some(0));
    assert_eq!(s.pop(), None);
}

#[test]
fn one_tick_slice_expires_at_once() {
    let mut s = RRScheduler::new(1);
    s.push(4);
    assert_eq!(s.pop(), Some(4));
    assert!(s.tick());
}

#[test]
fn three_tick_slice_expires_on_third_tick() {
    let mut s = RRScheduler::new(3);
    s.push(1);
    assert_eq!(s.pop(), Some(1));
    assert!(!s.tick());
    assert!(!s.tick());
    assert!(s.tick());
}

#[test]
fn tick_without_running_thread_preempts() {
    let mut s = RRScheduler::new(5);
    assert!(s.tick());
}

#[test]
fn unused_slice_is_kept_on_requeue() {
    let mut s = RRScheduler::new(3);
    s.push(0);
    assert_eq!(s.pop(), Some(0));
    assert!(!s.tick());
    s.push(0);
    assert_eq!(s.pop(), Some(0));
    // Two ticks were left of the slice.
    assert!(!s.tick());
    assert!(s.tick());
}

#[test]
fn spent_slice_is_renewed_on_requeue() {
    let mut s = RRScheduler::new(2);
    s.push(0);
    assert_eq!(s.pop(), Some(0));
    assert!(!s.tick());
    assert!(s.tick());
    s.push(0);
    assert_eq!(s.pop(), Some(0));
    assert!(!s.tick());
    assert!(s.tick());
}

#[test]
fn exit_forgets_running_thread() {
    let mut s = RRScheduler::new(3);
    s.push(2);
    assert_eq!(s.pop(), Some(2));
    s.exit(2);
    assert!(s.tick());
}
