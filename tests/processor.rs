use serica_os::context::Context;
use serica_os::process;
use serica_os::process::structs::{KernelStack, Thread};

fn kernel_thread(n: usize) -> Box<Thread> {
    Box::new(Thread {
        context: Context { content_addr: 0x10000 * (n + 1) - 0x100 },
        kstack: KernelStack(0x10000 * n),
    })
}

/// Five threads, each running two iterations (one tick each) and then
/// exiting, under a one-tick slice.
#[test]
fn five_threads_run_to_completion() {
    let mut cpu = process::init(Box::new(Thread {
        context: Context::null(),
        kstack: KernelStack(0x80_0000),
    }));
    let threads: Vec<Box<Thread>> = (0..5).map(kernel_thread).collect();
    let tids = process::run(&mut cpu, threads);
    assert_eq!(tids, vec![0, 1, 2, 3, 4]);

    let mut iterations = [0usize; 5];
    let mut output = String::new();
    let mut ran = Vec::new();
    let mut exited = Vec::new();
    while let Some(tid) = cpu.switch_in() {
        ran.push(tid);
        // The thread prints its digit four times per iteration.
        for _ in 0..4 {
            output.push_str(&tid.to_string());
        }
        iterations[tid] += 1;
        if iterations[tid] == 2 {
            assert_eq!(process::exit(&mut cpu, 0), tid);
            exited.push(tid);
        } else {
            assert!(process::tick(&mut cpu));
        }
        let (back, released) = cpu.switch_back();
        assert_eq!(back, tid);
        assert_eq!(released.is_some(), iterations[tid] == 2);
    }
    assert_eq!(ran, vec![0, 1, 2, 3, 4, 0, 1, 2, 3, 4]);
    assert_eq!(exited, vec![0, 1, 2, 3, 4]);
    assert_eq!(iterations, [2; 5]);
    for d in 0..5 {
        let count = output.chars().filter(|c| *c == char::from(b'0' + d as u8)).count();
        assert_eq!(count, 8);
    }
    // The ready list is empty and all five slots are free again.
    assert!(cpu.switch_in().is_none());
    assert_eq!(cpu.inner.as_ref().unwrap().pool.alloc_tid(), Some(0));
    for expected in 0..5 {
        assert_eq!(cpu.add_thread(kernel_thread(9)), expected);
    }
}

#[test]
fn tick_without_current_thread_does_not_preempt() {
    let mut cpu = process::init(Box::new(Thread {
        context: Context::null(),
        kstack: KernelStack(0),
    }));
    assert!(!process::tick(&mut cpu));
}

#[test]
fn freed_slots_are_taken_again_in_order() {
    let mut cpu = process::init(Box::new(Thread {
        context: Context::null(),
        kstack: KernelStack(0),
    }));
    let tids = process::run(&mut cpu, (0..5).map(kernel_thread).collect());
    assert_eq!(tids.len(), 5);
    while let Some(tid) = cpu.switch_in() {
        process::exit(&mut cpu, 0);
        let (back, released) = cpu.switch_back();
        assert_eq!(back, tid);
        assert!(released.is_some());
    }
    for expected in 0..5 {
        assert_eq!(cpu.add_thread(kernel_thread(9)), expected);
    }
}
