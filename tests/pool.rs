use elastic_pool::{Count, Dispatch, Pool, Step, IDLE_EXIT_SECS};
use std::sync::atomic::{AtomicUsize, Ordering};
use std::sync::Arc;

fn is_wait<T>(s: &Step<T>) -> bool {
    matches!(s, Step::Wait)
}

fn is_wait_timeout<T>(s: &Step<T>) -> bool {
    matches!(s, Step::WaitTimeout)
}

fn run_of<T>(s: Step<T>) -> Option<T> {
    match s {
        Step::Run(t) => Some(t),
        _ => None,
    }
}

/// Starts `n` workers and lets each of them ask for work once.
fn start_idle<T>(pool: &mut Pool<T>, n: usize) -> Vec<Step<T>> {
    let mut steps = Vec::new();
    for _ in 0..n {
        pool.start();
    }
    for _ in 0..n {
        steps.push(pool.poll());
    }
    steps
}

#[test]
fn count_adds_and_subs() {
    let mut c = Count::new();
    assert_eq!(c.get(), 0);
    c.add();
    c.add();
    assert_eq!(c.get(), 2);
    c.sub();
    assert_eq!(c.get(), 1);
}

#[test]
fn with_capacity_is_empty_and_open() {
    let pool: Pool<u32> = Pool::with_capacity(3);
    assert_eq!(pool.floor(), 3);
    assert_eq!(pool.active(), 0);
    assert_eq!(pool.waiting(), 0);
    assert_eq!(pool.queued(), 0);
    assert!(!pool.is_closed());
}

#[test]
fn floor_workers_all_live_after_construction() {
    for f in [1usize, 2, 5, 16] {
        let mut pool: Pool<u32> = Pool::with_capacity(f);
        let steps = start_idle(&mut pool, f);
        assert_eq!(pool.active(), f);
        assert_eq!(pool.waiting(), f);
        assert!(steps.iter().all(is_wait));
    }
}

#[test]
fn idle_floor_never_shrinks() {
    let mut pool: Pool<u32> = Pool::with_capacity(4);
    let steps = start_idle(&mut pool, 4);
    assert!(steps.iter().all(is_wait));
    // A wait without deadline never times out; even a spurious wake-up
    // reported as a timeout retires nobody at the floor.
    for _ in 0..4 {
        assert!(!pool.wake(true));
        assert!(is_wait(&pool.poll()));
    }
    assert_eq!(pool.active(), 4);
}

#[test]
fn spawn_without_waiter_starts_new_thread() {
    let mut pool: Pool<u32> = Pool::with_capacity(0);
    match pool.spawn(7) {
        Dispatch::NewThread(t) => assert_eq!(t, 7),
        Dispatch::Queued => panic!("queued with nobody waiting"),
    }
    assert_eq!(pool.queued(), 0);
}

#[test]
fn spawn_with_waiter_queues() {
    let mut pool: Pool<u32> = Pool::with_capacity(1);
    start_idle(&mut pool, 1);
    assert!(matches!(pool.spawn(9), Dispatch::Queued));
    assert_eq!(pool.queued(), 1);
    assert!(!pool.wake(false));
    assert_eq!(run_of(pool.poll()), Some(9));
    assert_eq!(pool.queued(), 0);
}

#[test]
fn queued_tasks_run_in_order() {
    let mut pool: Pool<u32> = Pool::with_capacity(2);
    start_idle(&mut pool, 2);
    for t in [1u32, 2, 3, 4, 5] {
        assert!(matches!(pool.spawn(t), Dispatch::Queued));
    }
    assert!(!pool.wake(false));
    let mut got = Vec::new();
    while let Some(t) = run_of(pool.poll()) {
        got.push(t);
    }
    assert_eq!(got, vec![1, 2, 3, 4, 5]);
}

#[test]
fn busy_worker_second_task_gets_new_thread() {
    let mut pool: Pool<&str> = Pool::with_capacity(1);
    start_idle(&mut pool, 1);
    assert!(matches!(pool.spawn("long"), Dispatch::Queued));
    assert!(!pool.wake(false));
    assert_eq!(run_of(pool.poll()), Some("long"));
    // The only worker is busy: nobody waits, so the second task gets a
    // thread of its own at once.
    match pool.spawn("second") {
        Dispatch::NewThread(t) => assert_eq!(t, "second"),
        Dispatch::Queued => panic!("second task queued behind a busy worker"),
    }
    pool.start();
    assert_eq!(pool.active(), 2);
}

#[test]
fn idle_pool_shrinks_to_floor() {
    let mut pool: Pool<u32> = Pool::with_capacity(1);
    for _ in 0..3 {
        pool.start();
    }
    let mut exited = 0;
    for _ in 0..5 {
        let step = pool.poll();
        if pool.active() > 1 {
            assert!(is_wait_timeout(&step));
        } else {
            assert!(is_wait(&step));
        }
        if pool.wake(true) {
            exited += 1;
        }
    }
    assert_eq!(exited, 2);
    assert_eq!(pool.active(), 1);
    assert_eq!(pool.waiting(), 0);
}

#[test]
fn signalled_wake_above_floor_does_not_exit() {
    let mut pool: Pool<u32> = Pool::with_capacity(0);
    pool.start();
    assert!(is_wait_timeout(&pool.poll()));
    assert!(!pool.wake(false));
    assert_eq!(pool.active(), 1);
}

#[test]
fn timeout_with_work_queued_does_not_exit() {
    let mut pool: Pool<u32> = Pool::with_capacity(0);
    pool.start();
    pool.start();
    pool.poll();
    assert!(is_wait_timeout(&pool.poll()));
    assert!(matches!(pool.spawn(3), Dispatch::Queued));
    assert!(!pool.wake(true));
    assert_eq!(run_of(pool.poll()), Some(3));
    assert_eq!(pool.active(), 2);
}

#[test]
fn shutdown_retires_every_worker() {
    let mut pool: Pool<u32> = Pool::with_capacity(3);
    start_idle(&mut pool, 3);
    assert!(matches!(pool.spawn(1), Dispatch::Queued));
    pool.close();
    assert!(pool.is_closed());
    // Queued work is still drained first.
    assert!(!pool.wake(false));
    assert_eq!(run_of(pool.poll()), Some(1));
    assert!(is_wait_timeout(&pool.poll()));
    let mut exited = 0;
    while pool.waiting() > 0 {
        if pool.wake(true) {
            exited += 1;
        }
    }
    assert_eq!(exited, 3);
    assert_eq!(pool.active(), 0);
}

#[test]
fn leave_uncounts_a_failed_worker() {
    let mut pool: Pool<u32> = Pool::with_capacity(2);
    pool.start();
    pool.start();
    pool.leave();
    assert_eq!(pool.active(), 1);
}

#[test]
fn default_floor_is_cpu_count() {
    let pool: Pool<u32> = Pool::new();
    assert_eq!(pool.floor(), num_cpus::get());
    assert!(pool.floor() >= 1);
    assert_eq!(pool.active(), 0);
}

#[test]
fn idle_window_is_thirty_seconds() {
    assert_eq!(IDLE_EXIT_SECS, 30);
}

type Job = Box<dyn FnOnce() + Send>;

/// Drives a pool on one thread: each worker that is handed a task runs it
/// at once, and each queued task wakes one waiting worker, which runs the
/// queue until it has to wait again.
fn submit_and_drive(pool: &mut Pool<Job>, job: Job) {
    match pool.spawn(job) {
        Dispatch::NewThread(job) => {
            pool.start();
            job();
            drain(pool);
        }
        Dispatch::Queued => {
            assert!(!pool.wake(false));
            drain(pool);
        }
    }
}

fn drain(pool: &mut Pool<Job>) {
    loop {
        match pool.poll() {
            Step::Run(job) => job(),
            _ => return,
        }
    }
}

#[test]
fn hundred_counter_tasks_all_run_once() {
    let mut pool: Pool<Job> = Pool::with_capacity(2);
    for _ in 0..2 {
        pool.start();
        drain(&mut pool);
    }
    let counter = Arc::new(AtomicUsize::new(0));
    for _ in 0..100 {
        let c = counter.clone();
        submit_and_drive(&mut pool, Box::new(move || {
            c.fetch_add(1, Ordering::SeqCst);
        }));
    }
    assert_eq!(counter.load(Ordering::SeqCst), 100);
    assert_eq!(pool.queued(), 0);
    assert_eq!(pool.active(), 2);
}

#[test]
fn hundred_tasks_queued_then_drained() {
    let mut pool: Pool<Job> = Pool::with_capacity(2);
    for _ in 0..2 {
        pool.start();
        drain(&mut pool);
    }
    let counter = Arc::new(AtomicUsize::new(0));
    for _ in 0..100 {
        let c = counter.clone();
        assert!(matches!(pool.spawn(Box::new(move || {
            c.fetch_add(1, Ordering::SeqCst);
        })), Dispatch::Queued));
    }
    assert_eq!(pool.queued(), 100);
    assert!(!pool.wake(false));
    drain(&mut pool);
    assert_eq!(counter.load(Ordering::SeqCst), 100);
}

#[test]
fn pushes_into_moved_vectors() {
    let mut pool: Pool<Job> = Pool::new();
    let counter = Arc::new(AtomicUsize::new(0));
    for _ in 0..100 {
        let mut a: Vec<i32> = Vec::new();
        let c = counter.clone();
        submit_and_drive(&mut pool, Box::new(move || {
            a.push(123);
            assert_eq!(a, vec![123]);
            c.fetch_add(1, Ordering::SeqCst);
        }));
    }
    assert_eq!(counter.load(Ordering::SeqCst), 100);
}
