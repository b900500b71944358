use webserver_book::dispatch::{Action, Dispatcher, WorkerState};

fn pool(n: usize) -> Dispatcher<u64> {
    assert!(n > 0);
    Dispatcher::new(n)
}

fn take(d: &mut Dispatcher<u64>, w: usize) -> Option<u64> {
    match d.receive(w) {
        Action::Run(t) => Some(t),
        _ => None,
    }
}

/// Runs the pool to the end with the workers taking turns in id order, each
/// finishing its task before the next one asks; returns the tasks in the
/// order they ran.
fn drive_round_robin(d: &mut Dispatcher<u64>) -> Vec<u64> {
    let mut ran = Vec::new();
    let n = d.worker_count();
    let mut guard = 0;
    while !d.is_drained() {
        for w in 0..n {
            match d.receive(w) {
                Action::Run(t) => {
                    ran.push(t);
                    d.finish(w);
                }
                Action::Exit | Action::Wait => {}
            }
        }
        guard += 1;
        assert!(guard < 10_000, "the pool never drained");
    }
    ran
}

#[test]
fn new_pool_has_idle_workers() {
    let d = pool(4);
    assert_eq!(d.worker_count(), 4);
    for w in 0..4 {
        assert_eq!(d.state(w), WorkerState::Idle);
    }
    assert!(!d.is_closing());
    assert!(!d.is_drained());
}

#[test]
fn idle_pool_teardown_terminates_every_worker() {
    for n in 1..6 {
        let mut d = pool(n);
        d.shutdown();
        for w in 0..n {
            assert!(!d.is_drained());
            assert!(matches!(d.receive(w), Action::Exit));
            assert_eq!(d.state(w), WorkerState::Terminated);
        }
        assert!(d.is_drained());
    }
}

#[test]
fn every_task_runs_exactly_once() {
    let mut d = pool(3);
    for t in 0..10u64 {
        d.submit(t);
    }
    d.shutdown();
    let ran = drive_round_robin(&mut d);
    assert_eq!(ran, (0..10u64).collect::<Vec<u64>>());
}

#[test]
fn distinct_ids_recorded_regardless_of_worker_count() {
    for n in [1usize, 2, 4, 16] {
        for k in [0u64, 1, 3, 8, 20] {
            let mut d = pool(n);
            for t in 0..k {
                d.submit(100 + t);
            }
            d.shutdown();
            let mut ran = drive_round_robin(&mut d);
            ran.sort();
            ran.dedup();
            assert_eq!(ran.len() as u64, k);
            assert_eq!(ran, (0..k).map(|t| 100 + t).collect::<Vec<u64>>());
        }
    }
}

#[test]
fn teardown_waits_for_busy_worker() {
    let mut d = pool(2);
    d.submit(7);
    assert_eq!(take(&mut d, 0), Some(7));
    d.shutdown();
    // The busy worker is told to wait, the other takes a signal and leaves.
    assert!(matches!(d.receive(0), Action::Wait));
    assert!(matches!(d.receive(1), Action::Exit));
    assert!(!d.is_drained());
    assert_eq!(d.state(0), WorkerState::Busy);
    d.finish(0);
    assert!(!d.is_drained());
    assert!(matches!(d.receive(0), Action::Exit));
    assert!(d.is_drained());
}

#[test]
fn two_workers_run_two_tasks_side_by_side() {
    let mut d = pool(2);
    let mut list = Vec::new();
    d.submit(0);
    d.submit(1);
    let a = take(&mut d, 0).unwrap();
    let b = take(&mut d, 1).unwrap();
    // Both tasks are in flight at once, one on each worker.
    assert_eq!(d.state(0), WorkerState::Busy);
    assert_eq!(d.state(1), WorkerState::Busy);
    list.push(a);
    d.finish(0);
    list.push(b);
    d.finish(1);
    d.shutdown();
    assert!(matches!(d.receive(0), Action::Exit));
    assert!(matches!(d.receive(1), Action::Exit));
    assert!(d.is_drained());
    assert_eq!(list.len(), 2);
    assert!(list.contains(&0) && list.contains(&1));
}

#[test]
fn single_worker_runs_tasks_in_order() {
    let mut d = pool(1);
    for t in 0..3u64 {
        d.submit(t);
    }
    let mut stamps = Vec::new();
    let mut clock = 0u64;
    for _ in 0..3 {
        let t = take(&mut d, 0).unwrap();
        // One task at a time: a second request while busy gets nothing.
        assert!(matches!(d.receive(0), Action::Wait));
        clock += 1;
        stamps.push((clock, t));
        d.finish(0);
    }
    assert_eq!(stamps, vec![(1, 0), (2, 1), (3, 2)]);
    assert!(stamps.windows(2).all(|p| p[0].0 < p[1].0));
}

#[test]
fn tasks_sent_before_teardown_run_before_any_worker_leaves() {
    let mut d = pool(2);
    d.submit(1);
    d.submit(2);
    d.shutdown();
    assert_eq!(take(&mut d, 1), Some(1));
    assert_eq!(take(&mut d, 0), Some(2));
    d.finish(1);
    assert!(matches!(d.receive(1), Action::Exit));
    d.finish(0);
    assert!(matches!(d.receive(0), Action::Exit));
    assert!(d.is_drained());
}

#[test]
fn shutdown_closes_the_pool() {
    let mut d = pool(2);
    d.submit(4);
    assert!(!d.is_closing());
    d.shutdown();
    assert!(d.is_closing());
    assert_eq!(take(&mut d, 0), Some(4));
    assert!(matches!(d.receive(1), Action::Exit));
    d.finish(0);
    assert!(matches!(d.receive(0), Action::Exit));
    assert!(d.is_drained());
}

#[test]
fn receive_on_empty_queue_waits() {
    let mut d = pool(2);
    assert!(matches!(d.receive(0), Action::Wait));
    assert_eq!(d.state(0), WorkerState::Idle);
}

#[test]
fn receive_by_unknown_worker_waits() {
    let mut d = pool(2);
    d.submit(5);
    assert!(matches!(d.receive(2), Action::Wait));
    assert_eq!(take(&mut d, 1), Some(5));
}

#[test]
fn finish_by_idle_or_unknown_worker_changes_nothing() {
    let mut d = pool(1);
    d.finish(0);
    d.finish(3);
    assert_eq!(d.state(0), WorkerState::Idle);
}

#[test]
fn terminated_worker_takes_nothing_more() {
    let mut d = pool(1);
    d.shutdown();
    assert!(matches!(d.receive(0), Action::Exit));
    assert!(matches!(d.receive(0), Action::Wait));
    assert_eq!(d.state(0), WorkerState::Terminated);
}
