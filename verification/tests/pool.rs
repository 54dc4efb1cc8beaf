use gsr::pool::Dispatcher;
use gsr::WORKERS;

#[test]
fn running_never_exceeds_the_slot_count() {
    let n = 3;
    let mut pool = Dispatcher::new(n);
    for _ in 0..10 {
        pool.submit();
        assert!(pool.running <= n);
    }
    assert_eq!(pool.running, n);
    assert_eq!(pool.queued, 7);
    while pool.running > 0 {
        pool.task_finished();
        assert!(pool.running <= n);
    }
    assert!(pool.idle());
}

#[test]
fn a_task_starts_at_once_when_a_slot_is_free() {
    let mut pool = Dispatcher::new(2);
    pool.submit();
    assert_eq!(pool.running, 1);
    assert_eq!(pool.queued, 0);
    pool.submit();
    assert_eq!(pool.running, 2);
    assert_eq!(pool.queued, 0);
    pool.submit();
    assert_eq!(pool.running, 2);
    assert_eq!(pool.queued, 1);
}

#[test]
fn a_finished_task_hands_its_slot_to_a_waiting_one() {
    let mut pool = Dispatcher::new(1);
    pool.submit();
    pool.submit();
    assert_eq!(pool.running, 1);
    assert_eq!(pool.queued, 1);
    pool.task_finished();
    assert_eq!(pool.running, 1);
    assert_eq!(pool.queued, 0);
    pool.task_finished();
    assert!(pool.idle());
}

#[test]
fn default_worker_count_is_eight() {
    assert_eq!(WORKERS, 8);
    let pool = Dispatcher::new(WORKERS);
    assert_eq!(pool.capacity, 8);
}
