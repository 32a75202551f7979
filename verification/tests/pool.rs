use web_server::pool::WorkerPool;

#[test]
fn a_fresh_pool_is_idle() {
    let pool = WorkerPool::new(4);
    assert_eq!(pool.size(), 4);
    assert_eq!(pool.queued(), 0);
    for worker in 0..4 {
        assert_eq!(pool.running(worker), None);
    }
    assert_eq!(pool.running(4), None);
}

#[test]
fn tasks_go_to_idle_workers_first() {
    let mut pool = WorkerPool::new(2);
    assert_eq!(pool.submit(10), Some(0));
    assert_eq!(pool.submit(11), Some(1));
    assert_eq!(pool.running(0), Some(10));
    assert_eq!(pool.running(1), Some(11));
    assert_eq!(pool.queued(), 0);
}

#[test]
fn excess_tasks_wait_and_none_is_dropped() {
    let mut pool = WorkerPool::new(2);
    assert_eq!(pool.submit(1), Some(0));
    assert_eq!(pool.submit(2), Some(1));
    for task in 3..=100 {
        assert_eq!(pool.submit(task), None);
        assert_eq!(pool.size(), 2);
    }
    assert_eq!(pool.queued(), 98);
    assert_eq!(pool.running(0), Some(1));
    assert_eq!(pool.running(1), Some(2));

    let mut served = vec![1, 2];
    let mut worker = 0;
    while let Some(task) = pool.finish(worker) {
        served.push(task);
        assert_eq!(pool.running(worker), Some(task));
        worker = 1 - worker;
    }
    assert_eq!(served, (1..=100).collect::<Vec<u64>>());
    assert_eq!(pool.queued(), 0);
}

#[test]
fn waiting_tasks_are_served_in_their_turn() {
    let mut pool = WorkerPool::new(3);
    for task in 0..6 {
        pool.submit(task);
    }
    assert_eq!(pool.queued(), 3);
    assert_eq!(pool.finish(2), Some(3));
    assert_eq!(pool.finish(2), Some(4));
    assert_eq!(pool.finish(0), Some(5));
    assert_eq!(pool.running(0), Some(5));
    assert_eq!(pool.running(1), Some(1));
    assert_eq!(pool.running(2), Some(4));
    assert_eq!(pool.finish(1), None);
    assert_eq!(pool.running(1), None);
}

#[test]
fn a_worker_takes_the_next_task_after_any_end_of_its_task() {
    let mut pool = WorkerPool::new(2);
    assert_eq!(pool.submit(1), Some(0));
    assert_eq!(pool.submit(2), Some(1));
    assert_eq!(pool.finish(1), None);
    assert_eq!(pool.running(1), None);
    assert_eq!(pool.submit(3), Some(1));
    assert_eq!(pool.running(1), Some(3));
    assert_eq!(pool.finish(1), None);
    assert_eq!(pool.running(1), None);
}

#[test]
fn reports_that_fit_no_running_task_change_nothing() {
    let mut pool = WorkerPool::new(2);
    assert_eq!(pool.finish(0), None);
    assert_eq!(pool.finish(7), None);
    assert_eq!(pool.submit(1), Some(0));
    assert_eq!(pool.finish(1), None);
    assert_eq!(pool.finish(2), None);
    assert_eq!(pool.running(0), Some(1));
    assert_eq!(pool.queued(), 0);
}

#[test]
fn a_pool_of_one_runs_one_task_at_a_time() {
    let mut pool = WorkerPool::new(1);
    assert_eq!(pool.submit(1), Some(0));
    assert_eq!(pool.submit(2), None);
    assert_eq!(pool.submit(3), None);
    assert_eq!(pool.finish(0), Some(2));
    assert_eq!(pool.finish(0), Some(3));
    assert_eq!(pool.finish(0), None);
    assert_eq!(pool.finish(0), None);
}
