use lending_library::pool::{Next, PoolError, Refusal, WorkerPool};

fn pool(workers: usize) -> WorkerPool<u32> {
    WorkerPool::new(workers).expect("a pool with workers")
}

fn run(next: Next<u32>) -> u32 {
    match next {
        Next::Run(job) => job,
        other => panic!("a job was expected, not {:?}", other),
    }
}

#[test]
fn a_pool_without_workers_is_refused() {
    assert!(matches!(WorkerPool::<u32>::new(0), Err(PoolError::NoWorkers)));
    assert!(matches!(WorkerPool::<u32>::bounded(0, 8), Err(PoolError::NoWorkers)));
    assert!(WorkerPool::<u32>::new(1).is_ok());
    assert!(WorkerPool::<u32>::bounded(1, 0).is_ok());
}

#[test]
fn a_new_pool_is_idle() {
    let mut p = pool(4);
    assert_eq!((p.workers(), p.queued(), p.running()), (4, 0, 0));
    assert!(!p.is_drained());
    assert!(matches!(p.take(), Next::Wait));
    assert_eq!((p.queued(), p.running()), (0, 0));
}

#[test]
fn jobs_are_handed_out_in_the_order_in_which_they_came() {
    let mut p = pool(2);
    for job in [10, 20, 30] {
        assert!(p.submit(job).is_ok());
    }
    assert_eq!(p.queued(), 3);
    assert_eq!(run(p.take()), 10);
    assert_eq!(run(p.take()), 20);
    assert_eq!((p.queued(), p.running()), (1, 2));
    p.finish();
    assert_eq!(run(p.take()), 30);
}

#[test]
fn as_many_jobs_run_at_once_as_there_are_workers() {
    let workers = 3;
    let mut p = pool(workers);
    for job in 0..(workers as u32 + 1) {
        assert!(p.submit(job).is_ok());
    }
    for job in 0..(workers as u32) {
        assert_eq!(run(p.take()), job);
    }
    assert_eq!((p.queued(), p.running()), (1, workers));
    assert!(matches!(p.take(), Next::Wait));
    assert!(matches!(p.take(), Next::Wait));
    assert_eq!((p.queued(), p.running()), (1, workers));
    p.finish();
    assert_eq!(p.running(), workers - 1);
    assert_eq!(run(p.take()), workers as u32);
    assert_eq!((p.queued(), p.running()), (0, workers));
}

#[test]
fn a_full_queue_gives_the_job_back() {
    let mut p: WorkerPool<u32> = WorkerPool::bounded(1, 2).expect("a pool with workers");
    assert!(p.submit(1).is_ok());
    assert!(p.submit(2).is_ok());
    assert!(matches!(p.submit(3), Err(Refusal::Full(3))));
    assert_eq!(p.queued(), 2);
    assert_eq!(run(p.take()), 1);
    assert!(p.submit(3).is_ok());
    assert!(matches!(p.submit(4), Err(Refusal::Full(4))));
    p.finish();
    assert_eq!(run(p.take()), 2);
    p.finish();
    assert_eq!(run(p.take()), 3);
}

#[test]
fn a_queue_without_room_takes_nothing() {
    let mut p: WorkerPool<u32> = WorkerPool::bounded(2, 0).expect("a pool with workers");
    assert!(matches!(p.submit(1), Err(Refusal::Full(1))));
    assert!(matches!(p.take(), Next::Wait));
}

#[test]
fn a_pool_that_is_shut_down_takes_no_jobs() {
    let mut p = pool(2);
    assert!(p.submit(1).is_ok());
    p.shutdown();
    assert!(matches!(p.submit(2), Err(Refusal::Closed(2))));
    assert_eq!(p.queued(), 1);
    let mut q: WorkerPool<u32> = WorkerPool::bounded(1, 0).expect("a pool with workers");
    q.shutdown();
    assert!(matches!(q.submit(5), Err(Refusal::Closed(5))));
}

#[test]
fn a_job_that_fails_frees_its_worker_like_any_other() {
    let mut p = pool(1);
    assert!(p.submit(1).is_ok());
    assert!(p.submit(2).is_ok());
    assert_eq!(run(p.take()), 1);
    p.finish();
    assert_eq!(p.running(), 0);
    assert_eq!(run(p.take()), 2);
    p.finish();
    assert!(matches!(p.take(), Next::Wait));
}

#[test]
fn finishing_without_a_job_changes_nothing() {
    let mut p = pool(2);
    p.finish();
    assert_eq!((p.queued(), p.running()), (0, 0));
    assert!(p.submit(1).is_ok());
    assert_eq!(run(p.take()), 1);
    assert_eq!(p.running(), 1);
}

#[test]
fn shutdown_waits_for_the_jobs_that_are_queued_and_running() {
    let mut p = pool(4);
    for job in 1..=9 {
        assert!(p.submit(job).is_ok());
    }
    let mut done: Vec<u32> = Vec::new();
    let mut at_work: Vec<u32> = Vec::new();
    for _ in 0..4 {
        at_work.push(run(p.take()));
    }
    assert_eq!((p.queued(), p.running()), (5, 4));

    p.shutdown();
    assert!(!p.is_drained());
    assert!(matches!(p.submit(10), Err(Refusal::Closed(10))));
    assert!(matches!(p.take(), Next::Wait));

    let mut exited = 0;
    while exited < 4 {
        let job = at_work.remove(0);
        done.push(job);
        p.finish();
        match p.take() {
            Next::Run(next) => {
                assert!(!p.is_drained());
                at_work.push(next);
            }
            Next::Exit => exited += 1,
            Next::Wait => panic!("a worker never waits once the pool is shut down and the queue is empty"),
        }
        if at_work.is_empty() {
            break;
        }
    }
    while exited < 4 {
        assert!(matches!(p.take(), Next::Exit));
        exited += 1;
    }
    assert_eq!(done, vec![1, 2, 3, 4, 5, 6, 7, 8, 9]);
    assert!(p.is_drained());
    assert_eq!((p.queued(), p.running()), (0, 0));
}

#[test]
fn an_idle_pool_that_is_shut_down_is_drained_at_once() {
    let mut p = pool(3);
    p.shutdown();
    assert!(p.is_drained());
    assert!(matches!(p.take(), Next::Exit));
    assert!(matches!(p.take(), Next::Exit));
}

#[test]
fn jobs_can_be_of_any_kind() {
    let mut p: WorkerPool<Box<dyn FnOnce() -> String>> = WorkerPool::new(1).expect("a pool");
    assert!(p.submit(Box::new(|| "first".to_string())).is_ok());
    assert!(p.submit(Box::new(|| "second".to_string())).is_ok());
    match p.take() {
        Next::Run(job) => assert_eq!(job(), "first"),
        _ => panic!("a job was expected"),
    }
    p.finish();
    match p.take() {
        Next::Run(job) => assert_eq!(job(), "second"),
        _ => panic!("a job was expected"),
    }
}
