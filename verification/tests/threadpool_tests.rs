use rshrink::batch::{ConfigSnapshot, Job};
use rshrink::threadpool::{Message, PoolError, ThreadPool};
use rshrink::utils::{Dimensions, Resize};

fn job(n: usize) -> Job {
    Job {
        input_path: format!("/in/{n}.jpg"),
        output_path: format!("/in/_rshrinked/{n}.jpg"),
        config: ConfigSnapshot {
            resize_method: Resize::Relative,
            dimensions: Dimensions::new(1920, 1080),
            dimensions_relative: 50,
            compression_quality: 85,
        },
    }
}

#[test]
fn try_new_zero_workers_fails() {
    assert!(matches!(ThreadPool::try_new(0), Err(PoolError::ZeroWorkers)));
}

#[test]
fn try_new_positive_succeeds() {
    let pool = ThreadPool::try_new(4).unwrap();
    assert_eq!(pool.size, 4);
    assert_eq!(pool.active_workers, 4);
    assert!(pool.queue.is_empty());
}

#[test]
fn every_submitted_job_runs_exactly_once_before_teardown() {
    let mut pool = ThreadPool::new(3);
    for n in 0..5 {
        pool.execute(job(n));
    }
    pool.shutdown();
    pool.run_until_idle();
    // each of the 5 jobs was delivered exactly once, in submission order
    assert_eq!(pool.executed, vec![0, 1, 2, 3, 4]);
    // teardown completed only after all of them: every worker has exited
    assert_eq!(pool.active_workers, 0);
    assert!(pool.queue.is_empty());
}

#[test]
fn zero_jobs_still_tears_down() {
    let mut pool = ThreadPool::new(2);
    pool.shutdown();
    pool.run_until_idle();
    assert!(pool.executed.is_empty());
    assert_eq!(pool.active_workers, 0);
}

#[test]
fn jobs_are_delivered_in_fifo_order_ahead_of_terminates() {
    let mut pool = ThreadPool::new(2);
    pool.execute(job(0));
    pool.execute(job(1));
    pool.shutdown();
    assert_eq!(pool.worker_step(), Some(Message::NewJob(0)));
    assert_eq!(pool.worker_step(), Some(Message::NewJob(1)));
    assert_eq!(pool.worker_step(), Some(Message::Terminate));
    assert_eq!(pool.active_workers, 1);
    assert_eq!(pool.worker_step(), Some(Message::Terminate));
    assert_eq!(pool.active_workers, 0);
    assert_eq!(pool.worker_step(), None);
}

#[test]
fn submission_log_keeps_the_jobs() {
    let mut pool = ThreadPool::new(1);
    pool.execute(job(7));
    assert_eq!(pool.jobs.len(), 1);
    assert_eq!(pool.jobs[0].input_path, "/in/7.jpg");
    assert_eq!(pool.jobs[0].output_path, "/in/_rshrinked/7.jpg");
}
