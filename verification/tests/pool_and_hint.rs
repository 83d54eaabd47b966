use oxidy::acceptor::{accept_step, AcceptAction, AcceptEvent};
use oxidy::cpus::{cpus, hint_from};
use oxidy::pool::WorkerPool;

#[test]
fn hint_is_max_of_core_counts() {
    assert_eq!(hint_from(4, 2), 4);
    assert_eq!(hint_from(2, 4), 4);
    assert_eq!(hint_from(3, 3), 3);
}

#[test]
fn hint_is_at_least_one_whatever_the_host_reports() {
    assert_eq!(hint_from(0, 0), 1);
    assert_eq!(hint_from(1, 0), 1);
    assert_eq!(hint_from(0, 1), 1);
}

#[test]
fn cpus_is_positive() {
    assert!(cpus() >= 1);
}

#[test]
fn pool_of_zero_uses_hint() {
    let p: WorkerPool<u64> = WorkerPool::new(0);
    assert!(p.workers >= 1);
}

#[test]
fn pool_keeps_requested_worker_count() {
    let p: WorkerPool<u64> = WorkerPool::new(3);
    assert_eq!(p.workers, 3);
}

#[test]
fn execute_enqueues_without_blocking() {
    let mut p: WorkerPool<u64> = WorkerPool::new(1);
    p.execute(10);
    p.execute(11);
    assert_eq!(p.pending, vec![10, 11]);
    assert!(p.running.is_empty());
}

#[test]
fn begin_respects_worker_bound_and_fifo_order() {
    let mut p: WorkerPool<u64> = WorkerPool::new(2);
    p.execute(10);
    p.execute(11);
    p.execute(12);
    assert_eq!(p.begin(), Some(0));
    assert_eq!(*p.running_job(0), 10);
    assert_eq!(p.begin(), Some(1));
    assert_eq!(*p.running_job(1), 11);
    // Both workers are busy: the third job must wait.
    assert_eq!(p.begin(), None);
    assert_eq!(p.running, vec![10, 11]);
    assert_eq!(p.pending, vec![12]);
}

#[test]
fn begin_on_empty_queue_is_none() {
    let mut p: WorkerPool<u64> = WorkerPool::new(2);
    assert_eq!(p.begin(), None);
}

#[test]
fn all_jobs_complete_with_more_jobs_than_workers() {
    // Five jobs through two workers: every job is consumed exactly once,
    // never more than two at a time, and one failing job does not keep the
    // later jobs from completing.
    let mut p: WorkerPool<u64> = WorkerPool::new(2);
    for job in 0u64..5 {
        p.execute(job);
    }
    let mut finished: Vec<u64> = Vec::new();
    while !p.pending.is_empty() || !p.running.is_empty() {
        while let Some(_) = p.begin() {
            assert!(p.running.len() <= p.workers);
        }
        // The second job submitted fails; everything else succeeds.
        let job = p.running[0];
        p.finish(0, job != 1);
        finished.push(job);
    }
    assert_eq!(finished.len(), 5);
    let mut seen = p.done.clone();
    seen.extend(p.failed.iter().copied());
    seen.sort();
    assert_eq!(seen, vec![0, 1, 2, 3, 4]);
    assert_eq!(p.failed, vec![1]);
    assert_eq!(p.done.len(), 4);
}

#[test]
fn accept_loop_actions() {
    assert_eq!(accept_step(&AcceptEvent::Connection), AcceptAction::Submit);
    assert_eq!(accept_step(&AcceptEvent::WouldBlock), AcceptAction::Poll);
    assert_eq!(accept_step(&AcceptEvent::Failure), AcceptAction::LogAndPoll);
}
