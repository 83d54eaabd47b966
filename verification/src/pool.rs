//! The worker-pool model: a fixed number of workers, a shared FIFO job
//! queue, and the jobs each worker is executing or has finished.
//!
//! A job is an opaque unit of work (one accepted connection together with
//! its configuration snapshot), carried as the type parameter `J`. The
//! model pins down the queue's discipline: `execute` enqueues without
//! blocking, a
//! worker takes the oldest pending job only while a worker slot is free,
//! and every submitted job is consumed exactly once — whether it succeeds
//! or fails. The embedding program runs the real threads and drives this
//! model one step per hand-off.

use vstd::prelude::*;
use vstd::seq_lib::group_to_multiset_ensures;
use vstd::multiset::Multiset;

verus! {

/// A fixed-size worker pool's job bookkeeping.
pub struct WorkerPool<J> {
    /// The number of worker threads; at least 1.
    pub workers: usize,
    /// Jobs submitted and not yet started, oldest first.
    pub pending: Vec<J>,
    /// Jobs currently executing, at most one per worker.
    pub running: Vec<J>,
    /// Jobs that ran to completion.
    pub done: Vec<J>,
    /// Jobs whose execution failed; the failure is confined to the job.
    pub failed: Vec<J>,
    /// Every job ever submitted, in submission order.
    pub submitted: Ghost<Seq<J>>,
}

impl<J> WorkerPool<J> {
    /// Every job the pool has seen, wherever it currently is.
    pub open spec fn jobs(self) -> Multiset<J> {
        self.pending@.to_multiset().add(self.running@.to_multiset()).add(
            self.done@.to_multiset(),
        ).add(self.failed@.to_multiset())
    }

    /// The pool has at least one worker, never executes more jobs at once
    /// than it has workers, and neither loses nor duplicates a job: the
    /// submitted jobs are exactly the pending, running and finished ones.
    pub open spec fn wf(self) -> bool {
        &&& self.workers >= 1
        &&& self.running@.len() <= self.workers
        &&& self.submitted@.to_multiset() == self.jobs()
    }

    /// A pool of `n` workers; a requested count of 0 means "use the
    /// thread-count hint", so the pool always ends up with at least one
    /// worker.
    pub fn new(n: usize) -> (p: WorkerPool<J>)
        ensures
            p.wf(),
            n > 0 ==> p.workers == n,
            p.workers >= 1,
            p.pending@ =~= Seq::<J>::empty(),
            p.running@ =~= Seq::<J>::empty(),
            p.done@ =~= Seq::<J>::empty(),
            p.failed@ =~= Seq::<J>::empty(),
            p.submitted@ =~= Seq::<J>::empty(),
    {
        let workers = if n == 0 {
            crate::cpus::cpus()
        } else {
            n
        };
        let p = WorkerPool {
            workers,
            pending: Vec::new(),
            running: Vec::new(),
            done: Vec::new(),
            failed: Vec::new(),
            submitted: Ghost(Seq::empty()),
        };
        proof {
            broadcast use group_to_multiset_ensures;

            assert(p.submitted@.to_multiset() =~= p.jobs());
        }
        p
    }

    /// Enqueues a job behind the ones already pending. Fire-and-forget:
    /// nothing is returned and the caller never waits.
    pub fn execute(&mut self, job: J)
        requires
            old(self).wf(),
        ensures
            final (self).wf(),
            final (self).pending@ == old(self).pending@.push(job),
            final (self).running@ == old(self).running@,
            final (self).done@ == old(self).done@,
            final (self).failed@ == old(self).failed@,
            final (self).workers == old(self).workers,
            final (self).submitted@ == old(self).submitted@.push(job),
            final (self).jobs() == old(self).jobs().insert(job),
    {
        self.pending.push(job);
        proof {
            broadcast use group_to_multiset_ensures;

            self.submitted@ = self.submitted@.push(job);
            assert(self.jobs() =~= old(self).jobs().insert(job));
            assert(self.submitted@.to_multiset() =~= self.jobs());
        }
    }

    /// A free worker takes the oldest pending job and starts executing it;
    /// the returned index names the worker slot now running that job (read
    /// it with `running_job`, hand it back with `finish`). Succeeds exactly
    /// when a job is pending and a worker slot is free; the concurrency
    /// bound `running <= workers` is never exceeded.
    pub fn begin(&mut self) -> (r: Option<usize>)
        requires
            old(self).wf(),
        ensures
            final (self).wf(),
            final (self).workers == old(self).workers,
            final (self).done@ == old(self).done@,
            final (self).failed@ == old(self).failed@,
            final (self).submitted@ == old(self).submitted@,
            r.is_some() == (old(self).pending@.len() > 0 && old(self).running@.len() < old(
                self,
            ).workers),
            r matches Some(i) ==> i == old(self).running@.len() && final (self).pending@ == old(
                self,
            ).pending@.drop_first() && final (self).running@ == old(self).running@.push(
                old(self).pending@[0],
            ),
            r.is_none() ==> final (self).pending@ == old(self).pending@ && final (self).running@
                == old(self).running@,
            final (self).jobs() == old(self).jobs(),
    {
        if self.pending.len() > 0 && self.running.len() < self.workers {
            let j = self.pending.remove(0);
            let i = self.running.len();
            self.running.push(j);
            proof {
                broadcast use group_to_multiset_ensures;

                assert(old(self).pending@.remove(0).to_multiset() =~= old(
                    self,
                ).pending@.to_multiset().remove(old(self).pending@[0]));
                assert(old(self).pending@.contains(old(self).pending@[0]));
                assert(old(self).pending@.to_multiset().count(old(self).pending@[0]) > 0);
                assert(self.jobs() =~= old(self).jobs());
                assert(old(self).pending@.remove(0) =~= old(self).pending@.drop_first());
            }
            Some(i)
        } else {
            None
        }
    }

    /// The job the worker slot `i` is currently executing.
    pub fn running_job(&self, i: usize) -> (j: &J)
        requires
            i < self.running@.len(),
        ensures
            *j == self.running@[i as int],
    {
        &self.running[i]
    }

    /// The worker executing the job at index `i` of the running list hands
    /// it back, completed (`ok`) or failed (`!ok`). A failure is confined
    /// to that job: the pool's state afterwards does not depend on `ok`
    /// beyond which of the two finished lists received the job, so the
    /// freed worker serves subsequent jobs either way.
    pub fn finish(&mut self, i: usize, ok: bool)
        requires
            old(self).wf(),
            i < old(self).running@.len(),
        ensures
            final (self).wf(),
            final (self).workers == old(self).workers,
            final (self).pending@ == old(self).pending@,
            final (self).submitted@ == old(self).submitted@,
            final (self).running@ == old(self).running@.remove(i as int),
            final (self).running@.len() == old(self).running@.len() - 1,
            ok ==> final (self).done@ == old(self).done@.push(old(self).running@[i as int])
                && final (self).failed@ == old(self).failed@,
            !ok ==> final (self).failed@ == old(self).failed@.push(old(self).running@[i as int])
                && final (self).done@ == old(self).done@,
            final (self).jobs() == old(self).jobs(),
    {
        let j = self.running.remove(i);
        if ok {
            self.done.push(j);
        } else {
            self.failed.push(j);
        }
        proof {
            broadcast use group_to_multiset_ensures;

            assert(old(self).running@.contains(old(self).running@[i as int]));
            assert(old(self).running@.to_multiset().count(old(self).running@[i as int]) > 0);
            assert(self.jobs() =~= old(self).jobs());
        }
    }
}

/// At any instant a well-formed pool executes at most as many jobs
/// concurrently as it has workers.
pub proof fn lemma_bounded_concurrency<J>(p: WorkerPool<J>)
    requires
        p.wf(),
    ensures
        p.running@.len() <= p.workers,
{
}

/// Once the queue is drained and no worker is busy, the finished jobs —
/// completed or failed — are exactly the submitted ones, each consumed
/// exactly once; in particular a failed job never keeps another submitted
/// job from being consumed.
pub proof fn lemma_all_submitted_jobs_finish<J>(p: WorkerPool<J>)
    requires
        p.wf(),
        p.pending@.len() == 0,
        p.running@.len() == 0,
    ensures
        p.submitted@.to_multiset() == p.done@.to_multiset().add(p.failed@.to_multiset()),
{
    broadcast use group_to_multiset_ensures;

    assert(p.pending@.to_multiset() =~= Multiset::<J>::empty());
    assert(p.running@.to_multiset() =~= Multiset::<J>::empty());
    assert(p.submitted@.to_multiset() =~= p.done@.to_multiset().add(p.failed@.to_multiset()));
}

} // verus!
