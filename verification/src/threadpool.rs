//! A model of the fixed-size worker pool: a single shared FIFO channel
//! carries submitted jobs and, once shutdown begins, one terminate signal
//! per worker. Because every terminate signal is enqueued after all real
//! jobs, every submitted job is delivered — to exactly one worker, exactly
//! once, in submission order — before any worker stops, and teardown can
//! complete only after all submitted work has run.
use vstd::prelude::*;

use crate::batch::Job;

verus! {

/// One message on the pool's shared FIFO channel: either the index of a
/// submitted job in the submission log, or the signal telling exactly one
/// worker to stop.
#[derive(Clone, Copy, PartialEq, Eq, Structural, Debug)]
pub enum Message {
    NewJob(usize),
    Terminate,
}

/// Why a pool could not be constructed.
#[derive(Clone, Copy, PartialEq, Eq, Structural, Debug)]
pub enum PoolError {
    /// A pool of zero workers could never run a job; constructing one is a
    /// programming error, not a state to continue from silently.
    ZeroWorkers,
}

/// The worker pool, modelled by the state every thread agrees on: the
/// pending messages of the shared FIFO channel, the submission log, the
/// delivery log, and how many workers have not yet observed a terminate
/// signal. The queue is the only structure touched from several threads;
/// it delivers each message to exactly one worker.
pub struct ThreadPool {
    /// The fixed number of workers the pool was created with.
    pub size: usize,
    /// The messages not yet taken by any worker, oldest first.
    pub queue: Vec<Message>,
    /// Every job ever submitted, in submission order.
    pub jobs: Vec<Job>,
    /// The submission-log index of every job delivered so far, in
    /// delivery order.
    pub executed: Vec<usize>,
    /// Workers still pulling messages.
    pub active_workers: usize,
    /// Whether shutdown has begun; no job may be submitted afterwards.
    pub shutdown_started: bool,
}

impl ThreadPool {
    /// The pool's invariant: pending jobs sit in front of any terminate
    /// signals and continue the delivery log without a gap, there is one
    /// pending terminate signal per still-active worker once shutdown has
    /// begun and none before, and the delivery log holds exactly the first
    /// `executed.len()` submitted jobs, in order.
    pub open spec fn wf(self) -> bool {
        let n = self.jobs@.len() as int;
        let k = self.executed@.len() as int;
        let t: int = if self.shutdown_started {
            self.active_workers as int
        } else {
            0
        };
        &&& self.size >= 1
        &&& self.active_workers <= self.size
        &&& (!self.shutdown_started ==> self.active_workers == self.size)
        &&& k <= n
        &&& (self.shutdown_started && self.active_workers < self.size ==> k == n)
        &&& self.queue@.len() == (n - k) + t
        &&& forall|i: int|
            0 <= i < n - k ==> (#[trigger] self.queue@[i]) == Message::NewJob((k + i) as usize)
        &&& forall|i: int|
            n - k <= i < self.queue@.len() ==> (#[trigger] self.queue@[i]) == Message::Terminate
        &&& self.executed@ == Seq::new(k as nat, |i: int| i as usize)
    }

    /// Whether `self` is a freshly constructed pool of `size` workers with
    /// nothing submitted yet.
    pub open spec fn is_fresh(self, size: usize) -> bool {
        &&& self.size == size
        &&& self.queue@.len() == 0
        &&& self.jobs@.len() == 0
        &&& self.executed@.len() == 0
        &&& self.active_workers == size
        &&& !self.shutdown_started
    }

    /// Creates a pool of `size` workers, each blocking on the shared
    /// channel for its next message. A size of zero is a construction bug;
    /// callers that cannot rule it out go through [`ThreadPool::try_new`].
    pub fn new(size: usize) -> (r: ThreadPool)
        requires
            size > 0,
        ensures
            r.wf(),
            r.is_fresh(size),
    {
        let r = ThreadPool {
            size,
            queue: Vec::new(),
            jobs: Vec::new(),
            executed: Vec::new(),
            active_workers: size,
            shutdown_started: false,
        };
        proof {
            assert(r.executed@ =~= Seq::new(0, |i: int| i as usize));
        }
        r
    }

    /// Creates a pool of `size` workers, rejecting a zero size instead of
    /// standing up a pool that could never run anything.
    pub fn try_new(size: usize) -> (r: Result<ThreadPool, PoolError>)
        ensures
            r is Ok <==> size > 0,
            r matches Ok(p) ==> p.wf() && p.is_fresh(size),
            r matches Err(e) ==> e == PoolError::ZeroWorkers,
    {
        if size == 0 {
            Err(PoolError::ZeroWorkers)
        } else {
            Ok(ThreadPool::new(size))
        }
    }

    /// Submits one job: appends it to the submission log and enqueues its
    /// index behind everything already pending. Any number of producers
    /// may do this, but none after shutdown has begun — the terminate
    /// signals must stay behind every real job.
    pub fn execute(&mut self, job: Job)
        requires
            old(self).wf(),
            !old(self).shutdown_started,
        ensures
            final(self).wf(),
            final(self).jobs@ == old(self).jobs@.push(job),
            final(self).queue@ == old(self).queue@.push(
                Message::NewJob(old(self).jobs@.len() as usize),
            ),
            final(self).executed == old(self).executed,
            final(self).active_workers == old(self).active_workers,
            final(self).shutdown_started == old(self).shutdown_started,
            final(self).size == old(self).size,
    {
        let id = self.jobs.len();
        self.jobs.push(job);
        self.queue.push(Message::NewJob(id));
    }

    /// Begins teardown: enqueues one terminate signal per worker, after
    /// every job already submitted, so FIFO delivery lets each worker
    /// finish the remaining real work before it stops.
    pub fn shutdown(&mut self)
        requires
            old(self).wf(),
            !old(self).shutdown_started,
        ensures
            final(self).wf(),
            final(self).shutdown_started,
            final(self).queue@ == old(self).queue@ + Seq::new(
                old(self).size as nat,
                |i: int| Message::Terminate,
            ),
            final(self).jobs == old(self).jobs,
            final(self).executed == old(self).executed,
            final(self).active_workers == old(self).active_workers,
            final(self).size == old(self).size,
    {
        let count = self.size;
        let mut c: usize = 0;
        while c < count
            invariant
                0 <= c <= count,
                self.queue@.len() == old(self).queue@.len() + c,
                forall|i: int|
                    0 <= i < old(self).queue@.len() ==> #[trigger] self.queue@[i] == old(
                        self,
                    ).queue@[i],
                forall|i: int|
                    old(self).queue@.len() <= i < self.queue@.len() ==> #[trigger] self.queue@[i]
                        == Message::Terminate,
                self.jobs == old(self).jobs,
                self.executed == old(self).executed,
                self.active_workers == old(self).active_workers,
                self.shutdown_started == old(self).shutdown_started,
                self.size == old(self).size,
                count == old(self).size,
            decreases count - c,
        {
            self.queue.push(Message::Terminate);
            c = c + 1;
        }
        self.shutdown_started = true;
        proof {
            assert(self.queue@ =~= old(self).queue@ + Seq::new(
                old(self).size as nat,
                |i: int| Message::Terminate,
            ));
        }
    }

    /// One worker takes the message at the front of the channel, if any:
    /// a job index is recorded in the delivery log — the job it names is
    /// run by that worker alone, and a failing job leaves the worker
    /// pulling further messages — while a terminate signal makes that one
    /// worker exit instead. Mutual exclusion on the channel is what makes
    /// the pop atomic.
    pub fn worker_step(&mut self) -> (r: Option<Message>)
        requires
            old(self).wf(),
        ensures
            final(self).wf(),
            old(self).queue@.len() == 0 ==> r is None && *final(self) == *old(self),
            old(self).queue@.len() > 0 ==> {
                &&& r == Some(old(self).queue@[0])
                &&& final(self).queue@ == old(self).queue@.drop_first()
                &&& final(self).jobs == old(self).jobs
                &&& final(self).shutdown_started == old(self).shutdown_started
                &&& final(self).size == old(self).size
                &&& match old(self).queue@[0] {
                    Message::NewJob(id) => {
                        &&& id == old(self).executed@.len()
                        &&& id < old(self).jobs@.len()
                        &&& final(self).executed@ == old(self).executed@.push(id)
                        &&& final(self).active_workers == old(self).active_workers
                    },
                    Message::Terminate => {
                        &&& old(self).active_workers >= 1
                        &&& final(self).executed == old(self).executed
                        &&& final(self).active_workers == old(self).active_workers - 1
                    },
                }
            },
    {
        if self.queue.len() == 0 {
            return None;
        }
        let msg = self.queue.remove(0);
        proof {
            assert(self.queue@ =~= old(self).queue@.drop_first());
            assert(old(self).executed@.len() == old(self).executed.len());
            let n = old(self).jobs@.len() as int;
            let k = old(self).executed@.len() as int;
            if n - k > 0 {
                assert(old(self).queue@[0] == Message::NewJob((k + 0) as usize));
            } else {
                assert(old(self).queue@[0] == Message::Terminate);
            }
        }
        match msg {
            Message::NewJob(id) => {
                self.executed.push(id);
                proof {
                    assert(self.executed@ =~= Seq::new(
                        (old(self).executed@.len() + 1) as nat,
                        |i: int| i as usize,
                    ));
                }
            },
            Message::Terminate => {
                self.active_workers = self.active_workers - 1;
            },
        }
        Some(msg)
    }

    /// Drains the channel, one worker step at a time, until nothing is
    /// pending: every submitted job is delivered exactly once, in
    /// submission order, and after a shutdown every worker has exited.
    pub fn run_until_idle(&mut self)
        requires
            old(self).wf(),
        ensures
            final(self).wf(),
            final(self).queue@.len() == 0,
            final(self).jobs == old(self).jobs,
            final(self).shutdown_started == old(self).shutdown_started,
            final(self).size == old(self).size,
            final(self).executed@ == Seq::new(old(self).jobs@.len() as nat, |i: int| i as usize),
            old(self).shutdown_started ==> final(self).active_workers == 0,
            !old(self).shutdown_started ==> final(self).active_workers == old(self).size,
    {
        while self.queue.len() > 0
            invariant
                self.wf(),
                self.jobs == old(self).jobs,
                self.shutdown_started == old(self).shutdown_started,
                self.size == old(self).size,
            decreases self.queue@.len(),
        {
            let _ = self.worker_step();
        }
    }
}

/// Teardown is complete only after all submitted work has run: a pool
/// whose workers have all exited has delivered every submitted job,
/// exactly once, in submission order.
pub proof fn lemma_teardown_complete(pool: ThreadPool)
    requires
        pool.wf(),
        pool.active_workers == 0,
    ensures
        pool.shutdown_started,
        pool.executed@ == Seq::new(pool.jobs@.len() as nat, |i: int| i as usize),
{
    assert(pool.active_workers < pool.size);
}

} // verus!
