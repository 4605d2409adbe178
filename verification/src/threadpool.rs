//! The worker pool, without its threads: the queue of jobs, the state of
//! each worker, and the count of jobs that are running.
//!
//! Threads, and waiting, are the caller's. A worker thread asks the pool
//! for its next job with [`ThreadPool::take`], runs it, and reports with
//! [`ThreadPool::finished`]. The job type `J` is whatever the caller runs.

use std::collections::VecDeque;
use vstd::prelude::*;

verus! {

/// Why the pool refuses.
#[derive(Debug)]
pub enum ThreadPoolError {
    /// A pool needs at least one worker.
    InvalidSize,
    /// The job was not taken on.
    JobSendError(String),
}

impl ThreadPoolError {
    /// The error in words.
    pub open spec fn text(self) -> Seq<char> {
        match self {
            ThreadPoolError::InvalidSize => "Thread pool size must be greater than 0"@,
            ThreadPoolError::JobSendError(why) => "Failed to send job: "@ + why@,
        }
    }

    /// The error in words.
    pub fn message(&self) -> (s: String)
        ensures
            s@ == self.text(),
    {
        match self {
            ThreadPoolError::InvalidSize => String::from_str(
                "Thread pool size must be greater than 0",
            ),
            ThreadPoolError::JobSendError(why) => {
                let mut s = String::from_str("Failed to send job: ");
                s.append(why.as_str());
                s
            },
        }
    }
}

/// What travels through the queue.
#[derive(Debug)]
pub enum Message<J> {
    /// A job to run.
    NewJob(J),
    /// The order to stop, for one worker.
    Terminate,
}

/// What a worker is doing.
#[derive(Debug, Clone, Copy, PartialEq, Eq, Structural)]
pub enum WorkerState {
    /// Waiting for a message.
    Idle,
    /// Running a job.
    Busy,
    /// Stopped for good.
    Gone,
}

/// What a worker gets when it asks for its next message.
#[derive(Debug)]
pub enum Taken<J> {
    /// Run this job, then report that it is finished.
    Run(J),
    /// Nothing yet: wait, and ask again.
    Wait,
    /// Stop: the worker is gone from now on.
    Exit,
}

/// The number of workers that are running a job.
pub open spec fn busy(workers: Seq<WorkerState>) -> nat
    decreases workers.len(),
{
    if workers.len() == 0 {
        0
    } else {
        busy(workers.drop_last()) + if workers.last() == WorkerState::Busy {
            1nat
        } else {
            0nat
        }
    }
}

/// `n` orders to stop.
pub open spec fn terminations<J>(n: nat) -> Seq<Message<J>> {
    Seq::new(n, |i: int| Message::Terminate)
}

/// The state of a pool.
pub struct PoolView<J> {
    /// The workers, by number.
    pub workers: Seq<WorkerState>,
    /// The messages that no worker has taken yet, oldest first.
    pub queue: Seq<Message<J>>,
    /// Whether the pool takes on jobs.
    pub open: bool,
    /// The count of jobs that are running.
    pub active: nat,
}

impl<J> PoolView<J> {
    /// A new pool of `size` workers.
    pub open spec fn start(size: nat) -> PoolView<J> {
        PoolView {
            workers: Seq::new(size, |i: int| WorkerState::Idle),
            queue: Seq::empty(),
            open: true,
            active: 0,
        }
    }

    /// What holds of every pool: it has a worker; the count of running jobs
    /// is the number of busy workers; orders to stop come only when the
    /// pool is closed, and after every job; and once a worker is gone no
    /// job is left in the queue.
    pub open spec fn wf(self) -> bool {
        &&& self.workers.len() > 0
        &&& self.active == busy(self.workers)
        &&& self.open ==> forall|i: int|
            0 <= i < self.queue.len() ==> (#[trigger] self.queue[i]) is NewJob
        &&& self.open ==> forall|w: int|
            0 <= w < self.workers.len() ==> (#[trigger] self.workers[w]) != WorkerState::Gone
        &&& forall|i: int, j: int|
            0 <= i < j < self.queue.len() && (#[trigger] self.queue[i]) is Terminate ==> (
            #[trigger] self.queue[j]) is Terminate
        &&& (exists|w: int|
            0 <= w < self.workers.len() && (#[trigger] self.workers[w]) == WorkerState::Gone)
            ==> forall|i: int| 0 <= i < self.queue.len() ==> (#[trigger] self.queue[i]) is Terminate
    }

    /// The pool after it took on `job`.
    pub open spec fn with_job(self, job: J) -> PoolView<J> {
        PoolView { queue: self.queue.push(Message::NewJob(job)), ..self }
    }

    /// The pool after it was told to stop: it is closed, and one order to
    /// stop for each worker stands behind the jobs. A closed pool stays as
    /// it is.
    pub open spec fn terminated(self) -> PoolView<J> {
        if self.open {
            PoolView {
                queue: self.queue + terminations::<J>(self.workers.len()),
                open: false,
                ..self
            }
        } else {
            self
        }
    }

    /// What worker `w` gets when it asks: the oldest message, if there is
    /// one; else to wait, while the pool is open, and to stop once it is
    /// closed.
    pub open spec fn hands(self, w: int) -> Taken<J> {
        if self.queue.len() == 0 {
            if self.open {
                Taken::Wait
            } else {
                Taken::Exit
            }
        } else {
            match self.queue[0] {
                Message::NewJob(job) => Taken::Run(job),
                Message::Terminate => Taken::Exit,
            }
        }
    }

    /// The pool after worker `w` has asked.
    pub open spec fn after_take(self, w: int) -> PoolView<J> {
        match self.hands(w) {
            Taken::Wait => self,
            Taken::Run(_) => PoolView {
                workers: self.workers.update(w, WorkerState::Busy),
                queue: self.queue.drop_first(),
                active: self.active + 1,
                ..self
            },
            Taken::Exit => PoolView {
                workers: self.workers.update(w, WorkerState::Gone),
                queue: if self.queue.len() == 0 {
                    self.queue
                } else {
                    self.queue.drop_first()
                },
                ..self
            },
        }
    }

    /// The pool after worker `w` has finished its job.
    pub open spec fn after_finish(self, w: int) -> PoolView<J> {
        PoolView {
            workers: self.workers.update(w, WorkerState::Idle),
            active: (self.active - 1) as nat,
            ..self
        }
    }
}

/// No more workers are busy than there are workers.
pub proof fn lemma_busy_bound(workers: Seq<WorkerState>)
    ensures
        busy(workers) <= workers.len(),
    decreases workers.len(),
{
    if workers.len() > 0 {
        lemma_busy_bound(workers.drop_last());
    }
}

/// A change of one worker changes the number of busy workers by that worker.
pub proof fn lemma_busy_update(workers: Seq<WorkerState>, w: int, state: WorkerState)
    requires
        0 <= w < workers.len(),
    ensures
        busy(workers.update(w, state)) + (if workers[w] == WorkerState::Busy {
            1nat
        } else {
            0nat
        }) == busy(workers) + (if state == WorkerState::Busy {
            1nat
        } else {
            0nat
        }),
    decreases workers.len(),
{
    let changed = workers.update(w, state);
    if w == workers.len() - 1 {
        assert(changed.drop_last() =~= workers.drop_last());
    } else {
        assert(changed.drop_last() =~= workers.drop_last().update(w, state));
        lemma_busy_update(workers.drop_last(), w, state);
    }
}

/// Where no worker is busy, the number of busy workers is zero.
pub proof fn lemma_busy_none(workers: Seq<WorkerState>)
    requires
        forall|w: int| 0 <= w < workers.len() ==> (#[trigger] workers[w]) != WorkerState::Busy,
    ensures
        busy(workers) == 0,
    decreases workers.len(),
{
    if workers.len() > 0 {
        let rest = workers.drop_last();
        assert forall|w: int| 0 <= w < rest.len() implies (#[trigger] rest[w])
            != WorkerState::Busy by {
            assert(rest[w] == workers[w]);
        }
        lemma_busy_none(rest);
        assert(workers.last() == workers[workers.len() - 1]);
    }
}

/// Once every job that was running has finished, the count of running
/// jobs is zero.
pub proof fn lemma_idle_pool_counts_zero<J>(pool: PoolView<J>)
    requires
        pool.wf(),
        forall|w: int|
            0 <= w < pool.workers.len() ==> (#[trigger] pool.workers[w]) != WorkerState::Busy,
    ensures
        pool.active == 0,
{
    lemma_busy_none(pool.workers);
}

/// No job is dropped: when the workers are gone, every job that the pool
/// took on has been handed to a worker.
pub proof fn lemma_no_job_is_left<J>(pool: PoolView<J>)
    requires
        pool.wf(),
        forall|w: int|
            0 <= w < pool.workers.len() ==> (#[trigger] pool.workers[w]) == WorkerState::Gone,
    ensures
        forall|i: int| 0 <= i < pool.queue.len() ==> !((#[trigger] pool.queue[i]) is NewJob),
{
    assert(pool.workers[0] == WorkerState::Gone);
}

/// Taking on a job, stopping, handing out a message and finishing a job
/// keep a pool as it should be.
pub proof fn lemma_pool_stays_well_formed<J>(pool: PoolView<J>, job: J, w: int)
    requires
        pool.wf(),
        0 <= w < pool.workers.len(),
    ensures
        pool.open ==> pool.with_job(job).wf(),
        pool.terminated().wf(),
        pool.workers[w] == WorkerState::Idle ==> pool.after_take(w).wf(),
        pool.workers[w] == WorkerState::Busy ==> pool.after_finish(w).wf(),
{
    if pool.open {
        let next = pool.with_job(job);
        assert forall|i: int| 0 <= i < next.queue.len() implies (#[trigger] next.queue[i])
            is NewJob by {
            if i < pool.queue.len() {
                assert(next.queue[i] == pool.queue[i]);
            }
        }
        assert forall|i: int, j: int|
            0 <= i < j < next.queue.len() && (#[trigger] next.queue[i]) is Terminate implies (
        #[trigger] next.queue[j]) is Terminate by {
            assert(next.queue[i] is NewJob);
        }
        assert(next.wf());
    }
    {
        let next = pool.terminated();
        if pool.open {
            assert forall|i: int, j: int|
                0 <= i < j < next.queue.len() && (#[trigger] next.queue[i]) is Terminate implies (
            #[trigger] next.queue[j]) is Terminate by {
                if i < pool.queue.len() {
                    assert(next.queue[i] == pool.queue[i]);
                    assert(pool.queue[i] is NewJob);
                }
            }
            assert forall|v: int| 0 <= v < next.workers.len() implies (#[trigger] next.workers[v])
                != WorkerState::Gone by {
                assert(pool.workers[v] != WorkerState::Gone);
            }
        }
        assert(next.wf());
    }
    if pool.workers[w] == WorkerState::Idle {
        let next = pool.after_take(w);
        lemma_busy_update(pool.workers, w, WorkerState::Busy);
        lemma_busy_update(pool.workers, w, WorkerState::Gone);
        match pool.hands(w) {
            Taken::Wait => {},
            Taken::Run(_) => {
                assert forall|i: int| 0 <= i < next.queue.len() implies (#[trigger] next.queue[i])
                    == pool.queue[i + 1] by {}
                assert forall|i: int, j: int|
                    0 <= i < j < next.queue.len() && (#[trigger] next.queue[i])
                        is Terminate implies (#[trigger] next.queue[j]) is Terminate by {
                    assert(pool.queue[i + 1] is Terminate);
                    assert(pool.queue[j + 1] is Terminate);
                }
                if pool.open {
                    assert forall|i: int| 0 <= i < next.queue.len() implies (
                    #[trigger] next.queue[i]) is NewJob by {
                        assert(pool.queue[i + 1] is NewJob);
                    }
                    assert forall|v: int| 0 <= v < next.workers.len() implies (
                    #[trigger] next.workers[v]) != WorkerState::Gone by {
                        assert(pool.workers[v] != WorkerState::Gone);
                    }
                }
                if exists|v: int|
                    0 <= v < next.workers.len() && (#[trigger] next.workers[v])
                        == WorkerState::Gone {
                    let v = choose|v: int|
                        0 <= v < next.workers.len() && (#[trigger] next.workers[v])
                            == WorkerState::Gone;
                    assert(pool.workers[v] == WorkerState::Gone);
                    assert(pool.queue[0] is Terminate);
                }
                assert(next.wf());
            },
            Taken::Exit => {
                assert(!pool.open) by {
                    if pool.open {
                        assert(pool.queue[0] is NewJob);
                    }
                }
                assert forall|i: int| 0 <= i < next.queue.len() implies (#[trigger] next.queue[i])
                    is Terminate by {
                    assert(next.queue[i] == pool.queue[i + 1]);
                    assert(pool.queue[0] is Terminate);
                    assert(pool.queue[i + 1] is Terminate);
                }
                assert(next.wf());
            },
        }
    }
    if pool.workers[w] == WorkerState::Busy {
        let next = pool.after_finish(w);
        lemma_busy_update(pool.workers, w, WorkerState::Idle);
        if pool.open {
            assert forall|v: int| 0 <= v < next.workers.len() implies (#[trigger] next.workers[v])
                != WorkerState::Gone by {
                assert(pool.workers[v] != WorkerState::Gone);
            }
        }
        if exists|v: int|
            0 <= v < next.workers.len() && (#[trigger] next.workers[v]) == WorkerState::Gone {
            let v = choose|v: int|
                0 <= v < next.workers.len() && (#[trigger] next.workers[v]) == WorkerState::Gone;
            assert(pool.workers[v] == WorkerState::Gone);
        }
        assert(next.wf());
    }
}

/// A pool of workers that take jobs from one queue.
#[derive(Debug)]
pub struct ThreadPool<J> {
    workers: Vec<WorkerState>,
    queue: VecDeque<Message<J>>,
    open: bool,
    active: usize,
}

impl<J> View for ThreadPool<J> {
    type V = PoolView<J>;

    closed spec fn view(&self) -> PoolView<J> {
        PoolView {
            workers: self.workers@,
            queue: self.queue@,
            open: self.open,
            active: self.active as nat,
        }
    }
}

impl<J> ThreadPool<J> {
    /// A pool of `size` workers, all idle. A pool of no workers is refused.
    pub fn new(size: usize) -> (r: Result<ThreadPool<J>, ThreadPoolError>)
        ensures
            size == 0 ==> (r matches Err(ThreadPoolError::InvalidSize)),
            size > 0 ==> r is Ok && r->Ok_0@ == PoolView::<J>::start(size as nat) && r->Ok_0@.wf(),
    {
        if size == 0 {
            return Err(ThreadPoolError::InvalidSize);
        }
        let mut workers: Vec<WorkerState> = Vec::new();
        let mut i: usize = 0;
        while i < size
            invariant
                i <= size,
                workers@.len() == i,
                forall|w: int| 0 <= w < i ==> (#[trigger] workers@[w]) == WorkerState::Idle,
            decreases size - i,
        {
            workers.push(WorkerState::Idle);
            i = i + 1;
        }
        let pool = ThreadPool { workers, queue: VecDeque::new(), open: true, active: 0 };
        proof {
            assert(pool@.workers =~= PoolView::<J>::start(size as nat).workers);
            lemma_busy_none(pool@.workers);
        }
        Ok(pool)
    }

    /// The number of workers.
    pub fn size(&self) -> (n: usize)
        ensures
            n == self@.workers.len(),
    {
        self.workers.len()
    }

    /// Whether the pool takes on jobs.
    pub fn is_open(&self) -> (r: bool)
        ensures
            r == self@.open,
    {
        self.open
    }

    /// What worker `w` is doing.
    pub fn worker(&self, w: usize) -> (state: WorkerState)
        requires
            w < self@.workers.len(),
        ensures
            state == self@.workers[w as int],
    {
        self.workers[w]
    }

    /// Puts `job` at the end of the queue. A pool that was told to stop
    /// takes on nothing.
    pub fn execute(&mut self, job: J) -> (r: Result<(), ThreadPoolError>)
        requires
            old(self)@.wf(),
        ensures
            final(self)@.wf(),
            old(self)@.open ==> r is Ok && final(self)@ == old(self)@.with_job(job),
            !old(self)@.open ==> final(self)@ == old(self)@,
            !old(self)@.open ==> (r matches Err(ThreadPoolError::JobSendError(why)) && why@
                == "Thread pool is shutting down"@),
    {
        if self.open {
            proof {
                lemma_pool_stays_well_formed(self@, job, 0);
            }
            self.queue.push_back(Message::NewJob(job));
            Ok(())
        } else {
            Err(ThreadPoolError::JobSendError(String::from_str("Thread pool is shutting down")))
        }
    }

    /// The number of jobs that are running, not counting those that wait
    /// in the queue.
    pub fn active_count(&self) -> (n: usize)
        requires
            self@.wf(),
        ensures
            n == self@.active,
            n == busy(self@.workers),
    {
        self.active
    }

    /// Hands worker `w` its next message. A job makes the worker busy and
    /// counts as running; an order to stop, or a closed and empty queue,
    /// makes the worker gone.
    pub fn take(&mut self, w: usize) -> (t: Taken<J>)
        requires
            old(self)@.wf(),
            w < old(self)@.workers.len(),
            old(self)@.workers[w as int] == WorkerState::Idle,
        ensures
            final(self)@.wf(),
            t == old(self)@.hands(w as int),
            final(self)@ == old(self)@.after_take(w as int),
    {
        proof {
            lemma_busy_update(self@.workers, w as int, WorkerState::Busy);
            lemma_busy_bound(self@.workers.update(w as int, WorkerState::Busy));
            lemma_pool_stays_well_formed(self@, arbitrary(), w as int);
        }
        let ghost before = self@;
        match self.queue.pop_front() {
            None => {
                if self.open {
                    Taken::Wait
                } else {
                    self.workers.set(w, WorkerState::Gone);
                    Taken::Exit
                }
            },
            Some(Message::NewJob(job)) => {
                assert(self.queue@ =~= before.queue.drop_first());
                self.workers.set(w, WorkerState::Busy);
                assert(self.active + 1 == busy(self.workers@));
                assert(busy(self.workers@) <= self.workers@.len());
                assert(self.workers@.len() == self.workers.len());
                self.active = self.active + 1;
                Taken::Run(job)
            },
            Some(Message::Terminate) => {
                assert(self.queue@ =~= before.queue.drop_first());
                self.workers.set(w, WorkerState::Gone);
                Taken::Exit
            },
        }
    }

    /// Notes that worker `w` has finished its job: the worker is idle
    /// again, and one job fewer is running.
    pub fn finished(&mut self, w: usize)
        requires
            old(self)@.wf(),
            w < old(self)@.workers.len(),
            old(self)@.workers[w as int] == WorkerState::Busy,
        ensures
            final(self)@.wf(),
            final(self)@ == old(self)@.after_finish(w as int),
    {
        proof {
            lemma_busy_update(self@.workers, w as int, WorkerState::Idle);
            lemma_pool_stays_well_formed(self@, arbitrary(), w as int);
        }
        self.workers.set(w, WorkerState::Idle);
        self.active = self.active - 1;
    }

    /// Tells the pool to stop: it takes on no more jobs, and one order to
    /// stop for each worker goes to the end of the queue, behind the jobs
    /// that wait there.
    pub fn terminate(&mut self)
        requires
            old(self)@.wf(),
        ensures
            final(self)@.wf(),
            final(self)@ == old(self)@.terminated(),
    {
        proof {
            lemma_pool_stays_well_formed(self@, arbitrary(), 0);
        }
        if self.open {
            self.open = false;
            let n = self.workers.len();
            let ghost before = self.queue@;
            let mut i: usize = 0;
            assert(before + terminations::<J>(0) =~= before);
            while i < n
                invariant
                    i <= n,
                    n == self.workers@.len(),
                    !self.open,
                    self@.workers == old(self)@.workers,
                    self@.active == old(self)@.active,
                    self.queue@ == before + terminations::<J>(i as nat),
                decreases n - i,
            {
                self.queue.push_back(Message::Terminate);
                assert(self.queue@ =~= before + terminations::<J>((i + 1) as nat));
                i = i + 1;
            }
        }
    }

    /// Whether every worker is gone.
    pub fn is_drained(&self) -> (r: bool)
        ensures
            r == forall|w: int|
                0 <= w < self@.workers.len() ==> (#[trigger] self@.workers[w])
                    == WorkerState::Gone,
    {
        let mut i: usize = 0;
        while i < self.workers.len()
            invariant
                i <= self.workers@.len(),
                forall|w: int| 0 <= w < i ==> (#[trigger] self.workers@[w]) == WorkerState::Gone,
            decreases self.workers@.len() - i,
        {
            if self.workers[i] != WorkerState::Gone {
                return false;
            }
            i = i + 1;
        }
        true
    }
}

} // verus!
