//! The bookkeeping of a fixed pool of workers: how many there are, and the
//! queue through which jobs reach them.
//!
//! Threads are not made here. The embedding program keeps one [`ThreadPool`]
//! behind a lock, starts one thread for each of its
//! [`workers`](ThreadPool::workers), and lets the thread drive that worker.

use crate::worker::{Worker, WorkerState};
use std::collections::VecDeque;
use vstd::prelude::*;

verus! {

/// What travels through the queue of a pool.
#[derive(Debug, PartialEq, Eq)]
pub enum Message<T> {
    /// A job for whichever worker takes it.
    NewJob(T),
    /// The worker that takes this stops.
    Terminate,
}

/// The state of a pool as its contracts speak of it.
pub struct PoolView<T> {
    /// The number of workers, fixed when the pool is made.
    pub size: nat,
    /// Whether the pool has been shut down.
    pub closed: bool,
    /// Every message that was ever put in the queue, oldest first.
    pub submitted: Seq<Message<T>>,
    /// The messages that wait in the queue, oldest first.
    pub pending: Seq<Message<T>>,
}

impl<T> PoolView<T> {
    /// The number of messages that workers have taken from the queue.
    pub open spec fn taken(self) -> int {
        self.submitted.len() - self.pending.len()
    }

    /// The messages that workers have taken from the queue, oldest first.
    pub open spec fn delivered(self) -> Seq<Message<T>> {
        self.submitted.take(self.taken())
    }

    /// The number of jobs that were ever submitted.
    pub open spec fn jobs(self) -> int {
        if self.closed {
            self.submitted.len() - self.size
        } else {
            self.submitted.len() as int
        }
    }

    /// What holds of every pool: it has a worker; what waits in the queue is
    /// the tail of what was submitted; and what was submitted is a run of
    /// jobs, followed after a shutdown by one `Terminate` for each worker.
    pub open spec fn wf(self) -> bool {
        &&& self.size > 0
        &&& 0 <= self.taken()
        &&& self.pending == self.submitted.skip(self.taken())
        &&& 0 <= self.jobs()
        &&& forall|i: int| 0 <= i < self.jobs() ==> #[trigger] self.submitted[i] is NewJob
        &&& forall|i: int|
            self.jobs() <= i < self.submitted.len() ==> #[trigger] self.submitted[i] is Terminate
    }

    /// A pool of `size` workers to which nothing was submitted yet.
    pub open spec fn new(size: nat) -> PoolView<T> {
        PoolView { size, closed: false, submitted: Seq::empty(), pending: Seq::empty() }
    }

    /// The pool after `job` was submitted.
    pub open spec fn execute(self, job: T) -> PoolView<T> {
        PoolView {
            submitted: self.submitted.push(Message::NewJob(job)),
            pending: self.pending.push(Message::NewJob(job)),
            ..self
        }
    }

    /// `n` times `Terminate`.
    pub open spec fn terminates(n: nat) -> Seq<Message<T>> {
        Seq::new(n, |i: int| Message::Terminate)
    }

    /// The pool after it was shut down.
    pub open spec fn shutdown(self) -> PoolView<T> {
        PoolView {
            closed: true,
            submitted: self.submitted + Self::terminates(self.size),
            pending: self.pending + Self::terminates(self.size),
            ..self
        }
    }

    /// The message that the next worker to ask will be given.
    pub open spec fn front(self) -> Option<Message<T>> {
        if self.pending.len() > 0 {
            Some(self.pending[0])
        } else {
            None
        }
    }

    /// The pool after a worker has asked for a message.
    pub open spec fn receive(self) -> PoolView<T> {
        if self.pending.len() > 0 {
            PoolView { pending: self.pending.drop_first(), ..self }
        } else {
            self
        }
    }
}

/// Submitting a job leaves a pool as it should be, takes nothing from the
/// queue and adds one to the jobs.
pub proof fn lemma_execute_keeps_wf<T>(pool: PoolView<T>, job: T)
    requires
        pool.wf(),
        !pool.closed,
    ensures
        pool.execute(job).wf(),
        pool.execute(job).taken() == pool.taken(),
        pool.execute(job).jobs() == pool.jobs() + 1,
{
    let after = pool.execute(job);
    assert(after.pending =~= after.submitted.skip(after.taken()));
}

/// A shutdown leaves a pool as it should be, takes nothing from the queue
/// and adds no job.
pub proof fn lemma_shutdown_keeps_wf<T>(pool: PoolView<T>)
    requires
        pool.wf(),
        !pool.closed,
    ensures
        pool.shutdown().wf(),
        pool.shutdown().taken() == pool.taken(),
        pool.shutdown().jobs() == pool.jobs(),
{
    let after = pool.shutdown();
    assert(after.pending =~= after.submitted.skip(after.taken()));
}

/// Taking a message leaves a pool as it should be; the message taken is the
/// oldest that no worker had taken yet.
pub proof fn lemma_receive_keeps_wf<T>(pool: PoolView<T>)
    requires
        pool.wf(),
    ensures
        pool.receive().wf(),
        pool.receive().jobs() == pool.jobs(),
        pool.pending.len() > 0 ==> pool.receive().taken() == pool.taken() + 1
            && pool.front() == Some(pool.submitted[pool.taken()]),
        pool.pending.len() == 0 ==> pool.receive() == pool && pool.front() is None,
{
    let after = pool.receive();
    if pool.pending.len() > 0 {
        assert(after.pending =~= after.submitted.skip(after.taken()));
        assert(pool.pending[0] == pool.submitted[pool.taken()]);
    }
}

/// A fixed number of workers and the queue of messages that they share.
pub struct ThreadPool<T> {
    size: usize,
    closed: bool,
    queue: VecDeque<Message<T>>,
    submitted: Ghost<Seq<Message<T>>>,
}

impl<T> View for ThreadPool<T> {
    type V = PoolView<T>;

    closed spec fn view(&self) -> PoolView<T> {
        PoolView {
            size: self.size as nat,
            closed: self.closed,
            submitted: self.submitted@,
            pending: self.queue@,
        }
    }
}

impl<T> ThreadPool<T> {
    /// Makes a pool of `size` workers with an empty queue.
    pub fn new(size: usize) -> (pool: ThreadPool<T>)
        requires
            size > 0,
        ensures
            pool@ == PoolView::<T>::new(size as nat),
            pool@.wf(),
    {
        let pool = ThreadPool {
            size,
            closed: false,
            queue: VecDeque::new(),
            submitted: Ghost(Seq::empty()),
        };
        assert(pool@.pending =~= pool@.submitted.skip(pool@.taken()));
        pool
    }

    /// The number of workers.
    pub fn size(&self) -> (size: usize)
        ensures
            size == self@.size,
    {
        self.size
    }

    /// The workers of the pool, numbered from 0 in order, each waiting for
    /// its first message. The embedding program starts one thread for each.
    pub fn workers(&self) -> (workers: Vec<Worker>)
        ensures
            workers.len() == self@.size,
            forall|i: int|
                0 <= i < workers.len() ==> #[trigger] workers[i] == (Worker {
                    id: i as usize,
                    state: WorkerState::Waiting,
                }),
    {
        let mut workers: Vec<Worker> = Vec::new();
        let mut id: usize = 0;
        while id < self.size
            invariant
                id <= self.size,
                workers.len() == id,
                forall|i: int|
                    0 <= i < id ==> #[trigger] workers[i] == (Worker {
                        id: i as usize,
                        state: WorkerState::Waiting,
                    }),
            decreases self.size - id,
        {
            workers.push(Worker::new(id));
            id += 1;
        }
        workers
    }

    /// Whether the pool has been shut down.
    pub fn is_closed(&self) -> (closed: bool)
        ensures
            closed == self@.closed,
    {
        self.closed
    }

    /// Puts a job at the back of the queue. The queue has no bound, so this
    /// never waits and never turns a job away.
    pub fn execute(&mut self, job: T)
        requires
            old(self)@.wf(),
            !old(self)@.closed,
        ensures
            final(self)@ == old(self)@.execute(job),
            final(self)@.wf(),
    {
        self.submitted = Ghost(self.submitted@.push(Message::NewJob(job)));
        self.queue.push_back(Message::NewJob(job));
        proof {
            lemma_execute_keeps_wf(old(self)@, job);
        }
    }

    /// Shuts the pool down: puts one `Terminate` for each worker at the back
    /// of the queue, behind every job that waits there.
    pub fn shutdown(&mut self)
        requires
            old(self)@.wf(),
            !old(self)@.closed,
        ensures
            final(self)@ == old(self)@.shutdown(),
            final(self)@.wf(),
    {
        let ghost before = self@;
        let mut sent: usize = 0;
        while sent < self.size
            invariant
                sent <= self.size,
                self.size == before.size,
                self.closed == before.closed,
                self.submitted@ == before.submitted + PoolView::<T>::terminates(sent as nat),
                self.queue@ == before.pending + PoolView::<T>::terminates(sent as nat),
            decreases self.size - sent,
        {
            self.submitted = Ghost(self.submitted@.push(Message::Terminate));
            self.queue.push_back(Message::Terminate);
            proof {
                let so_far = PoolView::<T>::terminates(sent as nat);
                let next = PoolView::<T>::terminates((sent + 1) as nat);
                assert(next =~= so_far.push(Message::Terminate));
                assert(self.submitted@ =~= before.submitted + next);
                assert(self.queue@ =~= before.pending + next);
            }
            sent += 1;
        }
        self.closed = true;
        proof {
            lemma_shutdown_keeps_wf(before);
        }
    }

    /// Takes the oldest message from the queue; `None` where the queue is
    /// empty and the worker has to wait.
    pub fn receive(&mut self) -> (message: Option<Message<T>>)
        requires
            old(self)@.wf(),
        ensures
            message == old(self)@.front(),
            final(self)@ == old(self)@.receive(),
            final(self)@.wf(),
    {
        let message = self.queue.pop_front();
        proof {
            lemma_receive_keeps_wf(old(self)@);
            if old(self)@.pending.len() > 0 {
                assert(self@.pending =~= old(self)@.pending.drop_first());
            }
        }
        message
    }
}

/// Nothing is lost, nothing is handed out twice and nothing changes its
/// place: what was submitted is what workers have taken, followed by what
/// still waits, message for message.
pub proof fn law_every_message_once<T>(pool: PoolView<T>)
    requires
        pool.wf(),
    ensures
        pool.submitted == pool.delivered() + pool.pending,
        pool.submitted.len() == pool.delivered().len() + pool.pending.len(),
{
    assert(pool.submitted =~= pool.delivered() + pool.pending);
}

/// A shutdown sends exactly one `Terminate` for each worker, and sends them
/// behind every job.
pub proof fn law_one_terminate_per_worker<T>(pool: PoolView<T>)
    requires
        pool.wf(),
        pool.closed,
    ensures
        pool.submitted.len() == pool.jobs() + pool.size,
        pool.submitted.skip(pool.jobs()) == PoolView::<T>::terminates(pool.size),
        forall|i: int| 0 <= i < pool.jobs() ==> #[trigger] pool.submitted[i] is NewJob,
{
    assert(pool.submitted.skip(pool.jobs()) =~= PoolView::<T>::terminates(pool.size));
}

/// No worker is told to stop while a job waits: once a `Terminate` has been
/// taken from the queue, every job that was ever submitted has been taken
/// before it, and only `Terminate` is left in the queue.
pub proof fn law_jobs_taken_before_terminate<T>(pool: PoolView<T>, at: int)
    requires
        pool.wf(),
        0 <= at < pool.delivered().len(),
        pool.delivered()[at] is Terminate,
    ensures
        pool.closed,
        pool.jobs() <= at,
        forall|i: int| 0 <= i < pool.jobs() ==> #[trigger] pool.delivered()[i] is NewJob,
        forall|i: int| 0 <= i < pool.pending.len() ==> #[trigger] pool.pending[i] is Terminate,
{
    assert(pool.delivered()[at] == pool.submitted[at]);
    if at < pool.jobs() {
        assert(pool.submitted[at] is NewJob);
    }
    assert forall|i: int| 0 <= i < pool.pending.len() implies #[trigger] pool.pending[i] is Terminate by {
        assert(pool.pending[i] == pool.submitted[pool.taken() + i]);
    }
}

} // verus!
