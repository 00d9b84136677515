//! A pool at work, seen as a whole: the queue, where every worker stands,
//! and what has become of every job. The moves of this picture are the
//! steps that [`ThreadPool`](crate::pool::ThreadPool) and
//! [`Worker`](crate::worker::Worker) take, one at a time and in any order; what
//! is proved here holds however the moves of many threads fall between one
//! another, as long as each move is taken as a whole.

use crate::pool::{
    lemma_execute_keeps_wf, lemma_receive_keeps_wf, lemma_shutdown_keeps_wf, PoolView,
};
use crate::worker::{Event, JobEnd, WorkerState};
use vstd::prelude::*;

verus! {

/// A pool together with its workers.
pub struct Crew<T> {
    /// The queue.
    pub pool: PoolView<T>,
    /// Where each worker stands, by the number of the worker.
    pub workers: Seq<WorkerState>,
    /// For each worker that runs a job, the place of that job in
    /// `pool.submitted`.
    pub holds: Seq<int>,
    /// The places in `pool.submitted` of the jobs that have ended.
    pub ended: Set<int>,
}

/// One move of a pool at work.
pub enum Move<T> {
    /// Someone submits a job.
    Submit(T),
    /// The pool is shut down.
    Shutdown,
    /// The worker with this number takes a message from the queue.
    Take(int),
    /// The job of the worker with this number ends.
    End(int, JobEnd),
}

/// How many of `workers` stand in `state`.
pub open spec fn count(workers: Seq<WorkerState>, state: WorkerState) -> nat
    decreases workers.len(),
{
    if workers.len() == 0 {
        0
    } else {
        count(workers.drop_last(), state) + if workers.last() == state {
            1nat
        } else {
            0nat
        }
    }
}

/// How many of `workers` have stopped.
pub open spec fn stopped(workers: Seq<WorkerState>) -> nat {
    count(workers, WorkerState::Stopped)
}

/// How many of `workers` run a job.
pub open spec fn running(workers: Seq<WorkerState>) -> nat {
    count(workers, WorkerState::Running)
}

impl<T> Crew<T> {
    /// A pool of `size` workers that all wait, with an empty queue.
    pub open spec fn start(size: nat) -> Crew<T> {
        Crew {
            pool: PoolView::new(size),
            workers: Seq::new(size, |w: int| WorkerState::Waiting),
            holds: Seq::new(size, |w: int| 0int),
            ended: Set::empty(),
        }
    }

    /// Whether `m` can be taken now. Nothing is submitted to a pool that was
    /// shut down, and a pool is shut down once; a worker takes a message
    /// when it waits and the queue holds one; a job ends for a worker that
    /// runs one.
    pub open spec fn allows(self, m: Move<T>) -> bool {
        match m {
            Move::Submit(_) => !self.pool.closed,
            Move::Shutdown => !self.pool.closed,
            Move::Take(w) => {
                &&& 0 <= w < self.workers.len()
                &&& self.workers[w] is Waiting
                &&& self.pool.pending.len() > 0
            },
            Move::End(w, _) => 0 <= w < self.workers.len() && self.workers[w] is Running,
        }
    }

    /// The pool after the move `m`.
    pub open spec fn after(self, m: Move<T>) -> Crew<T> {
        match m {
            Move::Submit(job) => Crew { pool: self.pool.execute(job), ..self },
            Move::Shutdown => Crew { pool: self.pool.shutdown(), ..self },
            Move::Take(w) => Crew {
                pool: self.pool.receive(),
                workers: self.workers.update(
                    w,
                    WorkerState::after(Event::Received(self.pool.pending[0])),
                ),
                holds: self.holds.update(w, self.pool.taken()),
                ..self
            },
            Move::End(w, how) => Crew {
                workers: self.workers.update(w, WorkerState::after(Event::<T>::JobEnded(how))),
                ended: self.ended.insert(self.holds[w]),
                ..self
            },
        }
    }

    /// The number of jobs that workers have taken from the queue.
    pub open spec fn jobs_taken(self) -> int {
        if self.pool.taken() <= self.pool.jobs() {
            self.pool.taken()
        } else {
            self.pool.jobs()
        }
    }

    /// The number of `Terminate` messages that workers have taken.
    pub open spec fn terminates_taken(self) -> int {
        self.pool.taken() - self.jobs_taken()
    }

    /// Worker `w` runs the job at place `k`.
    pub open spec fn runs(self, w: int, k: int) -> bool {
        &&& 0 <= w < self.workers.len()
        &&& self.workers[w] is Running
        &&& self.holds[w] == k
    }

    /// The job at place `k` is run by some worker.
    pub open spec fn is_running(self, k: int) -> bool {
        exists|w: int| self.runs(w, k)
    }

    /// How much work is left: two steps for every job that waits in the
    /// queue, to take it and to end it, and one for every job that is being
    /// run.
    pub open spec fn work_left(self) -> int {
        2 * (self.pool.jobs() - self.jobs_taken()) + running(self.workers)
    }

    /// How many moves the workers have left to make if nothing more is
    /// submitted: the work that is left, and for every worker that has not
    /// stopped the taking of its `Terminate`.
    pub open spec fn moves_left(self) -> int {
        self.work_left() + (self.pool.size - stopped(self.workers))
    }

    /// Worker `w` can make a move that does work: take a job from the queue,
    /// or bring its job to an end.
    pub open spec fn can_work(self, w: int) -> bool {
        ||| self.allows(Move::End(w, JobEnd::Completed))
        ||| (self.allows(Move::Take(w)) && self.pool.pending[0] is NewJob)
    }

    /// Worker `w` can make a move: take a message, or bring its job to an
    /// end.
    pub open spec fn can_move(self, w: int) -> bool {
        self.allows(Move::Take(w)) || self.allows(Move::End(w, JobEnd::Completed))
    }

    /// What holds of a pool at work after any number of moves.
    pub open spec fn inv(self) -> bool {
        &&& self.pool.wf()
        &&& self.workers.len() == self.pool.size
        &&& self.holds.len() == self.pool.size
        &&& forall|w: int, k: int| #[trigger]
            self.runs(w, k) ==> 0 <= k < self.jobs_taken() && !self.ended.contains(k)
        &&& forall|v: int, w: int, k: int|
            self.runs(v, k) && self.runs(w, k) ==> v == w
        &&& forall|k: int|
            0 <= k < self.jobs_taken() ==> #[trigger] self.ended.contains(k) || self.is_running(k)
        &&& forall|k: int| #[trigger] self.ended.contains(k) ==> 0 <= k < self.jobs_taken()
        &&& stopped(self.workers) == self.terminates_taken()
    }
}

/// Changing one worker changes a count by that worker alone.
pub proof fn lemma_count_update(
    workers: Seq<WorkerState>,
    w: int,
    new: WorkerState,
    state: WorkerState,
)
    requires
        0 <= w < workers.len(),
    ensures
        count(workers.update(w, new), state) + (if workers[w] == state {
            1nat
        } else {
            0nat
        }) == count(workers, state) + (if new == state {
            1nat
        } else {
            0nat
        }),
    decreases workers.len(),
{
    let changed = workers.update(w, new);
    if w == workers.len() - 1 {
        assert(changed.drop_last() =~= workers.drop_last());
    } else {
        lemma_count_update(workers.drop_last(), w, new, state);
        assert(changed.drop_last() =~= workers.drop_last().update(w, new));
    }
}

/// No more workers stand in a state than there are; all do only where each
/// one does, and none does only where each one does not.
pub proof fn lemma_count_bounds(workers: Seq<WorkerState>, state: WorkerState)
    ensures
        count(workers, state) <= workers.len(),
        count(workers, state) == workers.len() <==> forall|w: int|
            0 <= w < workers.len() ==> #[trigger] workers[w] == state,
        count(workers, state) == 0 <==> forall|w: int|
            0 <= w < workers.len() ==> #[trigger] workers[w] != state,
    decreases workers.len(),
{
    if workers.len() > 0 {
        let front = workers.drop_last();
        lemma_count_bounds(front, state);
        assert forall|w: int| 0 <= w < front.len() implies front[w] == workers[w] by {}
        if count(workers, state) == workers.len() {
            assert forall|w: int| 0 <= w < workers.len() implies #[trigger] workers[w]
                == state by {
                if w < front.len() {
                    assert(front[w] == state);
                }
            }
        }
        if forall|w: int| 0 <= w < workers.len() ==> #[trigger] workers[w] == state {
            assert forall|w: int| 0 <= w < front.len() implies #[trigger] front[w] == state by {
                assert(workers[w] == state);
            }
        }
        if count(workers, state) == 0 {
            assert forall|w: int| 0 <= w < workers.len() implies #[trigger] workers[w]
                != state by {
                if w < front.len() {
                    assert(front[w] != state);
                }
            }
        }
        if forall|w: int| 0 <= w < workers.len() ==> #[trigger] workers[w] != state {
            assert forall|w: int| 0 <= w < front.len() implies #[trigger] front[w] != state by {
                assert(workers[w] != state);
            }
        }
    }
}

/// A pool that has just been made is as it should be.
pub proof fn law_start_is_sound<T>(size: nat)
    requires
        size > 0,
    ensures
        Crew::<T>::start(size).inv(),
{
    let crew = Crew::<T>::start(size);
    assert(crew.pool.pending =~= crew.pool.submitted.skip(crew.pool.taken()));
    lemma_count_bounds(crew.workers, WorkerState::Stopped);
}

/// A move that leaves the workers and the taken jobs as they are leaves a
/// pool at work as it should be.
proof fn lemma_queue_moves_are_sound<T>(crew: Crew<T>, next: Crew<T>)
    requires
        crew.inv(),
        next.pool.wf(),
        next.pool.size == crew.pool.size,
        next.workers == crew.workers,
        next.holds == crew.holds,
        next.ended == crew.ended,
        next.jobs_taken() == crew.jobs_taken(),
        next.terminates_taken() == crew.terminates_taken(),
    ensures
        next.inv(),
{
    assert forall|w: int, k: int| #[trigger] next.runs(w, k) implies 0 <= k < next.jobs_taken()
        && !next.ended.contains(k) by {
        assert(crew.runs(w, k));
    }
    assert forall|v: int, w: int, k: int| next.runs(v, k) && next.runs(w, k) implies v == w by {
        assert(crew.runs(v, k) && crew.runs(w, k));
    }
    assert forall|k: int| 0 <= k < next.jobs_taken() implies #[trigger] next.ended.contains(k)
        || next.is_running(k) by {
        if !crew.ended.contains(k) {
            let w = choose|w: int| crew.runs(w, k);
            assert(next.runs(w, k));
        }
    }
}

/// Every move leaves a pool at work as it should be.
pub proof fn law_moves_are_sound<T>(crew: Crew<T>, m: Move<T>)
    requires
        crew.inv(),
        crew.allows(m),
    ensures
        crew.after(m).inv(),
{
    let next = crew.after(m);
    match m {
        Move::Submit(job) => {
            lemma_execute_keeps_wf(crew.pool, job);
            lemma_queue_moves_are_sound(crew, next);
        },
        Move::Shutdown => {
            lemma_shutdown_keeps_wf(crew.pool);
            lemma_queue_moves_are_sound(crew, next);
        },
        Move::Take(taker) => {
            lemma_receive_keeps_wf(crew.pool);
            let place = crew.pool.taken();
            let message = crew.pool.pending[0];
            lemma_count_update(
                crew.workers,
                taker,
                WorkerState::after(Event::Received(message)),
                WorkerState::Stopped,
            );
            assert(message == crew.pool.submitted[place]);
            assert(place < crew.pool.jobs() ==> message is NewJob && next.runs(taker, place));
            assert(place >= crew.pool.jobs() ==> message is Terminate);
            assert forall|w: int, k: int| #[trigger] next.runs(w, k) implies 0 <= k
                < next.jobs_taken() && !next.ended.contains(k) by {
                if w != taker {
                    assert(crew.runs(w, k));
                }
            }
            assert forall|v: int, w: int, k: int| next.runs(v, k) && next.runs(w, k) implies v
                == w by {
                assert(v != taker ==> crew.runs(v, k));
                assert(w != taker ==> crew.runs(w, k));
            }
            assert forall|k: int| 0 <= k < next.jobs_taken() implies #[trigger] next.ended.contains(
                k,
            ) || next.is_running(k) by {
                if k == place {
                    assert(next.runs(taker, k));
                } else if !crew.ended.contains(k) {
                    let w = choose|w: int| crew.runs(w, k);
                    assert(next.runs(w, k));
                }
            }
        },
        Move::End(worker, how) => {
            let place = crew.holds[worker];
            assert(crew.runs(worker, place));
            lemma_count_update(crew.workers, worker, WorkerState::Waiting, WorkerState::Stopped);
            assert forall|w: int, k: int| #[trigger] next.runs(w, k) implies 0 <= k
                < next.jobs_taken() && !next.ended.contains(k) by {
                assert(crew.runs(w, k));
            }
            assert forall|v: int, w: int, k: int| next.runs(v, k) && next.runs(w, k) implies v
                == w by {
                assert(crew.runs(v, k) && crew.runs(w, k));
            }
            assert forall|k: int| 0 <= k < next.jobs_taken() implies #[trigger] next.ended.contains(
                k,
            ) || next.is_running(k) by {
                if k != place && !crew.ended.contains(k) {
                    let w = choose|w: int| crew.runs(w, k);
                    assert(next.runs(w, k));
                }
            }
        },
    }
}

/// The pool that a list of moves leads to, begun with `size` workers that
/// wait and an empty queue.
pub open spec fn reached<T>(size: nat, moves: Seq<Move<T>>) -> Crew<T>
    decreases moves.len(),
{
    if moves.len() == 0 {
        Crew::start(size)
    } else {
        reached(size, moves.drop_last()).after(moves.last())
    }
}

/// Each of `moves` can be taken when its turn comes.
pub open spec fn can_be_played<T>(size: nat, moves: Seq<Move<T>>) -> bool
    decreases moves.len(),
{
    moves.len() == 0 || (can_be_played(size, moves.drop_last()) && reached(
        size,
        moves.drop_last(),
    ).allows(moves.last()))
}

/// Whatever moves are taken and however they follow one another, the pool
/// they lead to is as it should be.
pub proof fn law_every_run_is_sound<T>(size: nat, moves: Seq<Move<T>>)
    requires
        size > 0,
        can_be_played(size, moves),
    ensures
        reached(size, moves).inv(),
    decreases moves.len(),
{
    if moves.len() == 0 {
        law_start_is_sound::<T>(size);
    } else {
        law_every_run_is_sound(size, moves.drop_last());
        law_moves_are_sound(reached(size, moves.drop_last()), moves.last());
    }
}

/// When every worker has stopped, nothing is left undone: the pool was shut
/// down, the queue is empty, no job is being run, and every job that was
/// ever submitted has ended.
pub proof fn law_all_stopped_all_ended<T>(crew: Crew<T>)
    requires
        crew.inv(),
        forall|w: int| 0 <= w < crew.workers.len() ==> #[trigger] crew.workers[w] is Stopped,
    ensures
        crew.pool.closed,
        crew.pool.pending.len() == 0,
        forall|k: int| !crew.is_running(k),
        forall|k: int| 0 <= k < crew.pool.jobs() ==> crew.ended.contains(k),
{
    lemma_count_bounds(crew.workers, WorkerState::Stopped);
    assert forall|k: int| !crew.is_running(k) by {
        if crew.is_running(k) {
            let w = choose|w: int| crew.runs(w, k);
            assert(crew.workers[w] is Stopped);
        }
    }
    assert forall|k: int| 0 <= k < crew.pool.jobs() implies crew.ended.contains(k) by {
        assert(crew.ended.contains(k) || crew.is_running(k));
    }
}

/// No job is lost and none is run twice: at every moment a job that was
/// submitted is in exactly one place. It waits in the queue, or one worker
/// and no other runs it, or it has ended.
pub proof fn law_job_is_in_one_place<T>(crew: Crew<T>, k: int)
    requires
        crew.inv(),
        0 <= k < crew.pool.jobs(),
    ensures
        crew.pool.submitted[k] is NewJob,
        k >= crew.pool.taken() <==> !crew.is_running(k) && !crew.ended.contains(k),
        !(crew.is_running(k) && crew.ended.contains(k)),
        forall|v: int, w: int| crew.runs(v, k) && crew.runs(w, k) ==> v == w,
{
    if crew.is_running(k) {
        let w = choose|w: int| crew.runs(w, k);
        assert(crew.runs(w, k));
    }
    if k < crew.pool.taken() {
        assert(crew.ended.contains(k) || crew.is_running(k));
    }
}

/// Work never comes to a standstill: as long as a job has not ended, some
/// worker can take a message or can bring its job to an end, however many
/// jobs wait and however few workers there are.
pub proof fn law_work_can_go_on<T>(crew: Crew<T>, k: int)
    requires
        crew.inv(),
        0 <= k < crew.pool.jobs(),
        !crew.ended.contains(k),
    ensures
        exists|w: int| crew.can_move(w),
{
    if crew.is_running(k) {
        let w = choose|w: int| crew.runs(w, k);
        assert(crew.can_move(w));
    } else {
        assert(k >= crew.pool.taken()) by {
            if k < crew.pool.taken() {
                assert(crew.ended.contains(k) || crew.is_running(k));
            }
        }
        lemma_count_bounds(crew.workers, WorkerState::Stopped);
        assert(!(crew.workers[0] is Stopped));
        assert(crew.can_move(0));
    }
}

/// A job that panics costs the pool nothing but that job: the worker that
/// ran it waits for the next message, as it does after a job that ran to
/// its end, and the pool is as it should be.
pub proof fn law_panic_costs_no_worker<T>(crew: Crew<T>, w: int)
    requires
        crew.inv(),
        crew.allows(Move::End(w, JobEnd::Panicked)),
    ensures
        crew.after(Move::End(w, JobEnd::Panicked)) == crew.after(
            Move::End(w, JobEnd::Completed),
        ),
        crew.after(Move::End(w, JobEnd::Panicked)).workers[w] is Waiting,
        crew.after(Move::End(w, JobEnd::Panicked)).inv(),
{
    law_moves_are_sound(crew, Move::End(w, JobEnd::Panicked));
}

/// Jobs are begun in the order in which they were submitted: the message
/// that a worker takes is the oldest that no worker had taken, so a job is
/// taken only when every job submitted before it has been taken.
pub proof fn law_oldest_first<T>(crew: Crew<T>, w: int)
    requires
        crew.inv(),
        crew.allows(Move::Take(w)),
    ensures
        crew.pool.front() == Some(crew.pool.submitted[crew.pool.taken()]),
        crew.after(Move::Take(w)).pool.taken() == crew.pool.taken() + 1,
        crew.pool.submitted[crew.pool.taken()] is NewJob ==> crew.after(Move::Take(w)).runs(
            w,
            crew.pool.taken(),
        ),
        crew.pool.submitted[crew.pool.taken()] is Terminate ==> crew.after(
            Move::Take(w),
        ).workers[w] is Stopped,
{
    lemma_receive_keeps_wf(crew.pool);
}

/// No move changes the place of a message: what was submitted stays where it
/// is, whoever submits more, and a move takes at most one message from the
/// queue.
pub proof fn law_places_are_kept<T>(crew: Crew<T>, m: Move<T>)
    requires
        crew.inv(),
        crew.allows(m),
    ensures
        crew.pool.submitted.len() <= crew.after(m).pool.submitted.len(),
        crew.after(m).pool.submitted.take(crew.pool.submitted.len() as int)
            == crew.pool.submitted,
        crew.pool.taken() <= crew.after(m).pool.taken() <= crew.pool.taken() + 1,
        crew.after(m).pool.delivered().take(crew.pool.taken()) == crew.pool.delivered(),
{
    let next = crew.after(m);
    let n = crew.pool.submitted.len() as int;
    lemma_receive_keeps_wf(crew.pool);
    assert(next.pool.submitted.take(n) =~= crew.pool.submitted);
    assert(next.pool.delivered().take(crew.pool.taken()) =~= crew.pool.delivered());
}

/// Every move of a worker uses up one of the moves that are left, and a
/// move that takes a job or ends one uses up one piece of the work that is
/// left. Only submitting adds work, two pieces for a job; a shutdown adds
/// none.
pub proof fn law_moves_use_up_work<T>(crew: Crew<T>, m: Move<T>)
    requires
        crew.inv(),
        crew.allows(m),
    ensures
        match m {
            Move::Submit(_) => {
                &&& crew.after(m).work_left() == crew.work_left() + 2
                &&& crew.after(m).moves_left() == crew.moves_left() + 2
            },
            Move::Shutdown => {
                &&& crew.after(m).work_left() == crew.work_left()
                &&& crew.after(m).moves_left() == crew.moves_left()
            },
            Move::Take(_) => {
                &&& crew.after(m).moves_left() == crew.moves_left() - 1
                &&& crew.after(m).work_left() == if crew.pool.pending[0] is NewJob {
                    crew.work_left() - 1
                } else {
                    crew.work_left()
                }
            },
            Move::End(_, _) => {
                &&& crew.after(m).work_left() == crew.work_left() - 1
                &&& crew.after(m).moves_left() == crew.moves_left() - 1
            },
        },
{
    match m {
        Move::Submit(job) => {
            lemma_execute_keeps_wf(crew.pool, job);
        },
        Move::Shutdown => {
            lemma_shutdown_keeps_wf(crew.pool);
        },
        Move::Take(taker) => {
            lemma_receive_keeps_wf(crew.pool);
            let message = crew.pool.pending[0];
            let state = WorkerState::after(Event::Received(message));
            assert(message == crew.pool.submitted[crew.pool.taken()]);
            lemma_count_update(crew.workers, taker, state, WorkerState::Stopped);
            lemma_count_update(crew.workers, taker, state, WorkerState::Running);
        },
        Move::End(worker, how) => {
            lemma_count_update(crew.workers, worker, WorkerState::Waiting, WorkerState::Stopped);
            lemma_count_update(crew.workers, worker, WorkerState::Waiting, WorkerState::Running);
        },
    }
}

/// The counts come out: work is never less than none, and none is left
/// exactly when every job that was submitted has ended; no moves are left
/// exactly when every worker has stopped.
pub proof fn law_nothing_left_all_done<T>(crew: Crew<T>)
    requires
        crew.inv(),
    ensures
        0 <= crew.work_left() <= crew.moves_left(),
        crew.work_left() == 0 <==> forall|k: int|
            0 <= k < crew.pool.jobs() ==> crew.ended.contains(k),
        crew.moves_left() == 0 <==> forall|w: int|
            0 <= w < crew.workers.len() ==> #[trigger] crew.workers[w] is Stopped,
{
    lemma_count_bounds(crew.workers, WorkerState::Stopped);
    lemma_count_bounds(crew.workers, WorkerState::Running);
    if crew.work_left() == 0 {
        assert forall|k: int| 0 <= k < crew.pool.jobs() implies crew.ended.contains(k) by {
            if crew.is_running(k) {
                let w = choose|w: int| crew.runs(w, k);
                assert(crew.workers[w] == WorkerState::Running);
            }
            assert(crew.ended.contains(k) || crew.is_running(k));
        }
    }
    if forall|k: int| 0 <= k < crew.pool.jobs() ==> crew.ended.contains(k) {
        if crew.pool.jobs() > 0 {
            assert(crew.ended.contains(crew.pool.jobs() - 1));
        }
        assert forall|w: int| 0 <= w < crew.workers.len() implies #[trigger] crew.workers[w]
            != WorkerState::Running by {
            if crew.workers[w] is Running {
                assert(crew.runs(w, crew.holds[w]));
                assert(crew.ended.contains(crew.holds[w]));
            }
        }
    }
    if forall|w: int| 0 <= w < crew.workers.len() ==> #[trigger] crew.workers[w] is Stopped {
        assert(forall|w: int|
            0 <= w < crew.workers.len() ==> #[trigger] crew.workers[w] == WorkerState::Stopped);
        assert(forall|w: int|
            0 <= w < crew.workers.len() ==> #[trigger] crew.workers[w] != WorkerState::Running);
    }
    if crew.moves_left() == 0 {
        assert(forall|w: int|
            0 <= w < crew.workers.len() ==> #[trigger] crew.workers[w] == WorkerState::Stopped);
    }
}

/// Work is done as long as there is any: while work is left, some worker
/// can take a job or bring one to an end, and by that move one piece less is
/// left. So the work that is left when nothing more is submitted is done
/// after that many moves of the workers.
pub proof fn law_work_is_done_step_by_step<T>(crew: Crew<T>)
    requires
        crew.inv(),
        crew.work_left() > 0,
    ensures
        exists|w: int| crew.can_work(w),
        forall|w: int| #[trigger]
            crew.can_work(w) ==> {
                ||| (crew.allows(Move::End(w, JobEnd::Completed)) && crew.after(
                    Move::End(w, JobEnd::Completed),
                ).work_left() == crew.work_left() - 1)
                ||| (crew.allows(Move::Take(w)) && crew.after(Move::Take(w)).work_left()
                    == crew.work_left() - 1)
            },
{
    lemma_count_bounds(crew.workers, WorkerState::Stopped);
    lemma_count_bounds(crew.workers, WorkerState::Running);
    if crew.jobs_taken() < crew.pool.jobs() {
        assert(crew.pool.pending[0] == crew.pool.submitted[crew.pool.taken()]);
        assert(crew.workers[0] != WorkerState::Stopped);
        assert(crew.can_work(0));
    } else {
        assert(running(crew.workers) > 0);
        let w = choose|w: int| 0 <= w < crew.workers.len() && #[trigger] crew.workers[w]
            == WorkerState::Running;
        assert(crew.can_work(w));
    }
    assert forall|w: int| #[trigger] crew.can_work(w) implies {
        ||| (crew.allows(Move::End(w, JobEnd::Completed)) && crew.after(
            Move::End(w, JobEnd::Completed),
        ).work_left() == crew.work_left() - 1)
        ||| (crew.allows(Move::Take(w)) && crew.after(Move::Take(w)).work_left()
            == crew.work_left() - 1)
    } by {
        if crew.allows(Move::End(w, JobEnd::Completed)) {
            law_moves_use_up_work(crew, Move::End(w, JobEnd::Completed));
        } else {
            law_moves_use_up_work(crew, Move::Take(w));
        }
    }
}

/// A shutdown comes to its end: in a pool that was shut down, as long as a
/// worker has not stopped, some worker can move, and by every move of a
/// worker one move less is left. So every worker has stopped after as many
/// moves of the workers as were left at the shutdown, and then every job has
/// ended.
pub proof fn law_shutdown_comes_to_an_end<T>(crew: Crew<T>)
    requires
        crew.inv(),
        crew.pool.closed,
        crew.moves_left() > 0,
    ensures
        exists|w: int| crew.can_move(w),
        forall|w: int| #[trigger]
            crew.allows(Move::Take(w)) ==> crew.after(Move::Take(w)).moves_left()
                == crew.moves_left() - 1,
        forall|w: int, how: JobEnd| #[trigger]
            crew.allows(Move::End(w, how)) ==> crew.after(Move::End(w, how)).moves_left()
                == crew.moves_left() - 1,
{
    lemma_count_bounds(crew.workers, WorkerState::Stopped);
    lemma_count_bounds(crew.workers, WorkerState::Running);
    law_nothing_left_all_done(crew);
    let w = choose|w: int| 0 <= w < crew.workers.len() && !(#[trigger] crew.workers[w] is Stopped);
    assert(crew.can_move(w));
    assert forall|w: int| #[trigger] crew.allows(Move::Take(w)) implies crew.after(
        Move::Take(w),
    ).moves_left() == crew.moves_left() - 1 by {
        law_moves_use_up_work(crew, Move::Take(w));
    }
    assert forall|w: int, how: JobEnd| #[trigger] crew.allows(Move::End(w, how)) implies crew.after(
        Move::End(w, how),
    ).moves_left() == crew.moves_left() - 1 by {
        law_moves_use_up_work(crew, Move::End(w, how));
    }
}

} // verus!
