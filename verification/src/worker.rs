//! One worker of a pool, as a machine of three states: what it does with a
//! message from the queue, and what it does when its job has ended.

use crate::pool::Message;
use vstd::prelude::*;

verus! {

/// Where a worker stands between two steps.
#[derive(Debug, Clone, Copy, PartialEq, Eq)]
pub enum WorkerState {
    /// It has no job and asks the queue for a message.
    Waiting,
    /// It runs a job.
    Running,
    /// It has taken a `Terminate` and asks for nothing more.
    Stopped,
}

/// How a job came to its end.
#[derive(Debug, Clone, Copy, PartialEq, Eq)]
pub enum JobEnd {
    /// The job ran to its end.
    Completed,
    /// The job broke off with a panic.
    Panicked,
}

/// What can happen to a worker.
#[derive(Debug, PartialEq, Eq)]
pub enum Event<T> {
    /// The queue gave it a message.
    Received(Message<T>),
    /// The job that it ran has ended.
    JobEnded(JobEnd),
}

/// What a worker does next.
#[derive(Debug, PartialEq, Eq)]
pub enum Action<T> {
    /// Ask the queue for a message, and wait where it has none.
    Receive,
    /// Run this job to its end.
    Run(T),
    /// Leave the loop.
    Exit,
}

impl WorkerState {
    /// Whether `event` can happen to a worker in this state: a message comes
    /// to one that waits, a job ends for one that runs.
    pub open spec fn accepts<T>(self, event: Event<T>) -> bool {
        match event {
            Event::Received(_) => self is Waiting,
            Event::JobEnded(_) => self is Running,
        }
    }

    /// The state that follows `event`.
    pub open spec fn after<T>(event: Event<T>) -> WorkerState {
        match event {
            Event::Received(Message::NewJob(_)) => WorkerState::Running,
            Event::Received(Message::Terminate) => WorkerState::Stopped,
            Event::JobEnded(_) => WorkerState::Waiting,
        }
    }
}

impl<T> Event<T> {
    /// What the worker does in answer to this event.
    pub open spec fn answer(self) -> Action<T> {
        match self {
            Event::Received(Message::NewJob(job)) => Action::Run(job),
            Event::Received(Message::Terminate) => Action::Exit,
            Event::JobEnded(_) => Action::Receive,
        }
    }
}

/// One worker of a pool: its number and where it stands.
#[derive(Debug, Clone, Copy, PartialEq, Eq)]
pub struct Worker {
    pub id: usize,
    pub state: WorkerState,
}

impl Worker {
    /// A worker that waits for its first message.
    pub fn new(id: usize) -> (worker: Worker)
        ensures
            worker == (Worker { id, state: WorkerState::Waiting }),
    {
        Worker { id, state: WorkerState::Waiting }
    }

    /// Whether `event` is one that can happen to the worker as it stands.
    pub fn expects<T>(&self, event: &Event<T>) -> (expected: bool)
        ensures
            expected == self.state.accepts(*event),
    {
        match event {
            Event::Received(_) => match self.state {
                WorkerState::Waiting => true,
                _ => false,
            },
            Event::JobEnded(_) => match self.state {
                WorkerState::Running => true,
                _ => false,
            },
        }
    }

    /// Takes note of `event` and says what the worker does next: it runs the
    /// job that a message brings, leaves on `Terminate`, and asks for the
    /// next message when a job has ended, however it ended.
    pub fn step<T>(&mut self, event: Event<T>) -> (action: Action<T>)
        requires
            old(self).state.accepts(event),
        ensures
            final(self).id == old(self).id,
            final(self).state == WorkerState::after(event),
            action == event.answer(),
    {
        match event {
            Event::Received(Message::NewJob(job)) => {
                self.state = WorkerState::Running;
                Action::Run(job)
            },
            Event::Received(Message::Terminate) => {
                self.state = WorkerState::Stopped;
                Action::Exit
            },
            Event::JobEnded(_) => {
                self.state = WorkerState::Waiting;
                Action::Receive
            },
        }
    }
}

} // verus!
