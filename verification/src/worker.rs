//! One worker of a pool: its id, its thread handle and what it is doing.

use vstd::prelude::*;
use crate::error::{error_text, ThreadPoolError};

verus! {

/// What a worker is doing, as far as the pool has been told.
#[derive(Clone, Copy, Debug, PartialEq, Eq, Structural)]
pub enum WorkerState {
    /// Waiting for a job.
    Idle,
    /// Running a job that it was handed.
    Busy,
    /// Left its loop, after it saw the queue closed and empty.
    Exited,
    /// Its thread died while it ran a job.
    Lost,
}

/// What a worker that asks for work is told to do.
#[derive(Debug)]
pub enum Dispatch<J> {
    /// Run this job, then ask again.
    Run(J),
    /// Nothing is queued and more may come: block, then ask again.
    Wait,
    /// Nothing is queued and nothing will come: leave the loop.
    Exit,
}

/// A worker: the slot it was started for, the handle of its thread until
/// that is taken for joining, and its state.
#[derive(Debug)]
pub struct Worker<H> {
    /// The slot's number, counted from zero.
    pub id: usize,
    /// The handle of the worker's thread, until it is taken for joining.
    pub handler: Option<H>,
    /// What the worker is doing.
    pub state: WorkerState,
}

/// The handle that starting a thread gave, if it started.
pub open spec fn started<H>(spawned: Result<H, std::io::Error>) -> Option<H> {
    match spawned {
        Ok(handle) => Some(handle),
        Err(_) => None,
    }
}

/// The text that every message of a failed start begins with.
pub open spec fn spawn_failure_prefix() -> Seq<char> {
    "Cannot create new thread: "@
}

/// The error for a worker whose thread could not be started, given the
/// cause as text.
pub fn spawn_failure(cause: &str) -> (r: ThreadPoolError)
    ensures
        r is WorkerCreationError,
        r.spec_message() == spawn_failure_prefix() + cause@,
{
    let mut message = String::from_str("Cannot create new thread: ");
    message.append(cause);
    ThreadPoolError::WorkerCreationError(message)
}

impl<H> Worker<H> {
    /// The worker of a thread that has just started for slot `id`.
    pub open spec fn idle(id: usize, handle: H) -> Self {
        Worker { id, handler: Some(handle), state: WorkerState::Idle }
    }

    /// Whether the worker's loop is still running, as far as the pool knows.
    pub open spec fn is_live(self) -> bool {
        self.state == WorkerState::Idle || self.state == WorkerState::Busy
    }

    /// Whether the worker's thread has ended: it left its loop, or it died.
    pub open spec fn has_ended(self) -> bool {
        self.state == WorkerState::Exited || self.state == WorkerState::Lost
    }

    /// The same worker in another state.
    pub open spec fn in_state(self, state: WorkerState) -> Self {
        Worker { id: self.id, handler: self.handler, state }
    }

    /// The same worker with its handle taken.
    pub open spec fn detached(self) -> Self {
        Worker { id: self.id, handler: None, state: self.state }
    }

    /// The worker for slot `id`, from the outcome of starting its thread.
    /// A started thread gives an idle worker that holds the handle; a
    /// failed start gives the error that names the cause.
    pub fn new(id: usize, spawned: Result<H, std::io::Error>) -> (r: Result<
        Worker<H>,
        ThreadPoolError,
    >)
        ensures
            spawned matches Ok(handle) ==> r is Ok && r->Ok_0 == Self::idle(id, handle),
            spawned is Err ==> r is Err && r->Err_0 is WorkerCreationError
                && spawn_failure_prefix().is_prefix_of(r->Err_0.spec_message()),
    {
        match spawned {
            Ok(handle) => Ok(Worker { id, handler: Some(handle), state: WorkerState::Idle }),
            Err(err) => {
                let cause = error_text(&err);
                Err(spawn_failure(cause.as_str()))
            },
        }
    }
}

} // verus!
