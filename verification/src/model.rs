//! The pool as a mathematical state machine: its states, the steps between
//! them, and the invariant that every step keeps.

use vstd::prelude::*;
use crate::counting::{count_some, live_count, next_worker};
use crate::worker::{Dispatch, Worker, WorkerState};

verus! {

/// Where a pool stands in its life. It only ever moves forward.
#[derive(Clone, Copy, Debug, PartialEq, Eq, Structural)]
pub enum Phase {
    /// Worker slots are still being started.
    Constructing,
    /// Every slot was tried; jobs are accepted.
    Running,
    /// The sending side is gone; workers are being joined.
    ShuttingDown,
    /// Every worker was joined.
    Stopped,
}

/// One step in a pool's life.
pub enum Step<J, H> {
    /// The next slot was tried: a handle, or none where the thread did
    /// not start.
    Register(Option<H>),
    /// A job was accepted.
    Submit(J),
    /// The worker with this id asked for work.
    Ask(usize),
    /// The thread of the worker with this id died.
    Lose(usize),
    /// The sending side was dropped.
    Close,
    /// The next worker's handle was taken.
    BeginJoin,
    /// The join of the next worker returned.
    EndJoin,
}

/// The jobs of a record of hand-outs, in the order they were handed out.
pub open spec fn jobs_of<J>(dispatched: Seq<(usize, J)>) -> Seq<J> {
    dispatched.map_values(|d: (usize, J)| d.1)
}

/// The jobs that these steps give to a pool, in turn.
pub open spec fn submitted_in<J, H>(steps: Seq<Step<J, H>>) -> Seq<J>
    decreases steps.len(),
{
    if steps.len() == 0 {
        Seq::empty()
    } else {
        match steps.last() {
            Step::Submit(job) => submitted_in(steps.drop_last()).push(job),
            _ => submitted_in(steps.drop_last()),
        }
    }
}

/// A pool's state.
pub struct PoolState<J, H> {
    /// How many workers were asked for.
    pub size: nat,
    /// The slots tried so far, in turn: the worker with the slot's number
    /// as its id, or nothing where the thread did not start.
    pub slots: Seq<Option<Worker<H>>>,
    /// How many workers started.
    pub started: nat,
    /// How many workers have a running loop.
    pub live: nat,
    /// The jobs that wait for a worker, oldest first.
    pub queue: Seq<J>,
    /// Whether the sending side is still there.
    pub open: bool,
    /// Once the sending side is gone: the slot of the worker to join next.
    /// The workers in the slots before it were joined.
    pub joined: nat,
    /// Every job ever accepted, in the order of acceptance.
    pub submitted: Seq<J>,
    /// Every hand-out ever made: the worker's id and the job.
    pub dispatched: Seq<(usize, J)>,
}

impl<J, H> PoolState<J, H> {
    /// A pool of `size` slots, none of them tried.
    pub open spec fn init(size: nat) -> Self {
        PoolState {
            size,
            slots: Seq::empty(),
            started: 0,
            live: 0,
            queue: Seq::empty(),
            open: true,
            joined: 0,
            submitted: Seq::empty(),
            dispatched: Seq::empty(),
        }
    }

    /// How many slots failed to start.
    pub open spec fn failed(self) -> nat {
        (self.slots.len() - self.started) as nat
    }

    /// Where the pool stands in its life.
    pub open spec fn phase(self) -> Phase {
        if self.slots.len() < self.size {
            Phase::Constructing
        } else if self.open {
            Phase::Running
        } else if self.joined < self.slots.len() {
            Phase::ShuttingDown
        } else {
            Phase::Stopped
        }
    }

    /// Whether a worker with this id started.
    pub open spec fn has_worker(self, id: usize) -> bool {
        id < self.slots.len() && self.slots[id as int] is Some
    }

    /// The worker with this id.
    pub open spec fn worker(self, id: usize) -> Worker<H>
        recommends
            self.has_worker(id),
    {
        self.slots[id as int]->Some_0
    }

    /// Whether some worker left its loop of its own accord, which it does
    /// only once the sending side is gone and no job waits.
    pub open spec fn some_worker_left(self) -> bool {
        exists|id: usize|
            self.has_worker(id) && (#[trigger] self.worker(id)).state == WorkerState::Exited
    }

    /// Whether a worker with this id started and its loop still runs.
    pub open spec fn has_live_worker(self, id: usize) -> bool {
        self.has_worker(id) && self.worker(id).is_live()
    }

    /// The slots after the worker with this id became another.
    pub open spec fn with_worker(self, id: usize, worker: Worker<H>) -> Seq<Option<Worker<H>>> {
        self.slots.update(id as int, Some(worker))
    }

    /// The invariant of a pool.
    pub open spec fn wf(self) -> bool {
        &&& 0 < self.size <= usize::MAX
        &&& self.slots.len() <= self.size
        &&& self.started == count_some(self.slots)
        &&& self.live == live_count(self.slots)
        &&& self.joined <= self.slots.len()
        // a worker's id is the number of its slot
        &&& forall|i: int|
            0 <= i < self.slots.len() && (#[trigger] self.slots[i]) is Some
                ==> self.slots[i]->Some_0.id == i
        // a joined worker's thread has ended, and it has no handle
        &&& forall|i: int|
            0 <= i < self.joined && (#[trigger] self.slots[i]) is Some
                ==> self.slots[i]->Some_0.handler is None && self.slots[i]->Some_0.has_ended()
        // a worker whose turn to be joined has not come holds its handle
        &&& forall|i: int|
            self.joined < i < self.slots.len() && (#[trigger] self.slots[i]) is Some
                ==> self.slots[i]->Some_0.handler is Some
        // while the sending side is there, no handle is taken and no worker has left
        &&& self.open ==> self.joined == 0 && forall|i: int|
            0 <= i < self.slots.len() && (#[trigger] self.slots[i]) is Some
                ==> self.slots[i]->Some_0.handler is Some && self.slots[i]->Some_0.state
                != WorkerState::Exited
        // once it is gone, every slot was tried, and a worker is next to be joined
        &&& !self.open ==> self.slots.len() == self.size && (self.joined == self.slots.len()
            || self.slots[self.joined as int] is Some)
        // a worker leaves only when nothing is queued
        &&& forall|i: int|
            0 <= i < self.slots.len() && (#[trigger] self.slots[i]) is Some
                && self.slots[i]->Some_0.state == WorkerState::Exited ==> self.queue.len() == 0
        // every accepted job was handed out once or still waits, in order
        &&& self.submitted == jobs_of(self.dispatched) + self.queue
        // no job is accepted before every slot was tried, nor without a worker
        &&& (self.slots.len() < self.size || self.started == 0) ==> self.submitted.len() == 0
        // a job is handed only to a worker of this pool
        &&& forall|k: int|
            0 <= k < self.dispatched.len() ==> self.has_worker((#[trigger] self.dispatched[k]).0)
    }

    /// The outcome of trying the next slot: a handle, or none where the
    /// thread did not start.
    pub open spec fn register(self, handle: Option<H>) -> Self {
        match handle {
            Some(h) => PoolState {
                slots: self.slots.push(Some(Worker::idle(self.slots.len() as usize, h))),
                started: self.started + 1,
                live: self.live + 1,
                ..self
            },
            None => PoolState { slots: self.slots.push(None), ..self },
        }
    }

    /// The state after the next slots were tried in turn, with these
    /// outcomes.
    pub open spec fn after_spawns(self, outcomes: Seq<Option<H>>) -> Self
        decreases outcomes.len(),
    {
        if outcomes.len() == 0 {
            self
        } else {
            self.after_spawns(outcomes.drop_last()).register(outcomes.last())
        }
    }

    /// What is left to do before every worker has left: the jobs that
    /// wait, and the workers whose loops run.
    pub open spec fn work_left(self) -> nat {
        self.queue.len() + self.live
    }

    /// Whether a job can be accepted: the pool runs and some worker lives.
    pub open spec fn accepts_jobs(self) -> bool {
        self.phase() == Phase::Running && self.live > 0
    }

    /// A job is accepted: it joins the queue at its end.
    pub open spec fn submit(self, job: J) -> Self {
        PoolState { queue: self.queue.push(job), submitted: self.submitted.push(job), ..self }
    }

    /// The worker `id` asks for work. A worker that is unknown or no longer
    /// live is sent away. A live one gets the oldest queued job; with none
    /// queued it waits while the sending side is there, and leaves once it
    /// is gone.
    pub open spec fn dispatch(self, id: usize) -> (Self, Dispatch<J>) {
        if !self.has_live_worker(id) {
            (self, Dispatch::Exit)
        } else if self.queue.len() > 0 {
            (
                PoolState {
                    slots: self.with_worker(id, self.worker(id).in_state(WorkerState::Busy)),
                    queue: self.queue.drop_first(),
                    dispatched: self.dispatched.push((id, self.queue[0])),
                    ..self
                },
                Dispatch::Run(self.queue[0]),
            )
        } else if self.open {
            (
                PoolState {
                    slots: self.with_worker(id, self.worker(id).in_state(WorkerState::Idle)),
                    ..self
                },
                Dispatch::Wait,
            )
        } else {
            (
                PoolState {
                    slots: self.with_worker(id, self.worker(id).in_state(WorkerState::Exited)),
                    live: (self.live - 1) as nat,
                    ..self
                },
                Dispatch::Exit,
            )
        }
    }

    /// The thread of worker `id` died: a live worker becomes lost.
    pub open spec fn lose(self, id: usize) -> Self {
        if self.has_live_worker(id) {
            PoolState {
                slots: self.with_worker(id, self.worker(id).in_state(WorkerState::Lost)),
                live: (self.live - 1) as nat,
                ..self
            }
        } else {
            self
        }
    }

    /// The sending side is dropped, and the first worker is next to be
    /// joined. Only a running pool can be closed.
    pub open spec fn close(self) -> Self {
        if self.phase() == Phase::Running {
            PoolState { open: false, joined: next_worker(self.slots, 0), ..self }
        } else {
            self
        }
    }

    /// Whether the next worker's handle can be taken for joining: the
    /// sending side is gone, and the worker still holds its handle.
    pub open spec fn can_begin_join(self) -> bool {
        &&& !self.open
        &&& self.joined < self.slots.len()
        &&& self.slots[self.joined as int] is Some
        &&& self.slots[self.joined as int]->Some_0.handler is Some
    }

    /// The next worker's handle is taken, with the worker's id.
    pub open spec fn begin_join(self) -> (Self, Option<(usize, H)>) {
        if self.can_begin_join() {
            let id = self.joined as usize;
            (
                PoolState { slots: self.with_worker(id, self.worker(id).detached()), ..self },
                Some((id, self.worker(id).handler->Some_0)),
            )
        } else {
            (self, None)
        }
    }

    /// Whether the join of the next worker can be recorded: its handle was
    /// taken, and its thread has ended, whether it left its loop or died
    /// in a job.
    pub open spec fn can_end_join(self) -> bool {
        &&& !self.open
        &&& self.joined < self.slots.len()
        &&& self.slots[self.joined as int] is Some
        &&& self.slots[self.joined as int]->Some_0.handler is None
        &&& self.slots[self.joined as int]->Some_0.has_ended()
    }

    /// The join of the next worker returned: the worker after it is next.
    pub open spec fn end_join(self) -> Self {
        if self.can_end_join() {
            PoolState { joined: next_worker(self.slots, self.joined + 1), ..self }
        } else {
            self
        }
    }

    /// Whether the step can be taken in this state. A slot is tried only
    /// while the pool is built, and a job accepted only where the pool
    /// accepts jobs; any other step can be taken at any time.
    pub open spec fn enabled(self, step: Step<J, H>) -> bool {
        match step {
            Step::Register(_) => self.phase() == Phase::Constructing,
            Step::Submit(_) => self.accepts_jobs(),
            _ => true,
        }
    }

    /// The state after one step.
    pub open spec fn apply(self, step: Step<J, H>) -> Self {
        match step {
            Step::Register(handle) => self.register(handle),
            Step::Submit(job) => self.submit(job),
            Step::Ask(id) => self.dispatch(id).0,
            Step::Lose(id) => self.lose(id),
            Step::Close => self.close(),
            Step::BeginJoin => self.begin_join().0,
            Step::EndJoin => self.end_join(),
        }
    }

    /// The state after these steps, taken in turn.
    pub open spec fn after(self, steps: Seq<Step<J, H>>) -> Self
        decreases steps.len(),
    {
        if steps.len() == 0 {
            self
        } else {
            self.after(steps.drop_last()).apply(steps.last())
        }
    }

    /// Whether these steps can be taken in turn, starting in this state.
    pub open spec fn allows(self, steps: Seq<Step<J, H>>) -> bool
        decreases steps.len(),
    {
        steps.len() == 0 || (self.allows(steps.drop_last()) && self.after(
            steps.drop_last(),
        ).enabled(steps.last()))
    }

    /// The jobs that these steps, taken in turn from this state, hand to
    /// workers, each with the worker's id.
    pub open spec fn handed_out(self, steps: Seq<Step<J, H>>) -> Seq<(usize, J)>
        decreases steps.len(),
    {
        if steps.len() == 0 {
            Seq::empty()
        } else {
            let before = self.handed_out(steps.drop_last());
            match steps.last() {
                Step::Ask(id) => match self.after(steps.drop_last()).dispatch(id).1 {
                    Dispatch::Run(job) => before.push((id, job)),
                    _ => before,
                },
                _ => before,
            }
        }
    }
}

} // verus!
