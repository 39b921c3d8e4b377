//! The pool itself: the state machine of `model`, in executable form.

use std::collections::VecDeque;
use vstd::prelude::*;
use crate::error::ThreadPoolError;
use crate::counting::{lemma_count_some_bound, lemma_live_count_bound, next_worker};
use crate::model::{Phase, PoolState};
use crate::worker::{started, Dispatch, Worker, WorkerState};

verus! {

/// A pool of workers that run jobs of type `J`; `H` is the handle by which
/// a worker's thread is joined.
///
/// The pool never runs a job and never blocks. Its caller starts the
/// threads, hands each outcome to `register`, lets every worker ask
/// `next_job` in a loop, and reports a thread that died in a job with
/// `abandon`. At the end it calls `close`, then `next_join` and
/// `finish_join` for each worker, lost ones too. One lock around the pool
/// is enough.
pub struct ThreadPool<J, H> {
    size: usize,
    slots: Vec<Option<Worker<H>>>,
    started: usize,
    live: usize,
    queue: VecDeque<J>,
    open: bool,
    joined: usize,
    submitted: Ghost<Seq<J>>,
    dispatched: Ghost<Seq<(usize, J)>>,
}

impl<J, H> View for ThreadPool<J, H> {
    type V = PoolState<J, H>;

    closed spec fn view(&self) -> PoolState<J, H> {
        PoolState {
            size: self.size as nat,
            slots: self.slots@,
            started: self.started as nat,
            live: self.live as nat,
            queue: self.queue@,
            open: self.open,
            joined: self.joined as nat,
            submitted: self.submitted@,
            dispatched: self.dispatched@,
        }
    }
}

/// Puts the worker in slot `id` into another state.
fn set_state<H>(slots: &mut Vec<Option<Worker<H>>>, id: usize, state: WorkerState)
    requires
        id < old(slots)@.len(),
        old(slots)@[id as int] is Some,
    ensures
        final(slots)@ == old(slots)@.update(
            id as int,
            Some(old(slots)@[id as int]->Some_0.in_state(state)),
        ),
{
    match &mut slots[id] {
        Some(worker) => {
            worker.state = state;
        },
        None => {},
    }
}

/// The first slot from `from` on that holds a worker; the number of slots
/// where there is none.
fn skip_empty<H>(slots: &Vec<Option<Worker<H>>>, from: usize) -> (r: usize)
    requires
        from <= slots@.len(),
    ensures
        r == next_worker(slots@, from as nat),
{
    let mut i: usize = from;
    while i < slots.len() && slots[i].is_none()
        invariant
            from <= i <= slots@.len(),
            next_worker(slots@, from as nat) == next_worker(slots@, i as nat),
        decreases slots@.len() - i,
    {
        i = i + 1;
    }
    i
}

impl<J, H> ThreadPool<J, H> {
    /// The pool's invariant: that of its state.
    pub open spec fn wf(&self) -> bool {
        self@.wf()
    }

    /// The message of the error for a pool without workers.
    pub open spec fn no_threads_message() -> Seq<char> {
        "Low number of threads!"@
    }

    /// A pool of `size` workers, none of them started yet. A pool of no
    /// workers is refused.
    pub fn new(size: usize) -> (r: Result<ThreadPool<J, H>, ThreadPoolError>)
        ensures
            size == 0 ==> r is Err && r->Err_0 is ThreadCreationError && r->Err_0.spec_message()
                == Self::no_threads_message(),
            size > 0 ==> r is Ok && r->Ok_0.wf() && r->Ok_0@ == PoolState::<J, H>::init(
                size as nat,
            ),
    {
        if size > 0 {
            let pool = ThreadPool {
                size,
                slots: Vec::new(),
                started: 0,
                live: 0,
                queue: VecDeque::new(),
                open: true,
                joined: 0,
                submitted: Ghost(Seq::empty()),
                dispatched: Ghost(Seq::empty()),
            };
            proof {
                PoolState::<J, H>::lemma_init_wf(size as nat);
                assert(pool@ =~= PoolState::<J, H>::init(size as nat));
            }
            Ok(pool)
        } else {
            Err(ThreadPoolError::ThreadCreationError(String::from_str("Low number of threads!")))
        }
    }

    /// The id of the slot to start next, while any is left.
    pub fn next_slot(&self) -> (r: Option<usize>)
        ensures
            r == if self@.phase() == Phase::Constructing {
                Some(self@.slots.len() as usize)
            } else {
                None
            },
    {
        if self.slots.len() < self.size {
            Some(self.slots.len())
        } else {
            None
        }
    }

    /// Records the outcome of starting the next slot's thread. A thread
    /// that started becomes a worker with the slot's id; one that did not
    /// leaves its slot empty.
    pub fn register(&mut self, spawned: Result<H, std::io::Error>)
        requires
            old(self).wf(),
            old(self)@.phase() == Phase::Constructing,
        ensures
            final(self).wf(),
            final(self)@ == old(self)@.register(started(spawned)),
    {
        proof {
            self@.lemma_register_wf(started(spawned));
            lemma_count_some_bound(self.slots@);
            lemma_live_count_bound(self.slots@);
        }
        let id = self.slots.len();
        match Worker::new(id, spawned) {
            Ok(worker) => {
                self.slots.push(Some(worker));
                self.started = self.started + 1;
                self.live = self.live + 1;
            },
            Err(_) => {
                self.slots.push(None);
            },
        }
        assert(self@ =~= old(self)@.register(started(spawned)));
    }

    /// Whether a worker with this id started and its loop still runs.
    fn is_live(&self, id: usize) -> (r: bool)
        ensures
            r == self@.has_live_worker(id),
    {
        if id >= self.slots.len() {
            return false;
        }
        match &self.slots[id] {
            Some(worker) => worker.state == WorkerState::Idle || worker.state
                == WorkerState::Busy,
            None => false,
        }
    }

    /// Whether a job can be accepted now: the pool runs, and at least one
    /// worker is there to take it.
    pub fn accepts_jobs(&self) -> (r: bool)
        ensures
            r == self@.accepts_jobs(),
    {
        self.slots.len() >= self.size && self.open && self.live > 0
    }

    /// Accepts a job: it will be handed to a worker after every job
    /// accepted before it.
    pub fn execute(&mut self, job: J)
        requires
            old(self).wf(),
            old(self)@.accepts_jobs(),
        ensures
            final(self).wf(),
            final(self)@ == old(self)@.submit(job),
    {
        proof {
            self@.lemma_submit_wf(job);
        }
        self.queue.push_back(job);
        proof {
            self.submitted@ = self.submitted@.push(job);
        }
        assert(self@ =~= old(self)@.submit(job));
    }

    /// Tells the worker `id`, which has finished whatever it ran, what to
    /// do next.
    pub fn next_job(&mut self, id: usize) -> (r: Dispatch<J>)
        requires
            old(self).wf(),
        ensures
            final(self).wf(),
            final(self)@ == old(self)@.dispatch(id).0,
            r == old(self)@.dispatch(id).1,
    {
        proof {
            self@.lemma_dispatch_wf(id);
            self@.lemma_live_is_counted();
        }
        if !self.is_live(id) {
            return Dispatch::Exit;
        }
        match self.queue.pop_front() {
            Some(job) => {
                set_state(&mut self.slots, id, WorkerState::Busy);
                proof {
                    self.dispatched@ = self.dispatched@.push((id, job));
                }
                assert(self@ =~= old(self)@.dispatch(id).0);
                Dispatch::Run(job)
            },
            None => {
                if self.open {
                    set_state(&mut self.slots, id, WorkerState::Idle);
                    assert(self@ =~= old(self)@.dispatch(id).0);
                    Dispatch::Wait
                } else {
                    set_state(&mut self.slots, id, WorkerState::Exited);
                    self.live = self.live - 1;
                    assert(self@ =~= old(self)@.dispatch(id).0);
                    Dispatch::Exit
                }
            },
        }
    }

    /// Records that the thread of worker `id` died. Says whether there was
    /// such a worker with a running loop.
    pub fn abandon(&mut self, id: usize) -> (r: bool)
        requires
            old(self).wf(),
        ensures
            final(self).wf(),
            r == old(self)@.has_live_worker(id),
            final(self)@ == old(self)@.lose(id),
    {
        proof {
            self@.lemma_lose_wf(id);
            self@.lemma_live_is_counted();
        }
        if !self.is_live(id) {
            return false;
        }
        set_state(&mut self.slots, id, WorkerState::Lost);
        self.live = self.live - 1;
        assert(self@ =~= old(self)@.lose(id));
        true
    }

    /// Drops the sending side, so that workers leave once the queue is
    /// empty. Says whether the pool was running.
    pub fn close(&mut self) -> (r: bool)
        requires
            old(self).wf(),
        ensures
            final(self).wf(),
            r == (old(self)@.phase() == Phase::Running),
            final(self)@ == old(self)@.close(),
    {
        proof {
            self@.lemma_close_wf();
        }
        if self.slots.len() == self.size && self.open {
            self.open = false;
            self.joined = skip_empty(&self.slots, 0);
            assert(self@ =~= old(self)@.close());
            true
        } else {
            false
        }
    }

    /// Takes the handle of the next worker to join, with the worker's id.
    /// Workers come in the order of their ids, one at a time, and none
    /// before the sending side is gone.
    pub fn next_join(&mut self) -> (r: Option<(usize, H)>)
        requires
            old(self).wf(),
        ensures
            final(self).wf(),
            final(self)@ == old(self)@.begin_join().0,
            r == old(self)@.begin_join().1,
    {
        proof {
            self@.lemma_begin_join_wf();
        }
        if self.open || self.joined >= self.slots.len() {
            return None;
        }
        let id = self.joined;
        let taken = match &mut self.slots[id] {
            Some(worker) => worker.handler.take(),
            None => None,
        };
        match taken {
            Some(handle) => {
                assert(self@ =~= old(self)@.begin_join().0);
                Some((id, handle))
            },
            None => {
                assert(self.slots@ =~= old(self).slots@);
                None
            },
        }
    }

    /// Records that the join of the worker whose handle was taken last has
    /// returned, whether that worker left its loop or died in a job. Says
    /// whether it was recorded: it is not where no handle was taken, or
    /// where the pool still counts that worker as live.
    pub fn finish_join(&mut self) -> (r: bool)
        requires
            old(self).wf(),
        ensures
            final(self).wf(),
            r == old(self)@.can_end_join(),
            final(self)@ == old(self)@.end_join(),
    {
        proof {
            self@.lemma_end_join_wf();
        }
        if self.open || self.joined >= self.slots.len() {
            return false;
        }
        let done = match &self.slots[self.joined] {
            Some(worker) => worker.handler.is_none() && (worker.state == WorkerState::Exited
                || worker.state == WorkerState::Lost),
            None => false,
        };
        if done {
            self.joined = skip_empty(&self.slots, self.joined + 1);
            assert(self@ =~= old(self)@.end_join());
        }
        done
    }

    /// Where the pool stands in its life.
    pub fn phase(&self) -> (r: Phase)
        ensures
            r == self@.phase(),
    {
        if self.slots.len() < self.size {
            Phase::Constructing
        } else if self.open {
            Phase::Running
        } else if self.joined < self.slots.len() {
            Phase::ShuttingDown
        } else {
            Phase::Stopped
        }
    }

    /// How many workers the pool was asked for.
    pub fn size(&self) -> (r: usize)
        ensures
            r == self@.size,
    {
        self.size
    }

    /// How many workers started.
    pub fn worker_count(&self) -> (r: usize)
        ensures
            r == self@.started,
    {
        self.started
    }

    /// How many slots were tried and did not start.
    pub fn failed_spawns(&self) -> (r: usize)
        requires
            self.wf(),
        ensures
            r == self@.failed(),
    {
        proof {
            lemma_count_some_bound(self.slots@);
        }
        self.slots.len() - self.started
    }

    /// How many workers have a running loop.
    pub fn live_workers(&self) -> (r: usize)
        ensures
            r == self@.live,
    {
        self.live
    }

    /// How many accepted jobs wait for a worker.
    pub fn pending(&self) -> (r: usize)
        ensures
            r == self@.queue.len(),
    {
        self.queue.len()
    }

    /// What the worker with this id is doing, if there is such a worker.
    pub fn worker_state(&self, id: usize) -> (r: Option<WorkerState>)
        ensures
            r == if self@.has_worker(id) {
                Some(self@.worker(id).state)
            } else {
                None
            },
    {
        if id >= self.slots.len() {
            return None;
        }
        match &self.slots[id] {
            Some(worker) => Some(worker.state),
            None => None,
        }
    }
}

} // verus!
