//! The proof that every step of a pool keeps the pool's invariant.

use vstd::prelude::*;
use crate::counting::{
    count_some, is_live_slot, lemma_count_some_bound, lemma_count_some_push,
    lemma_count_some_same, lemma_live_count_bound, lemma_live_count_push,
    lemma_live_count_update, lemma_next_worker,
};
use crate::model::{jobs_of, Phase, PoolState, Step};
use crate::worker::WorkerState;

verus! {

impl<J, H> PoolState<J, H> {
    /// A new pool holds the invariant.
    pub proof fn lemma_init_wf(size: nat)
        requires
            0 < size <= usize::MAX,
        ensures
            Self::init(size).wf(),
            Self::init(size).phase() == Phase::Constructing,
    {
        let s = Self::init(size);
        assert(s.submitted =~= jobs_of(s.dispatched) + s.queue);
    }

    /// While every slot keeps holding a worker or none, as many workers
    /// are counted, and every worker is still there.
    proof fn lemma_some_kept(self, t: Self)
        requires
            t.slots.len() == self.slots.len(),
            forall|i: int|
                0 <= i < self.slots.len() ==> ((#[trigger] t.slots[i]) is Some
                    <==> self.slots[i] is Some),
        ensures
            count_some(t.slots) == count_some(self.slots),
            forall|id: usize| self.has_worker(id) ==> #[trigger] t.has_worker(id),
    {
        lemma_count_some_same(self.slots, t.slots);
        assert forall|id: usize| self.has_worker(id) implies #[trigger] t.has_worker(id) by {
            assert(t.slots[id as int] is Some <==> self.slots[id as int] is Some);
        }
    }

    /// What the invariant says of the workers still holds after one of
    /// them, which was not joined yet, changed its state, if that state is
    /// not "left" while the sending side is there or a job waits.
    proof fn lemma_state_changed(self, t: Self, id: usize, state: WorkerState)
        requires
            self.wf(),
            self.has_worker(id),
            self.joined <= id,
            t.slots == self.with_worker(id, self.worker(id).in_state(state)),
            t.live + (if self.worker(id).is_live() {
                1nat
            } else {
                0nat
            }) == self.live + (if state == WorkerState::Idle || state == WorkerState::Busy {
                1nat
            } else {
                0nat
            }),
            state == WorkerState::Exited ==> !t.open && t.queue.len() == 0,
            t.size == self.size,
            t.started == self.started,
            t.open == self.open,
            t.joined == self.joined,
            t.queue.len() <= self.queue.len(),
            t.submitted == jobs_of(t.dispatched) + t.queue,
            t.submitted.len() > 0 ==> self.submitted.len() > 0,
            forall|k: int|
                0 <= k < t.dispatched.len() ==> self.has_worker((#[trigger] t.dispatched[k]).0),
        ensures
            t.wf(),
    {
        let changed = Some(self.worker(id).in_state(state));
        lemma_live_count_update(self.slots, id as int, changed);
        self.lemma_some_kept(t);
        assert forall|i: int|
            0 <= i < t.slots.len() && (#[trigger] t.slots[i]) is Some && t.slots[i]->Some_0.state
                == WorkerState::Exited implies t.queue.len() == 0 by {
            if i != id {
                assert(self.slots[i] is Some);
            }
        }
    }

    /// A live worker was not joined yet.
    proof fn lemma_live_is_unjoined(self, id: usize)
        requires
            self.wf(),
            self.has_live_worker(id),
        ensures
            self.joined <= id,
    {
        if id < self.joined {
            assert(self.slots[id as int] is Some);
        }
    }

    /// Some worker is counted as live exactly where some worker is live.
    pub proof fn lemma_live_is_counted(self)
        requires
            self.wf(),
        ensures
            self.live > 0 <==> exists|id: usize| self.has_live_worker(id),
    {
        lemma_live_count_bound(self.slots);
        if exists|id: usize| self.has_live_worker(id) {
            let id = choose|id: usize| self.has_live_worker(id);
            assert(is_live_slot(self.slots[id as int]));
        }
        if self.live > 0 {
            let i = choose|i: int|
                0 <= i < self.slots.len() && is_live_slot(#[trigger] self.slots[i]);
            assert(self.has_live_worker(i as usize));
        }
    }

    /// Trying the next slot keeps the invariant.
    pub proof fn lemma_register_wf(self, handle: Option<H>)
        requires
            self.wf(),
            self.phase() == Phase::Constructing,
        ensures
            self.register(handle).wf(),
    {
        let t = self.register(handle);
        let n = self.slots.len() as int;
        assert(self.dispatched.len() == jobs_of(self.dispatched).len());
        assert forall|k: int| 0 <= k < n implies #[trigger] t.slots[k] == self.slots[k] by {}
        lemma_count_some_push(self.slots, t.slots[n]);
        lemma_live_count_push(self.slots, t.slots[n]);
    }

    /// Accepting a job keeps the invariant.
    pub proof fn lemma_submit_wf(self, job: J)
        requires
            self.wf(),
            self.accepts_jobs(),
        ensures
            self.submit(job).wf(),
    {
        let t = self.submit(job);
        assert(t.submitted =~= jobs_of(t.dispatched) + t.queue);
        self.lemma_live_is_counted();
        let id = choose|id: usize| self.has_live_worker(id);
        lemma_count_some_bound(self.slots);
        assert(self.slots[id as int] is Some);
    }

    /// Answering a worker keeps the invariant.
    pub proof fn lemma_dispatch_wf(self, id: usize)
        requires
            self.wf(),
        ensures
            self.dispatch(id).0.wf(),
    {
        let t = self.dispatch(id).0;
        if self.has_live_worker(id) {
            self.lemma_live_is_unjoined(id);
            self.lemma_live_is_counted();
            if self.queue.len() > 0 {
                assert(self.queue =~= seq![self.queue[0]] + self.queue.drop_first());
                assert(jobs_of(t.dispatched) =~= jobs_of(self.dispatched).push(self.queue[0]));
                assert(t.submitted =~= jobs_of(t.dispatched) + t.queue);
                assert forall|k: int| 0 <= k < t.dispatched.len() implies self.has_worker(
                    (#[trigger] t.dispatched[k]).0,
                ) by {
                    if k < self.dispatched.len() {
                        assert(t.dispatched[k] == self.dispatched[k]);
                    }
                }
                self.lemma_state_changed(t, id, WorkerState::Busy);
            } else if self.open {
                self.lemma_state_changed(t, id, WorkerState::Idle);
            } else {
                self.lemma_state_changed(t, id, WorkerState::Exited);
            }
        }
    }

    /// Losing a worker keeps the invariant.
    pub proof fn lemma_lose_wf(self, id: usize)
        requires
            self.wf(),
        ensures
            self.lose(id).wf(),
    {
        if self.has_live_worker(id) {
            self.lemma_live_is_unjoined(id);
            self.lemma_live_is_counted();
            self.lemma_state_changed(self.lose(id), id, WorkerState::Lost);
        }
    }

    /// Closing keeps the invariant.
    pub proof fn lemma_close_wf(self)
        requires
            self.wf(),
        ensures
            self.close().wf(),
    {
        if self.phase() == Phase::Running {
            lemma_next_worker(self.slots, 0);
        }
    }

    /// Taking a handle keeps the invariant.
    pub proof fn lemma_begin_join_wf(self)
        requires
            self.wf(),
        ensures
            self.begin_join().0.wf(),
    {
        let t = self.begin_join().0;
        if self.can_begin_join() {
            let id = self.joined as usize;
            lemma_live_count_update(self.slots, id as int, t.slots[id as int]);
            self.lemma_some_kept(t);
            assert forall|i: int|
                0 <= i < t.slots.len() && (#[trigger] t.slots[i]) is Some
                    && t.slots[i]->Some_0.state == WorkerState::Exited implies t.queue.len()
                == 0 by {
                assert(self.slots[i] is Some);
            }
        }
    }

    /// Recording a join keeps the invariant.
    pub proof fn lemma_end_join_wf(self)
        requires
            self.wf(),
        ensures
            self.end_join().wf(),
    {
        if self.can_end_join() {
            lemma_next_worker(self.slots, self.joined + 1);
        }
    }

    /// Any step that can be taken keeps the invariant.
    pub proof fn lemma_apply_wf(self, step: Step<J, H>)
        requires
            self.wf(),
            self.enabled(step),
        ensures
            self.apply(step).wf(),
    {
        match step {
            Step::Register(handle) => self.lemma_register_wf(handle),
            Step::Submit(job) => self.lemma_submit_wf(job),
            Step::Ask(id) => self.lemma_dispatch_wf(id),
            Step::Lose(id) => self.lemma_lose_wf(id),
            Step::Close => self.lemma_close_wf(),
            Step::BeginJoin => self.lemma_begin_join_wf(),
            Step::EndJoin => self.lemma_end_join_wf(),
        }
    }
}

} // verus!
