//! What holds of every pool, stated over its states and steps.

use vstd::prelude::*;
use crate::counting::{
    count_some, is_live_slot, lemma_count_some_bound, lemma_count_some_push,
    lemma_live_count_bound, lemma_live_count_le_some, lemma_next_worker,
};
use crate::model::{jobs_of, submitted_in, Phase, PoolState, Step};
use crate::worker::{Dispatch, WorkerState};

verus! {

/// How far a phase is along a pool's life.
pub open spec fn rank(phase: Phase) -> nat {
    match phase {
        Phase::Constructing => 0,
        Phase::Running => 1,
        Phase::ShuttingDown => 2,
        Phase::Stopped => 3,
    }
}

/// A pool never has more workers than it was asked for, and the workers
/// and the failed slots together are the slots tried. Every worker's id is
/// the number of its slot, so no two workers share one and the workers
/// stand in the order of their ids. Once every slot was tried and none
/// failed the pool has exactly the workers asked for, with the ids from
/// zero up.
pub proof fn law_worker_count<J, H>(s: PoolState<J, H>)
    requires
        s.wf(),
    ensures
        s.started <= s.slots.len() <= s.size,
        s.started + s.failed() == s.slots.len(),
        s.live <= s.started,
        forall|id: usize| s.has_worker(id) ==> id < s.size && (#[trigger] s.worker(id)).id == id,
        s.phase() != Phase::Constructing && s.failed() == 0 ==> s.started == s.size
            && forall|id: usize| id < s.size ==> #[trigger] s.has_worker(id),
{
    lemma_count_some_bound(s.slots);
    lemma_live_count_le_some(s.slots);
    assert forall|id: usize| s.has_worker(id) implies id < s.size && (#[trigger] s.worker(id)).id
        == id by {
        assert(s.slots[id as int] is Some);
    }
}

/// Building a pool of `size` slots from the outcomes of starting each
/// slot's thread in turn gives a running pool with one worker for each
/// thread that started: never more than `size`, and exactly `size` where
/// every thread started.
pub proof fn law_built_pool<J, H>(size: nat, outcomes: Seq<Option<H>>)
    requires
        0 < size <= usize::MAX,
        outcomes.len() == size,
    ensures
        PoolState::<J, H>::init(size).after_spawns(outcomes).wf(),
        PoolState::<J, H>::init(size).after_spawns(outcomes).phase() == Phase::Running,
        PoolState::<J, H>::init(size).after_spawns(outcomes).started == count_some(outcomes),
        PoolState::<J, H>::init(size).after_spawns(outcomes).live == count_some(outcomes),
        forall|id: usize|
            id < size ==> (#[trigger] PoolState::<J, H>::init(size).after_spawns(
                outcomes,
            ).has_worker(id) <==> outcomes[id as int] is Some),
        count_some(outcomes) <= size,
        (forall|i: int| 0 <= i < outcomes.len() ==> (#[trigger] outcomes[i]) is Some)
            ==> count_some(outcomes) == size,
{
    lemma_spawns::<J, H>(size, outcomes);
    lemma_count_some_bound(outcomes);
}

/// The state after some of a pool's slots were tried.
proof fn lemma_spawns<J, H>(size: nat, outcomes: Seq<Option<H>>)
    requires
        0 < size <= usize::MAX,
        outcomes.len() <= size,
    ensures
        PoolState::<J, H>::init(size).after_spawns(outcomes).wf(),
        PoolState::<J, H>::init(size).after_spawns(outcomes).size == size,
        PoolState::<J, H>::init(size).after_spawns(outcomes).open,
        PoolState::<J, H>::init(size).after_spawns(outcomes).slots.len() == outcomes.len(),
        PoolState::<J, H>::init(size).after_spawns(outcomes).started == count_some(outcomes),
        PoolState::<J, H>::init(size).after_spawns(outcomes).live == count_some(outcomes),
        forall|i: int|
            0 <= i < outcomes.len() ==> ((#[trigger] PoolState::<J, H>::init(size).after_spawns(
                outcomes,
            ).slots[i]) is Some <==> outcomes[i] is Some),
    decreases outcomes.len(),
{
    let s = PoolState::<J, H>::init(size);
    if outcomes.len() == 0 {
        PoolState::<J, H>::lemma_init_wf(size);
    } else {
        let before = outcomes.drop_last();
        lemma_spawns::<J, H>(size, before);
        s.after_spawns(before).lemma_register_wf(outcomes.last());
        lemma_count_some_push(before, outcomes.last());
        assert(before.push(outcomes.last()) =~= outcomes);
        let t = s.after_spawns(outcomes);
        assert forall|i: int| 0 <= i < outcomes.len() implies ((#[trigger] t.slots[i]) is Some
            <==> outcomes[i] is Some) by {
            if i < before.len() {
                assert(t.slots[i] == s.after_spawns(before).slots[i]);
                assert(before[i] == outcomes[i]);
            }
        }
    }
}

/// Whatever is done with a pool from the moment it is made, it holds its
/// invariant, and its record of jobs is true: the jobs it counts as
/// accepted are those that were given to it, and the jobs it counts as
/// handed out are those that workers were told to run.
pub proof fn law_reached_states<J, H>(size: nat, steps: Seq<Step<J, H>>)
    requires
        0 < size <= usize::MAX,
        PoolState::<J, H>::init(size).allows(steps),
    ensures
        PoolState::<J, H>::init(size).after(steps).wf(),
        PoolState::<J, H>::init(size).after(steps).size == size,
        PoolState::<J, H>::init(size).after(steps).submitted == submitted_in(steps),
        PoolState::<J, H>::init(size).after(steps).dispatched == PoolState::<J, H>::init(
            size,
        ).handed_out(steps),
    decreases steps.len(),
{
    let s = PoolState::<J, H>::init(size);
    if steps.len() == 0 {
        PoolState::<J, H>::lemma_init_wf(size);
    } else {
        law_reached_states(size, steps.drop_last());
        s.after(steps.drop_last()).lemma_apply_wf(steps.last());
    }
}

/// In any run of a pool, from the moment it is made, the jobs that workers
/// were told to run, followed by the jobs that still wait, are the jobs
/// that were given to the pool, each once and in the order given. Once
/// some worker has left its loop none waits: every job given was run by
/// one worker. That is so in every run that ends with the pool stopped,
/// unless every worker died in a job.
pub proof fn law_runs_hand_out_every_job_once<J, H>(size: nat, steps: Seq<Step<J, H>>)
    requires
        0 < size <= usize::MAX,
        PoolState::<J, H>::init(size).allows(steps),
    ensures
        submitted_in(steps) == jobs_of(PoolState::<J, H>::init(size).handed_out(steps))
            + PoolState::<J, H>::init(size).after(steps).queue,
        PoolState::<J, H>::init(size).after(steps).some_worker_left() ==> jobs_of(
            PoolState::<J, H>::init(size).handed_out(steps),
        ) == submitted_in(steps),
{
    let end = PoolState::<J, H>::init(size).after(steps);
    law_reached_states(size, steps);
    if end.some_worker_left() {
        law_drained_once_a_worker_left(end);
    }
}

/// Every job that a pool accepted either still waits in the queue or was
/// handed out, once, to a worker of that pool; the jobs handed out, then
/// the jobs that wait, are the jobs accepted, in the order of acceptance.
/// So no job is passed over, handed out twice, or overtaken.
pub proof fn law_every_job_once<J, H>(s: PoolState<J, H>)
    requires
        s.wf(),
    ensures
        s.submitted == jobs_of(s.dispatched) + s.queue,
        s.submitted.len() == s.dispatched.len() + s.queue.len(),
        forall|k: int|
            0 <= k < s.dispatched.len() ==> (#[trigger] s.dispatched[k]).1 == s.submitted[k]
                && s.has_worker(s.dispatched[k].0),
        forall|k: int|
            0 <= k < s.queue.len() ==> #[trigger] s.queue[k] == s.submitted[s.dispatched.len() + k],
{
    let handed = jobs_of(s.dispatched);
    assert(handed.len() == s.dispatched.len());
    assert forall|k: int| 0 <= k < s.dispatched.len() implies (#[trigger] s.dispatched[k]).1
        == s.submitted[k] && s.has_worker(s.dispatched[k].0) by {
        assert(handed[k] == s.dispatched[k].1);
        assert((handed + s.queue)[k] == handed[k]);
    }
    assert forall|k: int| 0 <= k < s.queue.len() implies #[trigger] s.queue[k]
        == s.submitted[s.dispatched.len() + k] by {
        assert((handed + s.queue)[handed.len() + k] == s.queue[k]);
    }
}

/// A live worker that asks while a job waits is handed the oldest one,
/// and that job leaves the queue; no worker, live or not, is handed
/// anything else.
pub proof fn law_oldest_job_first<J, H>(s: PoolState<J, H>, id: usize)
    requires
        s.wf(),
    ensures
        s.has_live_worker(id) && s.queue.len() > 0 ==> s.dispatch(id).1 == Dispatch::Run(
            s.queue[0],
        ) && s.dispatch(id).0.queue == s.queue.drop_first(),
        s.dispatch(id).1 is Run ==> s.has_live_worker(id) && s.queue.len() > 0,
        s.dispatch(id).0.submitted == s.submitted,
{
}

/// A running pool that has workers, none of them lost, accepts jobs.
pub proof fn law_running_pool_accepts_jobs<J, H>(s: PoolState<J, H>)
    requires
        s.wf(),
        s.phase() == Phase::Running,
        s.started > 0,
        forall|id: usize|
            s.has_worker(id) ==> (#[trigger] s.worker(id)).state != WorkerState::Lost,
    ensures
        s.accepts_jobs(),
{
    lemma_count_some_bound(s.slots);
    let i = choose|i: int| 0 <= i < s.slots.len() && !((#[trigger] s.slots[i]) is None);
    assert(s.has_worker(i as usize));
    assert(s.worker(i as usize).state != WorkerState::Lost);
    assert(is_live_slot(s.slots[i]));
    lemma_live_count_bound(s.slots);
}

/// Once the sending side is gone, no job is accepted and no worker is
/// told to wait: a live worker that asks is handed a job while one waits,
/// and leaves when none does. Each such answer brings the end nearer: a
/// job leaves the queue, or a worker its loop.
pub proof fn law_closed_pool_winds_down<J, H>(s: PoolState<J, H>, id: usize)
    requires
        s.wf(),
        !s.open,
    ensures
        !s.accepts_jobs(),
        !(s.dispatch(id).1 is Wait),
        s.has_live_worker(id) ==> s.dispatch(id).0.work_left() + 1 == s.work_left(),
        !s.has_live_worker(id) ==> s.dispatch(id).0 == s,
{
    s.lemma_live_is_counted();
}

/// In a stopped pool no worker is left: the thread of each has ended,
/// because it left its loop or because it died in a job, and each has
/// given up its handle. So none runs a job, and none can be joined again.
pub proof fn law_stopped_has_no_worker<J, H>(s: PoolState<J, H>)
    requires
        s.wf(),
        s.phase() == Phase::Stopped,
    ensures
        s.live == 0,
        forall|id: usize|
            s.has_worker(id) ==> (#[trigger] s.worker(id)).has_ended() && s.worker(
                id,
            ).handler is None,
{
    assert forall|id: usize| s.has_worker(id) implies (#[trigger] s.worker(id)).has_ended()
        && s.worker(id).handler is None by {
        assert(s.slots[id as int] is Some);
    }
    assert forall|i: int| 0 <= i < s.slots.len() implies !is_live_slot(#[trigger] s.slots[i]) by {}
    lemma_live_count_bound(s.slots);
}

/// Once some worker has left its loop nothing is left to run: the sending
/// side is gone, the queue is empty, and every job ever accepted was
/// handed to a worker.
pub proof fn law_drained_once_a_worker_left<J, H>(s: PoolState<J, H>)
    requires
        s.wf(),
        s.some_worker_left(),
    ensures
        !s.open,
        s.queue.len() == 0,
        jobs_of(s.dispatched) == s.submitted,
{
    let id = choose|id: usize|
        s.has_worker(id) && (#[trigger] s.worker(id)).state == WorkerState::Exited;
    assert(s.slots[id as int] is Some);
    assert(jobs_of(s.dispatched) + s.queue =~= jobs_of(s.dispatched));
}

/// A pool that stopped after some worker left its loop, or that never had
/// a worker, is drained: no job waits, none is being run, and every job
/// ever accepted was handed to a worker. Jobs are left over only where
/// every worker died in a job.
pub proof fn law_stopped_is_drained<J, H>(s: PoolState<J, H>)
    requires
        s.wf(),
        s.phase() == Phase::Stopped,
        s.some_worker_left() || s.started == 0,
    ensures
        s.queue.len() == 0,
        jobs_of(s.dispatched) == s.submitted,
        s.work_left() == 0,
{
    law_stopped_has_no_worker(s);
    if s.some_worker_left() {
        law_drained_once_a_worker_left(s);
    } else {
        assert((jobs_of(s.dispatched) + s.queue).len() == 0);
        assert(jobs_of(s.dispatched) + s.queue =~= jobs_of(s.dispatched));
    }
}

/// The death of a worker's thread is the worker's alone: the pool records
/// it and is otherwise as it was. The jobs that wait, the record of jobs,
/// the phase, the turn to be joined and every other worker stay.
pub proof fn law_lost_worker_is_alone<J, H>(s: PoolState<J, H>, id: usize, other: usize)
    requires
        s.wf(),
        other != id,
    ensures
        s.lose(id).queue == s.queue,
        s.lose(id).submitted == s.submitted,
        s.lose(id).dispatched == s.dispatched,
        s.lose(id).open == s.open,
        s.lose(id).joined == s.joined,
        s.lose(id).phase() == s.phase(),
        s.lose(id).has_worker(other) == s.has_worker(other),
        s.has_worker(other) ==> s.lose(id).worker(other) == s.worker(other),
        s.has_live_worker(id) ==> s.lose(id).worker(id) == s.worker(id).in_state(
            WorkerState::Lost,
        ),
{
}

/// Shutdown never sticks. While workers remain to be joined, the next
/// one's handle can be taken, or it was taken and the join can be recorded
/// as soon as that worker's thread has ended, however it ended. Recording
/// it moves the turn on to a later worker, and a taken handle is followed
/// by nothing but its join.
pub proof fn law_shutdown_goes_on<J, H>(s: PoolState<J, H>)
    requires
        s.wf(),
        s.phase() == Phase::ShuttingDown,
    ensures
        s.has_worker(s.joined as usize),
        s.can_begin_join() <==> s.worker(s.joined as usize).handler is Some,
        s.can_end_join() <==> s.worker(s.joined as usize).handler is None && s.worker(
            s.joined as usize,
        ).has_ended(),
        s.can_begin_join() ==> s.begin_join().0.can_end_join() == s.worker(
            s.joined as usize,
        ).has_ended(),
        s.can_end_join() ==> s.joined < s.end_join().joined <= s.slots.len(),
{
    if s.can_end_join() {
        lemma_next_worker(s.slots, s.joined + 1);
    }
}

/// A stopped pool stays as it is: it accepts no job, and no step changes it.
pub proof fn law_stopped_is_final<J, H>(s: PoolState<J, H>, id: usize)
    requires
        s.wf(),
        s.phase() == Phase::Stopped,
    ensures
        !s.accepts_jobs(),
        s.dispatch(id) == (s, Dispatch::<J>::Exit),
        s.lose(id) == s,
        s.close() == s,
        s.begin_join() == (s, None::<(usize, H)>),
        s.end_join() == s,
{
    law_stopped_has_no_worker(s);
    s.lemma_live_is_counted();
}

/// No step takes a pool back to an earlier phase.
pub proof fn law_phase_moves_forward<J, H>(s: PoolState<J, H>, handle: Option<H>, job: J, id: usize)
    requires
        s.wf(),
    ensures
        s.phase() == Phase::Constructing ==> rank(s.phase()) <= rank(s.register(handle).phase()),
        s.accepts_jobs() ==> s.submit(job).phase() == s.phase(),
        s.dispatch(id).0.phase() == s.phase(),
        s.lose(id).phase() == s.phase(),
        rank(s.phase()) <= rank(s.close().phase()),
        s.begin_join().0.phase() == s.phase(),
        rank(s.phase()) <= rank(s.end_join().phase()),
{
    lemma_next_worker(s.slots, 0);
    if s.can_end_join() {
        lemma_next_worker(s.slots, s.joined + 1);
    }
}

/// While the sending side is there no worker is joined or has left its
/// loop: every worker holds its handle. And a worker leaves its loop only
/// when no job waits.
pub proof fn law_workers_stay_until_closed<J, H>(s: PoolState<J, H>, id: usize)
    requires
        s.wf(),
        s.has_worker(id),
    ensures
        s.open ==> s.worker(id).handler is Some && s.worker(id).state != WorkerState::Exited,
        s.worker(id).state == WorkerState::Exited ==> !s.open && s.queue.len() == 0,
{
    assert(s.slots[id as int] is Some);
}

/// Workers are joined in order. A handle is taken only once the sending
/// side is gone, and it is the handle of the worker with the lowest id
/// that was not joined yet: the thread of every worker with a lower id
/// has ended, and that worker has given up its handle. While that worker
/// is being joined no other handle is taken, and its own cannot be taken
/// again.
pub proof fn law_join_order<J, H>(s: PoolState<J, H>, id: usize, handle: H)
    requires
        s.wf(),
        s.begin_join().1 == Some((id, handle)),
    ensures
        !s.open,
        s.has_worker(id),
        s.worker(id).handler == Some(handle),
        s.begin_join().0.worker(id).handler is None,
        forall|lower: usize|
            lower < id && s.has_worker(lower) ==> (#[trigger] s.worker(lower)).handler is None
                && s.worker(lower).has_ended(),
        s.begin_join().0.begin_join().1 is None,
{
    assert forall|lower: usize| lower < id && s.has_worker(lower) implies (#[trigger] s.worker(
        lower,
    )).handler is None && s.worker(lower).has_ended() by {
        assert(s.slots[lower as int] is Some);
    }
}

/// Two pools do not mix their jobs: where no job was given to both, no
/// job that one pool handed to a worker, or holds in its queue, was given
/// to the other.
pub proof fn law_pools_are_apart<J, H>(a: PoolState<J, H>, b: PoolState<J, H>)
    requires
        a.wf(),
        b.wf(),
        forall|i: int, j: int|
            0 <= i < a.submitted.len() && 0 <= j < b.submitted.len() ==> a.submitted[i]
                != b.submitted[j],
    ensures
        forall|k: int|
            0 <= k < a.dispatched.len() ==> !b.submitted.contains((#[trigger] a.dispatched[k]).1),
        forall|k: int|
            0 <= k < b.dispatched.len() ==> !a.submitted.contains((#[trigger] b.dispatched[k]).1),
        forall|k: int| 0 <= k < a.queue.len() ==> !b.submitted.contains(#[trigger] a.queue[k]),
        forall|k: int| 0 <= k < b.queue.len() ==> !a.submitted.contains(#[trigger] b.queue[k]),
{
    law_every_job_once(a);
    law_every_job_once(b);
    assert forall|k: int| 0 <= k < a.dispatched.len() implies !b.submitted.contains(
        (#[trigger] a.dispatched[k]).1,
    ) by {
        assert(a.dispatched[k].1 == a.submitted[k]);
    }
    assert forall|k: int| 0 <= k < b.dispatched.len() implies !a.submitted.contains(
        (#[trigger] b.dispatched[k]).1,
    ) by {
        assert(b.dispatched[k].1 == b.submitted[k]);
    }
    assert forall|k: int| 0 <= k < a.queue.len() implies !b.submitted.contains(
        #[trigger] a.queue[k],
    ) by {
        assert(a.queue[k] == a.submitted[a.dispatched.len() + k]);
    }
    assert forall|k: int| 0 <= k < b.queue.len() implies !a.submitted.contains(
        #[trigger] b.queue[k],
    ) by {
        assert(b.queue[k] == b.submitted[b.dispatched.len() + k]);
    }
}

} // verus!
