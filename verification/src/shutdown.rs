//! Whole shutdowns: the rounds in which the workers of a closed pool are
//! joined, and the law that they take every held handle, in the order of
//! the ids, and end with the pool stopped.

use vstd::prelude::*;
use crate::counting::{lemma_live_count_bound, lemma_next_worker};
use crate::model::{Phase, PoolState};
use crate::worker::Worker;

verus! {

/// The handle that the slot `i` holds, with the slot's number; nothing
/// where the slot is empty or its worker has given up its handle.
pub open spec fn held_at<H>(slots: Seq<Option<Worker<H>>>, i: nat) -> Seq<(usize, H)> {
    if i < slots.len() && slots[i as int] is Some && slots[i as int]->Some_0.handler is Some {
        seq![(i as usize, slots[i as int]->Some_0.handler->Some_0)]
    } else {
        Seq::empty()
    }
}

/// The handles that the slots from `from` on hold, in the order of the
/// slots.
pub open spec fn held_from<H>(slots: Seq<Option<Worker<H>>>, from: nat) -> Seq<(usize, H)>
    decreases slots.len() - from,
{
    if from >= slots.len() {
        Seq::empty()
    } else {
        held_at(slots, from) + held_from(slots, from + 1)
    }
}

impl<J, H> PoolState<J, H> {
    /// One round of a shutdown: the next worker's handle is taken, unless
    /// it was taken before, and the worker's join is recorded.
    pub open spec fn join_next(self) -> Self {
        self.begin_join().0.end_join()
    }

    /// The handle that the next round takes, with its worker's id.
    pub open spec fn handle_taken(self) -> Seq<(usize, H)> {
        match self.begin_join().1 {
            Some(taken) => seq![taken],
            None => Seq::empty(),
        }
    }

    /// The state after so many rounds.
    pub open spec fn after_joins(self, rounds: nat) -> Self
        decreases rounds,
    {
        if rounds == 0 {
            self
        } else {
            self.join_next().after_joins((rounds - 1) as nat)
        }
    }

    /// The handles that so many rounds take, in turn.
    pub open spec fn handles_joined(self, rounds: nat) -> Seq<(usize, H)>
        decreases rounds,
    {
        if rounds == 0 {
            Seq::empty()
        } else {
            self.handle_taken() + self.join_next().handles_joined((rounds - 1) as nat)
        }
    }
}

/// Slots that hold no handle add nothing to the handles held.
proof fn lemma_held_skip<H>(slots: Seq<Option<Worker<H>>>, from: nat, to: nat)
    requires
        from <= to <= slots.len(),
        forall|i: nat| from <= i < to ==> #[trigger] held_at(slots, i).len() == 0,
    ensures
        held_from(slots, from) == held_from(slots, to),
    decreases to - from,
{
    if from < to {
        lemma_held_skip(slots, from + 1, to);
        assert(held_at(slots, from) + held_from(slots, from + 1) =~= held_from(slots, from + 1));
    }
}

/// The handles held from a slot on depend on the slots from there on only.
proof fn lemma_held_same<H>(a: Seq<Option<Worker<H>>>, b: Seq<Option<Worker<H>>>, from: nat)
    requires
        a.len() == b.len(),
        forall|i: int| from <= i < a.len() ==> #[trigger] a[i] == b[i],
    ensures
        held_from(a, from) == held_from(b, from),
    decreases a.len() - from,
{
    if from < a.len() {
        lemma_held_same(a, b, from + 1);
    }
}

/// Once the sending side is gone and every worker's thread has ended,
/// whether it left its loop or died in a job, the shutdown goes through:
/// round by round it takes every handle that is still held, each once and
/// in the order of the workers' ids, and takes nothing else; and after as
/// many rounds as workers remain the pool is stopped.
pub proof fn law_shutdown_joins_every_worker<J, H>(s: PoolState<J, H>, rounds: nat)
    requires
        s.wf(),
        !s.open,
        s.live == 0,
        rounds >= s.slots.len() - s.joined,
    ensures
        s.after_joins(rounds).wf(),
        s.after_joins(rounds).phase() == Phase::Stopped,
        s.handles_joined(rounds) == held_from(s.slots, 0),
    decreases rounds,
{
    let n = s.slots.len();
    let j = s.joined;
    assert forall|i: nat| 0 <= i < j implies #[trigger] held_at(s.slots, i).len() == 0 by {
        if s.slots[i as int] is Some {
            assert(s.slots[i as int]->Some_0.handler is None);
        }
    }
    lemma_held_skip(s.slots, 0, j);
    if rounds > 0 {
        let t = s.join_next();
        s.lemma_begin_join_wf();
        if j == n {
            law_shutdown_joins_every_worker(t, (rounds - 1) as nat);
            assert(s.handle_taken() + t.handles_joined((rounds - 1) as nat) =~= t.handles_joined(
                (rounds - 1) as nat,
            ));
            lemma_held_skip(t.slots, 0, j);
        } else {
            let b = s.begin_join().0;
            lemma_live_count_bound(s.slots);
            lemma_next_worker(b.slots, j + 1);
            law_shutdown_joins_every_worker(t, (rounds - 1) as nat);
            // what the later rounds take is what the slots after this one hold
            assert forall|i: nat| 0 <= i < t.joined implies #[trigger] held_at(t.slots, i).len()
                == 0 by {
                if t.slots[i as int] is Some {
                    assert(t.slots[i as int]->Some_0.handler is None);
                }
            }
            lemma_held_skip(t.slots, 0, t.joined);
            assert forall|i: nat| j + 1 <= i < t.joined implies #[trigger] held_at(t.slots, i).len()
                == 0 by {}
            lemma_held_skip(t.slots, j + 1, t.joined);
            lemma_held_same(s.slots, t.slots, j + 1);
        }
    }
}

} // verus!
