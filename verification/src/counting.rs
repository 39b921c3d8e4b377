//! Counting over the slots of a pool: the workers that started, the loops
//! that run, and the next worker from a slot on.

use vstd::prelude::*;
use crate::worker::Worker;

verus! {

/// How many places of a row hold something.
pub open spec fn count_some<T>(s: Seq<Option<T>>) -> nat
    decreases s.len(),
{
    if s.len() == 0 {
        0
    } else {
        count_some(s.drop_last()) + if s.last() is Some {
            1nat
        } else {
            0nat
        }
    }
}

/// Whether a slot holds a worker whose loop runs.
pub open spec fn is_live_slot<H>(slot: Option<Worker<H>>) -> bool {
    slot is Some && slot->Some_0.is_live()
}

/// How many of these slots hold a worker whose loop runs.
pub open spec fn live_count<H>(slots: Seq<Option<Worker<H>>>) -> nat
    decreases slots.len(),
{
    if slots.len() == 0 {
        0
    } else {
        live_count(slots.drop_last()) + if is_live_slot(slots.last()) {
            1nat
        } else {
            0nat
        }
    }
}

/// The first slot from `from` on that holds a worker; the number of slots
/// where there is none.
pub open spec fn next_worker<H>(slots: Seq<Option<Worker<H>>>, from: nat) -> nat
    decreases slots.len() - from,
{
    if from >= slots.len() {
        slots.len()
    } else if slots[from as int] is Some {
        from
    } else {
        next_worker(slots, from + 1)
    }
}

/// Counting after one more is put at the end.
pub proof fn lemma_count_some_push<T>(s: Seq<Option<T>>, x: Option<T>)
    ensures
        count_some(s.push(x)) == count_some(s) + if x is Some {
            1nat
        } else {
            0nat
        },
{
    assert(s.push(x).drop_last() =~= s);
}

/// No more are there than places; as many exactly where every place is
/// filled, and none exactly where every place is empty.
pub proof fn lemma_count_some_bound<T>(s: Seq<Option<T>>)
    ensures
        count_some(s) <= s.len(),
        count_some(s) == s.len() <==> forall|i: int| 0 <= i < s.len() ==> (#[trigger] s[i]) is Some,
        count_some(s) == 0 <==> forall|i: int| 0 <= i < s.len() ==> (#[trigger] s[i]) is None,
    decreases s.len(),
{
    if s.len() > 0 {
        let before = s.drop_last();
        lemma_count_some_bound(before);
        assert(s.last() == s[s.len() - 1]);
        assert forall|i: int| 0 <= i < before.len() implies #[trigger] before[i] == s[i] by {}
        if count_some(s) == s.len() {
            assert forall|i: int| 0 <= i < s.len() implies (#[trigger] s[i]) is Some by {
                if i < before.len() {
                    assert(before[i] is Some);
                }
            }
        }
        if count_some(s) == 0 {
            assert forall|i: int| 0 <= i < s.len() implies (#[trigger] s[i]) is None by {
                if i < before.len() {
                    assert(before[i] is None);
                }
            }
        }
    }
}

/// Two rows that are filled at the same places hold as many.
pub proof fn lemma_count_some_same<A, B>(a: Seq<Option<A>>, b: Seq<Option<B>>)
    requires
        a.len() == b.len(),
        forall|i: int| 0 <= i < a.len() ==> ((#[trigger] b[i]) is Some <==> a[i] is Some),
    ensures
        count_some(a) == count_some(b),
    decreases a.len(),
{
    if a.len() > 0 {
        let a0 = a.drop_last();
        let b0 = b.drop_last();
        assert forall|i: int| 0 <= i < a0.len() implies ((#[trigger] b0[i]) is Some
            <==> a0[i] is Some) by {
            assert(b0[i] == b[i]);
            assert(a0[i] == a[i]);
        }
        lemma_count_some_same(a0, b0);
        assert(b.last() == b[b.len() - 1]);
        assert(a.last() == a[a.len() - 1]);
    }
}

/// Counting the running loops after one more slot is put at the end.
pub proof fn lemma_live_count_push<H>(slots: Seq<Option<Worker<H>>>, slot: Option<Worker<H>>)
    ensures
        live_count(slots.push(slot)) == live_count(slots) + if is_live_slot(slot) {
            1nat
        } else {
            0nat
        },
{
    assert(slots.push(slot).drop_last() =~= slots);
}

/// How the count of running loops changes when one slot is replaced.
pub proof fn lemma_live_count_update<H>(
    slots: Seq<Option<Worker<H>>>,
    i: int,
    slot: Option<Worker<H>>,
)
    requires
        0 <= i < slots.len(),
    ensures
        live_count(slots.update(i, slot)) + (if is_live_slot(slots[i]) {
            1nat
        } else {
            0nat
        }) == live_count(slots) + (if is_live_slot(slot) {
            1nat
        } else {
            0nat
        }),
    decreases slots.len(),
{
    let updated = slots.update(i, slot);
    if i == slots.len() - 1 {
        assert(updated.drop_last() =~= slots.drop_last());
    } else {
        lemma_live_count_update(slots.drop_last(), i, slot);
        assert(updated.drop_last() =~= slots.drop_last().update(i, slot));
        assert(updated.last() == slots.last());
    }
}

/// No more loops run than there are slots, and none exactly where no slot
/// holds a worker whose loop runs.
pub proof fn lemma_live_count_bound<H>(slots: Seq<Option<Worker<H>>>)
    ensures
        live_count(slots) <= slots.len(),
        live_count(slots) == 0 <==> forall|i: int|
            0 <= i < slots.len() ==> !is_live_slot(#[trigger] slots[i]),
    decreases slots.len(),
{
    if slots.len() > 0 {
        let before = slots.drop_last();
        lemma_live_count_bound(before);
        assert(slots.last() == slots[slots.len() - 1]);
        assert forall|i: int| 0 <= i < before.len() implies #[trigger] before[i] == slots[i] by {}
        if live_count(slots) == 0 {
            assert forall|i: int| 0 <= i < slots.len() implies !is_live_slot(
                #[trigger] slots[i],
            ) by {
                if i < before.len() {
                    assert(!is_live_slot(before[i]));
                }
            }
        }
    }
}

/// No more loops run than there are workers.
pub proof fn lemma_live_count_le_some<H>(slots: Seq<Option<Worker<H>>>)
    ensures
        live_count(slots) <= count_some(slots),
    decreases slots.len(),
{
    if slots.len() > 0 {
        lemma_live_count_le_some(slots.drop_last());
    }
}

/// The next worker from a slot on stands at that slot or after it, with
/// empty slots only between.
pub proof fn lemma_next_worker<H>(slots: Seq<Option<Worker<H>>>, from: nat)
    requires
        from <= slots.len(),
    ensures
        from <= next_worker(slots, from) <= slots.len(),
        next_worker(slots, from) < slots.len() ==> slots[next_worker(slots, from) as int] is Some,
        forall|i: int| from <= i < next_worker(slots, from) ==> (#[trigger] slots[i]) is None,
    decreases slots.len() - from,
{
    if from < slots.len() && slots[from as int] is None {
        lemma_next_worker(slots, from + 1);
    }
}

} // verus!
