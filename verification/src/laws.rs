//! What holds of every queue, over any run of pushes and pops. Each law is
//! stated over the ring that the contracts of the queue speak of.

use crate::error::QueueErr;
use crate::ring::Ring;
use vstd::prelude::*;

verus! {

/// Pushing up to `size - 1` items onto a fresh ring, every push succeeds,
/// the ring is not empty from the first push on, and in the end it holds
/// exactly these items.
pub proof fn pushes_succeed_while_room<T>(size: nat, items: Seq<T>)
    requires
        size >= 1,
        items.len() <= size - 1,
    ensures
        forall|k: int|
            0 <= k < items.len() ==> (#[trigger] Ring::fresh(size).push_all(
                items.take(k),
            )).push_result() == Ok::<(), QueueErr>(()),
        forall|k: int|
            1 <= k <= items.len() ==> !(#[trigger] Ring::fresh(size).push_all(
                items.take(k),
            )).is_empty(),
        Ring::fresh(size).push_all(items).items() == items,
{
    let fresh = Ring::<T>::fresh(size);
    fresh.lemma_push_all(items);
    assert forall|k: int| 1 <= k <= items.len() implies !(#[trigger] fresh.push_all(
        items.take(k),
    )).is_empty() by {
        fresh.lemma_push_all(items.take(k));
    }
}

/// A ring of `size` slots takes exactly `size - 1` pushes from fresh: in
/// any run of pushes these succeed, and each later one fails with
/// `QueueFull` and leaves the ring as it was.
pub proof fn push_fails_at_capacity<T>(size: nat, items: Seq<T>)
    requires
        size >= 1,
    ensures
        forall|k: int|
            0 <= k < items.len() && k < size - 1 ==> (#[trigger] Ring::fresh(size).push_all(
                items.take(k),
            )).push_result() == Ok::<(), QueueErr>(()),
        forall|k: int|
            0 <= k < items.len() && k >= size - 1 ==> {
                let full = #[trigger] Ring::fresh(size).push_all(items.take(k));
                &&& full.push_result() == Err::<(), QueueErr>(QueueErr::QueueFull)
                &&& full.push(items[k]) == full
            },
{
    Ring::<T>::fresh(size).lemma_push_all(items);
}

/// First in, first out: after any run of pushes onto a fresh ring, the
/// pops hand out the items that were accepted, in the order in which they
/// were pushed, and the pop after the last of them fails with `Empty`.
pub proof fn first_in_first_out<T>(size: nat, items: Seq<T>)
    requires
        size >= 1,
    ensures
        forall|k: nat|
            k < items.len() && k < size - 1 ==> (#[trigger] Ring::fresh(size).push_all(
                items,
            ).pop_n(k)).front() == Ok::<T, QueueErr>(items[k as int]),
        Ring::fresh(size).push_all(items).pop_n(Ring::fresh(size).accepted(items).len()).front()
            == Err::<T, QueueErr>(QueueErr::Empty),
{
    let fresh = Ring::<T>::fresh(size);
    let filled = fresh.push_all(items);
    fresh.lemma_push_all(items);
    assert forall|k: nat| k < items.len() && k < size - 1 implies (#[trigger] filled.pop_n(
        k,
    )).front() == Ok::<T, QueueErr>(items[k as int]) by {
        filled.lemma_pop_n(k);
    }
    filled.lemma_pop_n(fresh.accepted(items).len());
}

/// The same order holds from any state: the pops hand out what the ring
/// held, oldest first, and then what was pushed behind it.
pub proof fn pops_follow_pushes<T>(ring: Ring<T>, items: Seq<T>, k: nat)
    requires
        ring.wf(),
        k < ring.len() + ring.accepted(items).len(),
    ensures
        ring.push_all(items).pop_n(k).front() == Ok::<T, QueueErr>(
            (ring.items() + ring.accepted(items))[k as int],
        ),
{
    let filled = ring.push_all(items);
    ring.lemma_push_all(items);
    filled.lemma_len();
    filled.lemma_pop_n(k);
}

/// Draining: popping until the ring is empty hands out all that it held,
/// oldest first, and leaves it empty, so that a further pop finds nothing.
pub proof fn draining_hands_out_everything<T>(ring: Ring<T>)
    requires
        ring.wf(),
    ensures
        forall|k: nat|
            k < ring.len() ==> (#[trigger] ring.pop_n(k)).front() == Ok::<T, QueueErr>(
                ring.items()[k as int],
            ),
        ring.pop_n(ring.len()).is_empty(),
        ring.pop_n(ring.len()).front() == Err::<T, QueueErr>(QueueErr::Empty),
        ring.pop_n(ring.len()).pop() == ring.pop_n(ring.len()),
{
    assert forall|k: nat| k < ring.len() implies (#[trigger] ring.pop_n(k)).front() == Ok::<
        T,
        QueueErr,
    >(ring.items()[k as int]) by {
        ring.lemma_pop_n(k);
    }
    ring.lemma_pop_n(ring.len());
}

/// Going round: on a ring of at least two slots filled from fresh, `end` is
/// at the last slot. A pop then frees a slot, so the next push succeeds: it
/// fills the last slot, and `end` goes round to the first.
pub proof fn freed_slot_is_reused<T>(size: nat, items: Seq<T>, extra: T)
    requires
        size >= 2,
        items.len() == size - 1,
    ensures
        Ring::fresh(size).push_all(items).is_full(),
        Ring::fresh(size).push_all(items).end == size - 1,
        Ring::fresh(size).push_all(items).pop().push_result() == Ok::<(), QueueErr>(()),
        Ring::fresh(size).push_all(items).pop().push(extra).slots[size - 1] == Some(extra),
        Ring::fresh(size).push_all(items).pop().push(extra).end == 0,
        Ring::fresh(size).push_all(items).pop().push(extra).items() == items.drop_first().push(
            extra,
        ),
{
    let filled = Ring::<T>::fresh(size).push_all(items);
    Ring::<T>::fresh(size).lemma_push_all(items);
    filled.lemma_pop();
    filled.pop().lemma_len();
    filled.pop().lemma_next(filled.end);
    filled.pop().lemma_push(extra);
}

/// More generally, a pop from a full ring of at least two slots makes room
/// for one push, wherever the cursors stand, and that push fills the ring
/// again.
pub proof fn pop_makes_room<T>(ring: Ring<T>, extra: T)
    requires
        ring.wf(),
        ring.is_full(),
        ring.size() >= 2,
    ensures
        ring.pop().push_result() == Ok::<(), QueueErr>(()),
        ring.pop().push(extra).items() == ring.items().drop_first().push(extra),
        ring.pop().push(extra).is_full(),
{
    ring.lemma_len();
    ring.lemma_pop();
    ring.pop().lemma_len();
    ring.pop().lemma_push(extra);
}

/// A fresh ring is empty, a ring is not empty after a push that succeeded,
/// and it is empty again once all that it held has been popped. Empty
/// means that no element is held.
pub proof fn empty_follows_contents<T>(ring: Ring<T>, item: T)
    requires
        ring.wf(),
    ensures
        Ring::<T>::fresh(ring.size()).is_empty(),
        ring.push_result() is Ok ==> !ring.push(item).is_empty(),
        ring.pop_n(ring.len()).is_empty(),
        ring.is_empty() <==> ring.items().len() == 0,
{
    ring.lemma_pop_n(ring.len());
}

/// A call that fails changes nothing, and fails in one way only: a push
/// onto a full ring gives `QueueFull`, a peek or a pop on an empty ring
/// gives `Empty`, and both leave the ring that they were given.
pub proof fn failure_changes_nothing<T>(ring: Ring<T>, item: T)
    ensures
        ring.push_result() is Err ==> ring.push_result() == Err::<(), QueueErr>(
            QueueErr::QueueFull,
        ) && ring.push(item) == ring,
        ring.front() is Err ==> ring.front() == Err::<T, QueueErr>(QueueErr::Empty) && ring.pop()
            == ring,
{
}

} // verus!
