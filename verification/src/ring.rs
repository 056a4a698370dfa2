//! The queue as a mathematical value: a ring of optional slots and two
//! cursors. The contracts of the executable queue are stated over it.

use crate::error::QueueErr;
use vstd::arithmetic::div_mod::{lemma_mod_sub_multiples_vanish, lemma_small_mod};
use vstd::prelude::*;

verus! {

/// An index below twice the modulus is reduced by at most one subtraction.
proof fn lemma_mod_once(i: int, size: int)
    requires
        0 < size,
        0 <= i < 2 * size,
    ensures
        i % size == if i < size { i } else { i - size },
{
    if i < size {
        lemma_small_mod(i as nat, size as nat);
    } else {
        lemma_mod_sub_multiples_vanish(i, size);
        lemma_small_mod((i - size) as nat, size as nat);
    }
}

/// A fixed number of slots, each holding one element or none, the index
/// `start` of the oldest element and the index `end` of the slot that the
/// next push writes.
pub struct Ring<T> {
    pub slots: Seq<Option<T>>,
    pub start: nat,
    pub end: nat,
}

impl<T> Ring<T> {
    /// The number of slots.
    pub open spec fn size(self) -> nat {
        self.slots.len()
    }

    /// The most elements held at once. One slot always stays free, so that
    /// a full ring can be told from an empty one by the cursors alone.
    pub open spec fn capacity(self) -> nat {
        (self.size() - 1) as nat
    }

    /// The index that follows `i`, going round at the last slot.
    pub open spec fn next(self, i: nat) -> nat {
        (i + 1) % self.size()
    }

    /// The number of elements held: the way from `start` forward to `end`.
    pub open spec fn len(self) -> nat {
        if self.start <= self.end {
            (self.end - self.start) as nat
        } else {
            (self.size() - self.start + self.end) as nat
        }
    }

    /// The index of the slot that holds the `k`-th oldest element.
    pub open spec fn slot_of(self, k: int) -> int {
        (self.start + k) % (self.size() as int)
    }

    /// The elements held, oldest first.
    pub open spec fn items(self) -> Seq<T> {
        Seq::new(self.len(), |k: int| self.slots[self.slot_of(k)].unwrap())
    }

    /// There is at least one slot, both cursors point at a slot, and every
    /// slot from `start` round to just before `end` holds an element. What
    /// the other slots hold does not matter.
    pub open spec fn wf(self) -> bool {
        &&& self.size() >= 1
        &&& self.start < self.size()
        &&& self.end < self.size()
        &&& forall|k: int| 0 <= k < self.len() ==> self.slots[#[trigger] self.slot_of(k)] is Some
    }

    /// No element is held: the cursors meet.
    pub open spec fn is_empty(self) -> bool {
        self.start == self.end
    }

    /// No push is taken: `end` is just behind `start`.
    pub open spec fn is_full(self) -> bool {
        self.next(self.end) == self.start
    }

    /// The ring of `size` vacant slots with both cursors at the first.
    pub open spec fn fresh(size: nat) -> Self {
        Ring { slots: Seq::new(size, |i: int| None), start: 0, end: 0 }
    }

    /// What a push returns: it fails if and only if the ring is full.
    pub open spec fn push_result(self) -> Result<(), QueueErr> {
        if self.is_full() {
            Err(QueueErr::QueueFull)
        } else {
            Ok(())
        }
    }

    /// The ring after a push of `item`. A full ring stays as it is; else
    /// the item goes into the slot at `end`, and `end` moves on by one.
    pub open spec fn push(self, item: T) -> Self {
        if self.is_full() {
            self
        } else {
            Ring {
                slots: self.slots.update(self.end as int, Some(item)),
                start: self.start,
                end: self.next(self.end),
            }
        }
    }

    /// What a peek or a pop returns: the element in the slot at `start`,
    /// or `Empty` if and only if the ring is empty.
    pub open spec fn front(self) -> Result<T, QueueErr> {
        if self.is_empty() {
            Err(QueueErr::Empty)
        } else {
            Ok(self.slots[self.start as int].unwrap())
        }
    }

    /// The ring after a pop. An empty ring stays as it is; else the slot at
    /// `start` is vacated, and `start` moves on by one.
    pub open spec fn pop(self) -> Self {
        if self.is_empty() {
            self
        } else {
            Ring {
                slots: self.slots.update(self.start as int, None),
                start: self.next(self.start),
                end: self.end,
            }
        }
    }

    /// The number of pushes that succeed before the ring is full.
    pub open spec fn room(self) -> nat {
        (self.capacity() - self.len()) as nat
    }

    /// Those of `items` that a run of pushes takes in: as many from the
    /// front as there is room for.
    pub open spec fn accepted(self, items: Seq<T>) -> Seq<T> {
        if items.len() <= self.room() {
            items
        } else {
            items.take(self.room() as int)
        }
    }

    /// The ring after pushing `items` one after the other, first to last.
    /// A push that finds the ring full leaves it as it is.
    pub open spec fn push_all(self, items: Seq<T>) -> Self
        decreases items.len(),
    {
        if items.len() == 0 {
            self
        } else {
            self.push_all(items.drop_last()).push(items.last())
        }
    }

    /// The ring after `n` pops.
    pub open spec fn pop_n(self, n: nat) -> Self
        decreases n,
    {
        if n == 0 {
            self
        } else {
            self.pop_n((n - 1) as nat).pop()
        }
    }

}

impl<T> Ring<T> {
    /// `next` goes up by one, and from the last index back to zero.
    pub proof fn lemma_next(self, i: nat)
        requires
            i < self.size(),
        ensures
            self.next(i) == if i + 1 == self.size() { 0 } else { i + 1 },
            self.next(i) < self.size(),
    {
        lemma_mod_once(i as int + 1, self.size() as int);
    }

    /// `slot_of` counts up from `start`, and goes round at most once.
    pub proof fn lemma_slot_of(self, k: int)
        requires
            self.start < self.size(),
            0 <= k < self.size(),
        ensures
            self.slot_of(k) == if self.start + k < self.size() {
                self.start + k
            } else {
                self.start + k - self.size()
            },
            0 <= self.slot_of(k) < self.size(),
    {
        lemma_mod_once(self.start + k, self.size() as int);
    }

    /// The cursors alone tell how many elements are held: never more than
    /// the capacity, none exactly when the cursors meet, and as many as the
    /// capacity exactly when `end` is just behind `start`.
    pub proof fn lemma_len(self)
        requires
            self.wf(),
        ensures
            self.items().len() == self.len(),
            self.len() <= self.capacity(),
            self.is_empty() <==> self.len() == 0,
            self.is_full() <==> self.len() == self.capacity(),
            self.end == self.slot_of(self.len() as int),
    {
        self.lemma_next(self.end);
        self.lemma_slot_of(self.len() as int);
    }

    /// Filling any one slot keeps a ring well formed.
    pub proof fn lemma_fill(self, i: int, item: T)
        requires
            self.wf(),
            0 <= i < self.size(),
        ensures
            (Ring { slots: self.slots.update(i, Some(item)), ..self }).wf(),
    {
        let after = Ring { slots: self.slots.update(i, Some(item)), ..self };
        assert forall|k: int| 0 <= k < after.len() implies after.slots[#[trigger] after.slot_of(
            k,
        )] is Some by {
            assert(after.slot_of(k) == self.slot_of(k));
        }
    }

    /// A push onto a ring that is not full appends the item to what is held.
    pub proof fn lemma_push(self, item: T)
        requires
            self.wf(),
            !self.is_full(),
        ensures
            self.push(item).wf(),
            self.push(item).size() == self.size(),
            self.push(item).items() == self.items().push(item),
    {
        let after = self.push(item);
        self.lemma_next(self.end);
        assert forall|k: int| 0 <= k < after.len() implies {
            &&& after.slots[#[trigger] after.slot_of(k)] is Some
            &&& after.slots[after.slot_of(k)].unwrap() == self.items().push(item)[k]
        } by {
            self.lemma_slot_of(k);
        }
    }

    /// A pop from a ring that is not empty hands out the oldest element and
    /// leaves the others in their order. The ring is also well formed in
    /// between, when `start` has moved on and the slot is not yet vacated.
    pub proof fn lemma_pop(self)
        requires
            self.wf(),
            !self.is_empty(),
        ensures
            self.slots[self.start as int] is Some,
            self.front() == Ok::<T, QueueErr>(self.items()[0]),
            (Ring { start: self.next(self.start), ..self }).wf(),
            self.pop().wf(),
            self.pop().size() == self.size(),
            self.pop().items() == self.items().drop_first(),
    {
        let after = self.pop();
        let moved = Ring { start: self.next(self.start), ..self };
        self.lemma_next(self.start);
        self.lemma_slot_of(0);
        assert forall|k: int| 0 <= k < moved.len() implies moved.slots[#[trigger] moved.slot_of(
            k,
        )] is Some by {
            moved.lemma_slot_of(k);
            self.lemma_slot_of(k + 1);
        }
        assert forall|k: int| 0 <= k < after.len() implies {
            &&& after.slots[#[trigger] after.slot_of(k)] is Some
            &&& after.slots[after.slot_of(k)].unwrap() == self.items().drop_first()[k]
        } by {
            after.lemma_slot_of(k);
            self.lemma_slot_of(k + 1);
        }
    }

    /// A run of pushes fills the room that is left: the pushes that come
    /// while there is room succeed, those that come after find the ring
    /// full, and the ring then holds what it held and, behind it, the items
    /// that were accepted.
    pub proof fn lemma_push_all(self, items: Seq<T>)
        requires
            self.wf(),
        ensures
            self.push_all(items).wf(),
            self.push_all(items).size() == self.size(),
            self.push_all(items).start == self.start,
            self.push_all(items).items() == self.items() + self.accepted(items),
            forall|k: int|
                0 <= k < items.len() ==> ((#[trigger] self.push_all(items.take(k))).is_full() <==> k
                    >= self.room()),
        decreases items.len(),
    {
        if items.len() > 0 {
            let init = items.drop_last();
            let before = self.push_all(init);
            self.lemma_push_all(init);
            before.lemma_len();
            if init.len() < self.room() {
                before.lemma_push(items.last());
                assert(self.items() + self.accepted(items) =~= (self.items() + init).push(
                    items.last(),
                ));
            }
            assert forall|k: int| 0 <= k < items.len() implies ((#[trigger] self.push_all(
                items.take(k),
            )).is_full() <==> k >= self.room()) by {
                if k < init.len() {
                    assert(items.take(k) =~= init.take(k));
                }
            }
        }
    }

    /// The first `n` pops, for `n` up to the number of elements held, take
    /// the `n` oldest elements away, and the next pop hands out the element
    /// that was at position `n`.
    pub proof fn lemma_pop_n(self, n: nat)
        requires
            self.wf(),
            n <= self.len(),
        ensures
            self.pop_n(n).wf(),
            self.pop_n(n).size() == self.size(),
            self.pop_n(n).end == self.end,
            self.pop_n(n).items() == self.items().skip(n as int),
            n < self.len() ==> self.pop_n(n).front() == Ok::<T, QueueErr>(self.items()[n as int]),
            n == self.len() ==> self.pop_n(n).is_empty(),
        decreases n,
    {
        if n > 0 {
            let before = self.pop_n((n - 1) as nat);
            self.lemma_pop_n((n - 1) as nat);
            before.lemma_pop();
        }
        let after = self.pop_n(n);
        after.lemma_len();
        if n < self.len() {
            after.lemma_pop();
        }
    }

    /// A fresh ring with at least one slot is well formed and holds nothing.
    pub proof fn lemma_fresh(size: nat)
        requires
            size >= 1,
        ensures
            Self::fresh(size).wf(),
            Self::fresh(size).size() == size,
            Self::fresh(size).is_empty(),
            Self::fresh(size).items() == Seq::<T>::empty(),
    {
    }
}

} // verus!
