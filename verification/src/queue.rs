//! The queue itself: an array of optional slots and two cursors. Every
//! operation is a few index steps on the array, whatever the queue holds.

use crate::error::QueueErr;
use crate::ring::Ring;
use vstd::prelude::*;

verus! {

/// A first-in, first-out queue over `SIZE` slots of fixed storage. It holds
/// at most `SIZE - 1` elements: one slot always stays free.
pub struct ConstQueue<Ty, const SIZE: usize> {
    buff: [Option<Ty>; SIZE],
    start: usize,
    end: usize,
}

impl<Ty, const SIZE: usize> View for ConstQueue<Ty, SIZE> {
    type V = Seq<Ty>;

    /// The elements held, oldest first.
    open spec fn view(&self) -> Seq<Ty> {
        self.ring().items()
    }
}

/// What every slot of a new queue holds.
fn vacant_slot<Ty>(_index: usize) -> (slot: Option<Ty>)
    ensures
        slot is None,
{
    None
}

/// An array of vacant slots, made by `core::array::from_fn`.
///
/// Trusted, not proved: `from_fn` calls its argument once for each index of
/// the array and returns the array of what the calls gave. Each call here
/// gives `None`, so the contract claims that every slot is vacant.
#[verifier::external_body]
fn vacant_slots<Ty, const SIZE: usize>() -> (slots: [Option<Ty>; SIZE])
    ensures
        forall|i: int| 0 <= i < SIZE ==> slots@[i] is None,
{
    core::array::from_fn(|index| vacant_slot(index))
}

impl<Ty, const SIZE: usize> ConstQueue<Ty, SIZE> {
    /// The slots and the cursors of this queue.
    pub closed spec fn ring(&self) -> Ring<Ty> {
        Ring { slots: self.buff@, start: self.start as nat, end: self.end as nat }
    }

    /// Holds of every queue at all times: its ring is well formed and has
    /// `SIZE` slots.
    #[verifier::type_invariant]
    pub open spec fn wf(&self) -> bool {
        &&& self.ring().wf()
        &&& self.ring().size() == SIZE
    }

    /// An empty queue: every slot vacant, both cursors at the first slot.
    /// A queue needs at least one slot.
    pub fn new() -> (queue: Self)
        requires
            SIZE >= 1,
        ensures
            queue.ring() == Ring::<Ty>::fresh(SIZE as nat),
            queue@ == Seq::<Ty>::empty(),
    {
        let queue = ConstQueue { buff: vacant_slots(), start: 0, end: 0 };
        proof {
            assert(queue.ring().slots =~= Ring::<Ty>::fresh(SIZE as nat).slots);
        }
        queue
    }

    /// Appends `item` behind the elements held. A queue that already holds
    /// `SIZE - 1` elements is full: it fails with `QueueFull` and stays as
    /// it is.
    pub fn push(&mut self, item: Ty) -> (res: Result<(), QueueErr>)
        ensures
            res == old(self).ring().push_result(),
            final(self).ring() == old(self).ring().push(item),
            res is Ok <==> old(self)@.len() < SIZE - 1,
            res is Ok ==> final(self)@ == old(self)@.push(item),
            res is Err ==> *final(self) == *old(self),
    {
        proof {
            use_type_invariant(&*self);
            self.ring().lemma_next(self.end as nat);
            if !self.ring().is_full() {
                self.ring().lemma_push(item);
            }
        }
        let next_end = (self.end + 1) % SIZE;
        if next_end == self.start {
            return Err(QueueErr::QueueFull);
        }
        proof {
            self.ring().lemma_fill(self.end as int, item);
        }
        self.buff[self.end] = Some(item);
        self.end = next_end;
        Ok(())
    }

    /// Appends `item` behind the elements held, for callers who know that
    /// the queue is not full. There is no error to handle: on a full queue
    /// the call is a defect of the caller, which the contract rules out.
    pub fn force_push(&mut self, item: Ty)
        requires
            old(self)@.len() < SIZE - 1,
        ensures
            final(self).ring() == old(self).ring().push(item),
            final(self)@ == old(self)@.push(item),
    {
        if self.push(item).is_err() {
            unreached::<()>();
        }
    }

    /// The oldest element, which stays in the queue, or `Empty` if there
    /// is none. No other error comes back: a vacant slot at `start` of a
    /// queue that is not empty would break the invariant.
    pub fn peek(&self) -> (res: Result<&Ty, QueueErr>)
        ensures
            match res {
                Ok(item) => self.ring().front() == Ok::<Ty, QueueErr>(*item),
                Err(e) => self.ring().front() == Err::<Ty, QueueErr>(e),
            },
            match res {
                Ok(item) => self@.len() > 0 && *item == self@[0],
                Err(e) => self@.len() == 0 && e == QueueErr::Empty,
            },
    {
        proof {
            use_type_invariant(self);
            if !self.ring().is_empty() {
                self.ring().lemma_pop();
            }
        }
        if self.start == self.end {
            return Err(QueueErr::Empty);
        }
        match &self.buff[self.start] {
            Some(item) => Ok(item),
            // Never taken: the invariant says that this slot is occupied.
            None => Err(QueueErr::UnknownError),
        }
    }

    /// Whether no element is held. This is `peek`'s answer: the queue is
    /// empty exactly when `peek` fails with `Empty`.
    pub fn empty(&self) -> (res: bool)
        ensures
            res == self.ring().is_empty(),
            res == (self.ring().front() == Err::<Ty, QueueErr>(QueueErr::Empty)),
            res == (self@.len() == 0),
    {
        match self.peek() {
            Ok(_) => false,
            Err(e) => e == QueueErr::Empty,
        }
    }

    /// Removes the oldest element and hands it out, or fails with `Empty`
    /// and leaves the queue as it is. The slot that held the element is
    /// vacated: the element moves out, no copy stays behind.
    pub fn pop(&mut self) -> (res: Result<Ty, QueueErr>)
        ensures
            res == old(self).ring().front(),
            final(self).ring() == old(self).ring().pop(),
            match res {
                Ok(item) => old(self)@.len() > 0 && item == old(self)@[0] && final(self)@ == old(
                    self,
                )@.drop_first(),
                Err(e) => old(self)@.len() == 0 && e == QueueErr::Empty && *final(self) == *old(
                    self,
                ),
            },
    {
        proof {
            use_type_invariant(&*self);
            if !self.ring().is_empty() {
                self.ring().lemma_pop();
            }
        }
        if self.start == self.end {
            return Err(QueueErr::Empty);
        }
        // `start` moves on before the slot is vacated, so that the
        // invariant also holds between the two steps.
        let front = self.start;
        self.start = (front + 1) % SIZE;
        let mut item: Option<Ty> = None;
        core::mem::swap(&mut self.buff[front], &mut item);
        Ok(item.unwrap())
    }
}

} // verus!
