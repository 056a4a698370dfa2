//! Draining a queue as a sequence: each item pulled is popped, so the
//! sequence ends when the queue is empty, and a second pass finds nothing.
//! This is for elements that are `Copy`; others are popped in a loop.

use crate::error::QueueErr;
use crate::queue::ConstQueue;
use vstd::prelude::*;
use vstd::std_specs::iter::IteratorSpecImpl;

verus! {

impl<Ty: Copy, const SIZE: usize> Iterator for ConstQueue<Ty, SIZE> {
    type Item = Ty;

    /// Pops the oldest element, or gives `None` once the queue is empty.
    fn next(&mut self) -> (ret: Option<Ty>)
        ensures
            final(self).ring() == old(self).ring().pop(),
            match ret {
                Some(item) => old(self).ring().front() == Ok::<Ty, QueueErr>(item) && old(
                    self,
                )@.len() > 0 && item == old(self)@[0] && final(self)@ == old(self)@.drop_first(),
                None => old(self).ring().front() == Err::<Ty, QueueErr>(QueueErr::Empty) && old(
                    self,
                )@.len() == 0 && *final(self) == *old(self),
            },
    {
        let item = self.pop();
        if item.is_ok() {
            Some(item.unwrap())
        } else {
            None
        }
    }
}

/// What the sequence will yield is what the queue holds, oldest first.
impl<Ty: Copy, const SIZE: usize> IteratorSpecImpl for ConstQueue<Ty, SIZE> {
    open spec fn obeys_prophetic_iter_laws(&self) -> bool {
        true
    }

    open spec fn remaining(&self) -> Seq<Ty> {
        self@
    }

    open spec fn will_return_none(&self) -> bool {
        true
    }

    open spec fn decrease(&self) -> Option<nat> {
        Some(self@.len())
    }

    open spec fn initial_value_relation(&self, init: &Self) -> bool {
        self@ == init@
    }

    open spec fn peek(&self, index: int) -> Option<Ty> {
        if 0 <= index < self@.len() {
            Some(self@[index])
        } else {
            None
        }
    }
}

} // verus!
