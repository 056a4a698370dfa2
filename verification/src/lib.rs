//! A queue of fixed capacity on a ring of slots, first in, first out.
//!
//! [`ConstQueue`] keeps its elements in an array of `SIZE` optional slots
//! and holds at most `SIZE - 1` of them. What each operation returns and
//! does to the queue is stated in its contract over [`ring::Ring`], the
//! queue as a mathematical value, and proved. [`laws`] holds what follows
//! for runs of pushes and pops.

pub mod drain;
pub mod error;
pub mod laws;
pub mod queue;
pub mod ring;

pub use error::QueueErr;
pub use queue::ConstQueue;
