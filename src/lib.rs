//! Fixed-capacity double-ended queues over circular buffers.
//!
//! [`ArrayDeque`] allocates its slots once, at construction; [`StackArrayDeque`]
//! stores its `N` slots inline. Both keep their elements at the slots
//! `(front + i) % capacity`, share that algorithm ([`ring`]), and never grow:
//! when full, a push at one end evicts the element at the other end.
//!
//! Each operation is specified over [`model`], the deque as a sequence of at
//! most `capacity` elements; [`laws`] states what follows for sequences of
//! operations.
use vstd::prelude::*;

pub mod array_deque;
pub mod laws;
pub mod model;
pub mod ring;
pub mod stack_array_deque;

pub use array_deque::{ArrayDeque, ArrayDequeIntoIter, ArrayDequeIter};
pub use stack_array_deque::{
    CapacityExceeded, StackArrayDeque, StackArrayDequeIntoIter, StackArrayDequeIter,
};

verus! {

} // verus!
