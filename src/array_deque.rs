//! A fixed-capacity deque whose slots live in one heap allocation.
use vstd::prelude::*;
use vstd::std_specs::cmp::PartialEqSpec;

use crate::model::{
    lemma_pushed_back_all_fits, pushed_back, pushed_back_all, pushed_front, same_elements,
};
use crate::ring::Ring;

verus! {

/// A double-ended queue of at most `capacity` elements over a circular buffer
/// allocated once, at construction.
///
/// When full, `push_back` evicts the front element and `push_front` evicts the
/// back element.
pub struct ArrayDeque<T> {
    ring: Ring<Vec<Option<T>>>,
}

impl<T> View for ArrayDeque<T> {
    type V = Seq<T>;

    /// The elements, front first.
    closed spec fn view(&self) -> Seq<T> {
        self.ring@
    }
}

impl<T> ArrayDeque<T> {
    /// The deque's internal invariant: it holds between any two public calls.
    pub closed spec fn wf(&self) -> bool {
        self.ring.wf()
    }

    /// The fixed capacity.
    pub closed spec fn cap(&self) -> nat {
        self.ring.cap()
    }

    /// A well-formed deque holds at most `cap()` elements, and `cap()` is positive.
    pub proof fn lemma_len_le_capacity(&self)
        requires
            self.wf(),
        ensures
            self@.len() <= self.cap(),
            self.cap() > 0,
    {
        self.ring.lemma_len_le_cap();
    }

    /// An empty deque of capacity `cap`; a capacity of zero is not allowed.
    pub fn new(cap: usize) -> (r: Self)
        requires
            cap > 0,
        ensures
            r.wf(),
            r@ == Seq::<T>::empty(),
            r.cap() == cap,
    {
        let mut slots: Vec<Option<T>> = Vec::with_capacity(cap);
        let mut i: usize = 0;
        while i < cap
            invariant
                i <= cap,
                slots@.len() == i,
                forall|p: int| 0 <= p < i ==> #[trigger] slots@[p] is None,
            decreases cap - i,
        {
            slots.push(None);
            i = i + 1;
        }
        ArrayDeque { ring: Ring::new(slots) }
    }

    /// Appends `value` at the back; when full, the front element is dropped.
    pub fn push_back(&mut self, value: T)
        requires
            old(self).wf(),
        ensures
            final(self).wf(),
            final(self).cap() == old(self).cap(),
            final(self)@ == pushed_back(old(self)@, old(self).cap(), value),
    {
        self.ring.push_back(value);
    }

    /// Prepends `value` at the front; when full, the back element is dropped.
    pub fn push_front(&mut self, value: T)
        requires
            old(self).wf(),
        ensures
            final(self).wf(),
            final(self).cap() == old(self).cap(),
            final(self)@ == pushed_front(old(self)@, old(self).cap(), value),
    {
        self.ring.push_front(value);
    }

    /// Removes and returns the back element; `None`, with nothing changed, when empty.
    pub fn pop_back(&mut self) -> (r: Option<T>)
        requires
            old(self).wf(),
        ensures
            final(self).wf(),
            final(self).cap() == old(self).cap(),
            old(self)@.len() == 0 ==> r is None && *final(self) == *old(self),
            old(self)@.len() > 0 ==> r == Some(old(self)@.last()) && final(self)@ == old(
                self,
            )@.drop_last(),
    {
        self.ring.pop_back()
    }

    /// Removes and returns the front element; `None`, with nothing changed, when empty.
    pub fn pop_front(&mut self) -> (r: Option<T>)
        requires
            old(self).wf(),
        ensures
            final(self).wf(),
            final(self).cap() == old(self).cap(),
            old(self)@.len() == 0 ==> r is None && *final(self) == *old(self),
            old(self)@.len() > 0 ==> r == Some(old(self)@[0]) && final(self)@ == old(
                self,
            )@.drop_first(),
    {
        self.ring.pop_front()
    }

    /// The front element, if any.
    pub fn front(&self) -> (r: Option<&T>)
        requires
            self.wf(),
        ensures
            r == (if self@.len() == 0 { None } else { Some(&self@[0]) }),
    {
        self.ring.front()
    }

    /// The back element, if any.
    pub fn back(&self) -> (r: Option<&T>)
        requires
            self.wf(),
        ensures
            r == (if self@.len() == 0 { None } else { Some(&self@.last()) }),
    {
        self.ring.back()
    }

    /// The element at logical position `i` (0 is the front); `i` must be below `len()`.
    pub fn get(&self, i: usize) -> (r: &T)
        requires
            self.wf(),
            i < self@.len(),
        ensures
            *r == self@[i as int],
    {
        self.ring.get(i)
    }

    /// The element at logical position `i`, to change in place; `i` must be below `len()`.
    pub fn get_mut(&mut self, i: usize) -> (r: &mut T)
        requires
            old(self).wf(),
            i < old(self)@.len(),
        ensures
            *r == old(self)@[i as int],
            final(self).wf(),
            final(self).cap() == old(self).cap(),
            final(self)@ == old(self)@.update(i as int, *final(r)),
    {
        self.ring.get_mut(i)
    }

    /// A borrowing iterator over the elements, front to back.
    pub fn iter(&self) -> (r: ArrayDequeIter<'_, T>)
        requires
            self.wf(),
        ensures
            r.wf(),
            r.remaining() == self@,
    {
        ArrayDequeIter { deque: self, pos: 0 }
    }

    pub fn capacity(&self) -> (r: usize)
        ensures
            r == self.cap(),
    {
        self.ring.capacity()
    }

    pub fn len(&self) -> (r: usize)
        ensures
            r == self@.len(),
    {
        self.ring.len()
    }

    pub fn is_empty(&self) -> (r: bool)
        ensures
            r == (self@.len() == 0),
    {
        self.ring.len() == 0
    }

    pub fn is_full(&self) -> (r: bool)
        ensures
            r == (self@.len() == self.cap()),
    {
        self.ring.len() == self.ring.capacity()
    }

    /// Drops every element; the capacity stays.
    pub fn clear(&mut self)
        requires
            old(self).wf(),
        ensures
            final(self).wf(),
            final(self).cap() == old(self).cap(),
            final(self)@ == Seq::<T>::empty(),
    {
        self.ring.clear();
    }

    /// Pushes each of `items` at the back, in order, evicting from the front when full.
    pub fn extend(&mut self, items: Vec<T>)
        requires
            old(self).wf(),
        ensures
            final(self).wf(),
            final(self).cap() == old(self).cap(),
            final(self)@ == pushed_back_all(old(self)@, old(self).cap(), items@),
    {
        self.ring.extend(items);
    }

    /// A deque of the same capacity holding clones of the elements.
    pub fn clone(&self) -> (r: Self) where T: Clone
        requires
            self.wf(),
        ensures
            r.wf(),
            r.cap() == self.cap(),
            r@.len() == self@.len(),
            forall|i: int| 0 <= i < self@.len() ==> cloned::<T>(self@[i], #[trigger] r@[i]),
    {
        proof {
            self.ring.lemma_len_le_cap();
        }
        let target = ArrayDeque::new(self.ring.capacity());
        ArrayDeque { ring: self.ring.clone_into(target.ring) }
    }

    /// Whether both deques hold equal elements in the same order; the
    /// capacities may differ.
    pub fn eq(&self, other: &Self) -> (r: bool) where T: PartialEq
        requires
            self.wf(),
            other.wf(),
        ensures
            <T as PartialEqSpec>::obeys_eq_spec() ==> (r == same_elements(self@, other@)),
    {
        self.ring.eq_elements(&other.ring)
    }

    /// A consuming iterator that yields the elements front to back.
    pub fn into_iter(self) -> (r: ArrayDequeIntoIter<T>)
        requires
            self.wf(),
        ensures
            r.wf(),
            r.remaining() == self@,
    {
        ArrayDequeIntoIter { deque: self }
    }
}

/// The capacity that bulk construction gives for `n` elements: `n`, but at least 1.
pub open spec fn bulk_capacity(n: nat) -> nat {
    if n == 0 {
        1
    } else {
        n
    }
}

impl<T> ArrayDeque<T> {
    /// A deque holding `items` in order, front first, with capacity
    /// `items.len()` (at least 1).
    pub fn from_iter(items: Vec<T>) -> (r: Self)
        ensures
            r.wf(),
            r@ == items@,
            r.cap() == bulk_capacity(items@.len()),
    {
        let cap = if items.len() == 0 {
            1
        } else {
            items.len()
        };
        let mut r = ArrayDeque::new(cap);
        proof {
            lemma_pushed_back_all_fits(r@, r.cap(), items@);
            assert(r@ + items@ =~= items@);
        }
        r.extend(items);
        r
    }

    /// A deque holding clones of `items` in order, with capacity `items.len()`
    /// (at least 1).
    pub fn from_slice(items: &[T]) -> (r: Self) where T: Clone
        ensures
            r.wf(),
            r.cap() == bulk_capacity(items@.len()),
            r@.len() == items@.len(),
            forall|i: int| 0 <= i < items@.len() ==> cloned::<T>(items@[i], #[trigger] r@[i]),
    {
        let n = items.len();
        let cap = if n == 0 {
            1
        } else {
            n
        };
        let mut r = ArrayDeque::new(cap);
        let mut i: usize = 0;
        while i < n
            invariant
                n == items@.len(),
                i <= n,
                r.wf(),
                r.cap() == cap,
                cap == bulk_capacity(n as nat),
                r@.len() == i,
                forall|j: int| 0 <= j < i ==> cloned::<T>(items@[j], #[trigger] r@[j]),
            decreases n - i,
        {
            let x = items[i].clone();
            r.push_back(x);
            i = i + 1;
        }
        r
    }
}

/// Relies on `Vec::from` for arrays: it moves the array's elements, in order,
/// into a new vector.
#[verifier::external_body]
fn array_to_vec<T, const N: usize>(items: [T; N]) -> (r: Vec<T>)
    ensures
        r@ == items@,
{
    Vec::from(items)
}

impl<T> From<Vec<T>> for ArrayDeque<T> {
    /// A deque holding `items` in order, with capacity `items.len()` (at least 1).
    fn from(items: Vec<T>) -> (r: Self)
        ensures
            r.wf(),
            r@ == items@,
            r.cap() == bulk_capacity(items@.len()),
    {
        ArrayDeque::from_iter(items)
    }
}

// `from` builds a fresh allocation, so its result is described by its own
// `ensures` rather than as one fixed value.
impl<T> vstd::std_specs::convert::FromSpecImpl<Vec<T>> for ArrayDeque<T> {
    open spec fn obeys_from_spec() -> bool {
        false
    }

    open spec fn from_spec(items: Vec<T>) -> Self {
        choose|r: Self| r.wf() && r@ == items@
    }
}

impl<T, const N: usize> From<[T; N]> for ArrayDeque<T> {
    /// A deque holding the array's elements in order, with capacity `N` (at least 1).
    fn from(items: [T; N]) -> (r: Self)
        ensures
            r.wf(),
            r@ == items@,
            r.cap() == bulk_capacity(N as nat),
    {
        ArrayDeque::from_iter(array_to_vec(items))
    }
}

impl<T, const N: usize> vstd::std_specs::convert::FromSpecImpl<[T; N]> for ArrayDeque<T> {
    open spec fn obeys_from_spec() -> bool {
        false
    }

    open spec fn from_spec(items: [T; N]) -> Self {
        choose|r: Self| r.wf() && r@ == items@
    }
}

impl<'a, T: Clone> From<&'a [T]> for ArrayDeque<T> {
    /// A deque holding clones of the slice's elements, with capacity
    /// `items.len()` (at least 1).
    fn from(items: &'a [T]) -> (r: Self)
        ensures
            r.wf(),
            r.cap() == bulk_capacity(items@.len()),
            r@.len() == items@.len(),
            forall|i: int| 0 <= i < items@.len() ==> cloned::<T>(items@[i], #[trigger] r@[i]),
    {
        ArrayDeque::from_slice(items)
    }
}

impl<'a, T: Clone> vstd::std_specs::convert::FromSpecImpl<&'a [T]> for ArrayDeque<T> {
    open spec fn obeys_from_spec() -> bool {
        false
    }

    open spec fn from_spec(items: &'a [T]) -> Self {
        choose|r: Self| r.wf() && r@.len() == items@.len()
    }
}

impl<'a, T: Clone> From<&'a Vec<T>> for ArrayDeque<T> {
    /// A deque holding clones of the vector's elements, with capacity
    /// `items.len()` (at least 1).
    fn from(items: &'a Vec<T>) -> (r: Self)
        ensures
            r.wf(),
            r.cap() == bulk_capacity(items@.len()),
            r@.len() == items@.len(),
            forall|i: int| 0 <= i < items@.len() ==> cloned::<T>(items@[i], #[trigger] r@[i]),
    {
        ArrayDeque::from_slice(items.as_slice())
    }
}

impl<'a, T: Clone> vstd::std_specs::convert::FromSpecImpl<&'a Vec<T>> for ArrayDeque<T> {
    open spec fn obeys_from_spec() -> bool {
        false
    }

    open spec fn from_spec(items: &'a Vec<T>) -> Self {
        choose|r: Self| r.wf() && r@.len() == items@.len()
    }
}

impl<'a, T: Clone, const N: usize> From<&'a [T; N]> for ArrayDeque<T> {
    /// A deque holding clones of the array's elements, with capacity `N` (at least 1).
    fn from(items: &'a [T; N]) -> (r: Self)
        ensures
            r.wf(),
            r.cap() == bulk_capacity(N as nat),
            r@.len() == N,
            forall|i: int| 0 <= i < N ==> cloned::<T>(items@[i], #[trigger] r@[i]),
    {
        ArrayDeque::from_slice(items.as_slice())
    }
}

impl<'a, T: Clone, const N: usize> vstd::std_specs::convert::FromSpecImpl<&'a [T; N]> for ArrayDeque<T> {
    open spec fn obeys_from_spec() -> bool {
        false
    }

    open spec fn from_spec(items: &'a [T; N]) -> Self {
        choose|r: Self| r.wf() && r@.len() == N
    }
}

/// Iterates over references to the elements of an [`ArrayDeque`], front to back.
pub struct ArrayDequeIter<'a, T> {
    deque: &'a ArrayDeque<T>,
    pos: usize,
}

impl<'a, T> ArrayDequeIter<'a, T> {
    pub closed spec fn wf(&self) -> bool {
        self.deque.wf() && self.pos <= self.deque@.len()
    }

    /// The elements not yet yielded.
    pub closed spec fn remaining(&self) -> Seq<T> {
        self.deque@.subrange(self.pos as int, self.deque@.len() as int)
    }

    pub fn next(&mut self) -> (r: Option<&'a T>)
        requires
            old(self).wf(),
        ensures
            final(self).wf(),
            old(self).remaining().len() == 0 ==> r is None && final(self).remaining()
                == old(self).remaining(),
            old(self).remaining().len() > 0 ==> r == Some(&old(self).remaining()[0])
                && final(self).remaining() == old(self).remaining().drop_first(),
    {
        if self.pos < self.deque.len() {
            let r = self.deque.get(self.pos);
            self.pos = self.pos + 1;
            assert(self.remaining() =~= old(self).remaining().drop_first());
            Some(r)
        } else {
            None
        }
    }

    /// The exact number of elements left, as a lower and an upper bound.
    pub fn size_hint(&self) -> (r: (usize, Option<usize>))
        requires
            self.wf(),
        ensures
            r.0 == self.remaining().len(),
            r.1 == Some(r.0),
    {
        let n = self.deque.len() - self.pos;
        (n, Some(n))
    }
}

/// Moves the elements out of an [`ArrayDeque`], front to back. Elements not
/// yet yielded are dropped with the iterator.
pub struct ArrayDequeIntoIter<T> {
    deque: ArrayDeque<T>,
}

impl<T> ArrayDequeIntoIter<T> {
    pub closed spec fn wf(&self) -> bool {
        self.deque.wf()
    }

    /// The elements not yet yielded.
    pub closed spec fn remaining(&self) -> Seq<T> {
        self.deque@
    }

    pub fn next(&mut self) -> (r: Option<T>)
        requires
            old(self).wf(),
        ensures
            final(self).wf(),
            old(self).remaining().len() == 0 ==> r is None && final(self).remaining()
                == old(self).remaining(),
            old(self).remaining().len() > 0 ==> r == Some(old(self).remaining()[0])
                && final(self).remaining() == old(self).remaining().drop_first(),
    {
        self.deque.pop_front()
    }

    /// The exact number of elements left, as a lower and an upper bound.
    pub fn size_hint(&self) -> (r: (usize, Option<usize>))
        ensures
            r.0 == self.remaining().len(),
            r.1 == Some(r.0),
    {
        let n = self.deque.len();
        (n, Some(n))
    }
}

} // verus!
