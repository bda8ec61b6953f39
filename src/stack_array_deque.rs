//! A fixed-capacity deque whose `N` slots are stored inline, with no heap
//! allocation.
use vstd::prelude::*;
use vstd::std_specs::cmp::PartialEqSpec;

use crate::model::{
    lemma_pushed_back_all_fits, pushed_back, pushed_back_all, pushed_front, same_elements,
};
use crate::ring::Ring;

verus! {

/// The value of every slot of a new deque.
fn vacant_slot<T>(_i: usize) -> (r: Option<T>)
    ensures
        r is None,
{
    None
}

/// Relies on `std::array::from_fn`: element `i` of the result is what the
/// function gives for `i`; `vacant_slot` gives `None` for each.
#[verifier::external_body]
fn vacant_slots<T, const N: usize>() -> (r: [Option<T>; N])
    ensures
        forall|i: int| 0 <= i < N ==> #[trigger] r@[i] is None,
{
    std::array::from_fn(vacant_slot::<T>)
}

/// A double-ended queue of at most `N` elements over a circular buffer stored
/// inline, with no heap allocation.
///
/// When full, `push_back` evicts the front element and `push_front` evicts the
/// back element.
pub struct StackArrayDeque<T, const N: usize> {
    ring: Ring<[Option<T>; N]>,
}

impl<T, const N: usize> View for StackArrayDeque<T, N> {
    type V = Seq<T>;

    /// The elements, front first.
    closed spec fn view(&self) -> Seq<T> {
        self.ring@
    }
}

/// The error of building a [`StackArrayDeque`] from more elements than it can hold.
#[derive(Debug, Clone, Copy, PartialEq, Eq)]
pub struct CapacityExceeded {
    /// How many elements were offered.
    pub len: usize,
    /// The deque's capacity.
    pub capacity: usize,
}

impl<T, const N: usize> StackArrayDeque<T, N> {
    /// The deque's internal invariant: it holds between any two public calls.
    pub closed spec fn wf(&self) -> bool {
        self.ring.wf() && self.ring.cap() == N
    }

    /// A well-formed deque holds at most `N` elements, and `N` is positive.
    pub proof fn lemma_len_le_capacity(&self)
        requires
            self.wf(),
        ensures
            self@.len() <= N,
            N > 0,
    {
        self.ring.lemma_len_le_cap();
    }

    /// An empty deque; `N` must be positive.
    pub fn new() -> (r: Self)
        requires
            N > 0,
        ensures
            r.wf(),
            r@ == Seq::<T>::empty(),
    {
        StackArrayDeque { ring: Ring::new(vacant_slots::<T, N>()) }
    }

    /// An empty deque, as `new`.
    pub fn default() -> (r: Self)
        requires
            N > 0,
        ensures
            r.wf(),
            r@ == Seq::<T>::empty(),
    {
        Self::new()
    }

    /// Appends `value` at the back; when full, the front element is dropped.
    pub fn push_back(&mut self, value: T)
        requires
            old(self).wf(),
        ensures
            final(self).wf(),
            final(self)@ == pushed_back(old(self)@, N as nat, value),
    {
        self.ring.push_back(value);
    }

    /// Prepends `value` at the front; when full, the back element is dropped.
    pub fn push_front(&mut self, value: T)
        requires
            old(self).wf(),
        ensures
            final(self).wf(),
            final(self)@ == pushed_front(old(self)@, N as nat, value),
    {
        self.ring.push_front(value);
    }

    /// Removes and returns the back element; `None`, with nothing changed, when empty.
    pub fn pop_back(&mut self) -> (r: Option<T>)
        requires
            old(self).wf(),
        ensures
            final(self).wf(),
            old(self)@.len() == 0 ==> r is None && *final(self) == *old(self),
            old(self)@.len() > 0 ==> r == Some(old(self)@.last()) && final(self)@ == old(
                self,
            )@.drop_last(),
    {
        self.ring.pop_back()
    }

    /// Removes and returns the front element; `None`, with nothing changed, when empty.
    pub fn pop_front(&mut self) -> (r: Option<T>)
        requires
            old(self).wf(),
        ensures
            final(self).wf(),
            old(self)@.len() == 0 ==> r is None && *final(self) == *old(self),
            old(self)@.len() > 0 ==> r == Some(old(self)@[0]) && final(self)@ == old(
                self,
            )@.drop_first(),
    {
        self.ring.pop_front()
    }

    /// The front element, if any.
    pub fn front(&self) -> (r: Option<&T>)
        requires
            self.wf(),
        ensures
            r == (if self@.len() == 0 { None } else { Some(&self@[0]) }),
    {
        self.ring.front()
    }

    /// The back element, if any.
    pub fn back(&self) -> (r: Option<&T>)
        requires
            self.wf(),
        ensures
            r == (if self@.len() == 0 { None } else { Some(&self@.last()) }),
    {
        self.ring.back()
    }

    /// The element at logical position `i` (0 is the front); `i` must be below `len()`.
    pub fn get(&self, i: usize) -> (r: &T)
        requires
            self.wf(),
            i < self@.len(),
        ensures
            *r == self@[i as int],
    {
        self.ring.get(i)
    }

    /// The element at logical position `i`, to change in place; `i` must be below `len()`.
    pub fn get_mut(&mut self, i: usize) -> (r: &mut T)
        requires
            old(self).wf(),
            i < old(self)@.len(),
        ensures
            *r == old(self)@[i as int],
            final(self).wf(),
            final(self)@ == old(self)@.update(i as int, *final(r)),
    {
        self.ring.get_mut(i)
    }

    /// A borrowing iterator over the elements, front to back.
    pub fn iter(&self) -> (r: StackArrayDequeIter<'_, T, N>)
        requires
            self.wf(),
        ensures
            r.wf(),
            r.remaining() == self@,
    {
        StackArrayDequeIter { deque: self, pos: 0 }
    }

    pub fn capacity(&self) -> (r: usize)
        ensures
            r == N,
    {
        N
    }

    pub fn len(&self) -> (r: usize)
        ensures
            r == self@.len(),
    {
        self.ring.len()
    }

    pub fn is_empty(&self) -> (r: bool)
        ensures
            r == (self@.len() == 0),
    {
        self.ring.len() == 0
    }

    pub fn is_full(&self) -> (r: bool)
        ensures
            r == (self@.len() == N),
    {
        self.ring.len() == N
    }

    /// Drops every element; the capacity stays.
    pub fn clear(&mut self)
        requires
            old(self).wf(),
        ensures
            final(self).wf(),
            final(self)@ == Seq::<T>::empty(),
    {
        self.ring.clear();
    }

    /// Pushes each of `items` at the back, in order, evicting from the front when full.
    pub fn extend(&mut self, items: Vec<T>)
        requires
            old(self).wf(),
        ensures
            final(self).wf(),
            final(self)@ == pushed_back_all(old(self)@, N as nat, items@),
    {
        self.ring.extend(items);
    }

    /// A deque of the same capacity holding clones of the elements.
    pub fn clone(&self) -> (r: Self) where T: Clone
        requires
            self.wf(),
        ensures
            r.wf(),
            r@.len() == self@.len(),
            forall|i: int| 0 <= i < self@.len() ==> cloned::<T>(self@[i], #[trigger] r@[i]),
    {
        proof {
            self.ring.lemma_len_le_cap();
        }
        let target = StackArrayDeque::<T, N>::new();
        StackArrayDeque { ring: self.ring.clone_into(target.ring) }
    }

    /// Whether both deques hold equal elements in the same order; the
    /// capacities may differ.
    pub fn eq(&self, other: &Self) -> (r: bool) where T: PartialEq
        requires
            self.wf(),
            other.wf(),
        ensures
            <T as PartialEqSpec>::obeys_eq_spec() ==> (r == same_elements(self@, other@)),
    {
        self.ring.eq_elements(&other.ring)
    }

    /// A consuming iterator that yields the elements front to back.
    pub fn into_iter(self) -> (r: StackArrayDequeIntoIter<T, N>)
        requires
            self.wf(),
        ensures
            r.wf(),
            r.remaining() == self@,
    {
        StackArrayDequeIntoIter { deque: self }
    }

    /// A deque holding the last `N` of `items` in order: each is pushed at the
    /// back, so earlier ones are evicted once it is full.
    pub fn from_iter(items: Vec<T>) -> (r: Self)
        requires
            N > 0,
        ensures
            r.wf(),
            r@ == pushed_back_all(Seq::<T>::empty(), N as nat, items@),
    {
        let mut r = Self::new();
        r.extend(items);
        r
    }

    /// A deque holding `items` in order, or an error when there are more than `N`.
    pub fn try_from_vec(items: Vec<T>) -> (r: Result<Self, CapacityExceeded>)
        requires
            N > 0,
        ensures
            items@.len() <= N ==> (r matches Ok(d) && d.wf() && d@ == items@),
            items@.len() > N ==> r == Err::<Self, CapacityExceeded>(
                CapacityExceeded { len: items@.len() as usize, capacity: N },
            ),
    {
        if items.len() > N {
            return Err(CapacityExceeded { len: items.len(), capacity: N });
        }
        let mut r = Self::new();
        proof {
            lemma_pushed_back_all_fits(r@, N as nat, items@);
            assert(r@ + items@ =~= items@);
        }
        r.extend(items);
        Ok(r)
    }
}

/// Iterates over references to the elements of an [`StackArrayDeque`], front to back.
pub struct StackArrayDequeIter<'a, T, const N: usize> {
    deque: &'a StackArrayDeque<T, N>,
    pos: usize,
}

impl<'a, T, const N: usize> StackArrayDequeIter<'a, T, N> {
    pub closed spec fn wf(&self) -> bool {
        self.deque.wf() && self.pos <= self.deque@.len()
    }

    /// The elements not yet yielded.
    pub closed spec fn remaining(&self) -> Seq<T> {
        self.deque@.subrange(self.pos as int, self.deque@.len() as int)
    }

    pub fn next(&mut self) -> (r: Option<&'a T>)
        requires
            old(self).wf(),
        ensures
            final(self).wf(),
            old(self).remaining().len() == 0 ==> r is None && final(self).remaining()
                == old(self).remaining(),
            old(self).remaining().len() > 0 ==> r == Some(&old(self).remaining()[0])
                && final(self).remaining() == old(self).remaining().drop_first(),
    {
        if self.pos < self.deque.len() {
            let r = self.deque.get(self.pos);
            self.pos = self.pos + 1;
            assert(self.remaining() =~= old(self).remaining().drop_first());
            Some(r)
        } else {
            None
        }
    }

    /// The exact number of elements left, as a lower and an upper bound.
    pub fn size_hint(&self) -> (r: (usize, Option<usize>))
        requires
            self.wf(),
        ensures
            r.0 == self.remaining().len(),
            r.1 == Some(r.0),
    {
        let n = self.deque.len() - self.pos;
        (n, Some(n))
    }
}

/// Moves the elements out of an [`StackArrayDeque`], front to back. Elements not
/// yet yielded are dropped with the iterator.
pub struct StackArrayDequeIntoIter<T, const N: usize> {
    deque: StackArrayDeque<T, N>,
}

impl<T, const N: usize> StackArrayDequeIntoIter<T, N> {
    pub closed spec fn wf(&self) -> bool {
        self.deque.wf()
    }

    /// The elements not yet yielded.
    pub closed spec fn remaining(&self) -> Seq<T> {
        self.deque@
    }

    pub fn next(&mut self) -> (r: Option<T>)
        requires
            old(self).wf(),
        ensures
            final(self).wf(),
            old(self).remaining().len() == 0 ==> r is None && final(self).remaining()
                == old(self).remaining(),
            old(self).remaining().len() > 0 ==> r == Some(old(self).remaining()[0])
                && final(self).remaining() == old(self).remaining().drop_first(),
    {
        self.deque.pop_front()
    }

    /// The exact number of elements left, as a lower and an upper bound.
    pub fn size_hint(&self) -> (r: (usize, Option<usize>))
        ensures
            r.0 == self.remaining().len(),
            r.1 == Some(r.0),
    {
        let n = self.deque.len();
        (n, Some(n))
    }
}

} // verus!
