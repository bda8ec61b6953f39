//! The circular-buffer algorithm shared by both deques.
//!
//! A ring of `cap` physical slots keeps its `len` live elements at the slots
//! `(front + i) % cap` for logical positions `0 <= i < len`; every other slot is
//! vacant. The storage is anything that implements [`SlotStore`].
use vstd::prelude::*;
use vstd::arithmetic::div_mod::{lemma_mod_add_multiples_vanish, lemma_small_mod};
use vstd::std_specs::cmp::PartialEqSpec;

use crate::model::{pushed_back, pushed_back_all, pushed_front, same_elements};

verus! {

/// The physical slot of logical position `i` in a ring of `cap` slots whose
/// front element sits at slot `front`.
pub open spec fn slot_of(front: int, i: int, cap: int) -> int {
    (front + i) % cap
}

/// `slot_of` written without `%`, valid for `0 <= front < cap` and `0 <= i <= cap`.
pub open spec fn wrap(front: int, i: int, cap: int) -> int {
    if front + i < cap {
        front + i
    } else {
        front + i - cap
    }
}

/// The logical position of physical slot `p`: the inverse of `wrap`.
pub open spec fn offset_of(front: int, p: int, cap: int) -> int {
    if p >= front {
        p - front
    } else {
        p + cap - front
    }
}

pub proof fn lemma_wrap_is_slot_of(front: int, i: int, cap: int)
    requires
        0 <= front < cap,
        0 <= i <= cap,
    ensures
        wrap(front, i, cap) == slot_of(front, i, cap),
{
    if front + i < cap {
        lemma_small_mod((front + i) as nat, cap as nat);
    } else {
        lemma_mod_add_multiples_vanish(front + i - cap, cap);
        lemma_small_mod((front + i - cap) as nat, cap as nat);
    }
}

/// Computes `(front + i) % cap` without overflow.
pub fn slot_index(front: usize, i: usize, cap: usize) -> (p: usize)
    requires
        front < cap,
        i <= cap,
    ensures
        p as int == slot_of(front as int, i as int, cap as int),
        p as int == wrap(front as int, i as int, cap as int),
        p < cap,
{
    proof {
        lemma_wrap_is_slot_of(front as int, i as int, cap as int);
    }
    if i < cap - front {
        front + i
    } else {
        i - (cap - front)
    }
}

/// Storage of a fixed number of slots, each vacant (`None`) or holding one value.
pub trait SlotStore: Sized {
    type Item;

    spec fn slots(&self) -> Seq<Option<Self::Item>>;

    fn slot_count(&self) -> (n: usize)
        ensures
            n as int == self.slots().len(),
    ;

    /// Puts `v` into slot `i` and hands back what the slot held before.
    fn swap_slot(&mut self, i: usize, v: Option<Self::Item>) -> (prev: Option<Self::Item>)
        requires
            i < old(self).slots().len(),
        ensures
            prev == old(self).slots()[i as int],
            final(self).slots() == old(self).slots().update(i as int, v),
    ;

    fn slot(&self, i: usize) -> (r: &Option<Self::Item>)
        requires
            i < self.slots().len(),
        ensures
            *r == self.slots()[i as int],
    ;

    fn slot_mut(&mut self, i: usize) -> (r: &mut Option<Self::Item>)
        requires
            i < old(self).slots().len(),
        ensures
            *r == old(self).slots()[i as int],
            final(self).slots() == old(self).slots().update(i as int, *final(r)),
    ;
}

impl<T> SlotStore for Vec<Option<T>> {
    type Item = T;

    open spec fn slots(&self) -> Seq<Option<T>> {
        self@
    }

    fn slot_count(&self) -> (n: usize) {
        self.len()
    }

    fn swap_slot(&mut self, i: usize, v: Option<T>) -> (prev: Option<T>) {
        let mut v = v;
        std::mem::swap(&mut self[i], &mut v);
        v
    }

    fn slot(&self, i: usize) -> (r: &Option<T>) {
        &self[i]
    }

    fn slot_mut(&mut self, i: usize) -> (r: &mut Option<T>) {
        &mut self[i]
    }
}

impl<T, const N: usize> SlotStore for [Option<T>; N] {
    type Item = T;

    open spec fn slots(&self) -> Seq<Option<T>> {
        self@
    }

    fn slot_count(&self) -> (n: usize) {
        N
    }

    fn swap_slot(&mut self, i: usize, v: Option<T>) -> (prev: Option<T>) {
        let mut v = v;
        std::mem::swap(&mut self[i], &mut v);
        v
    }

    fn slot(&self, i: usize) -> (r: &Option<T>) {
        &self[i]
    }

    fn slot_mut(&mut self, i: usize) -> (r: &mut Option<T>) {
        &mut self[i]
    }
}

/// A ring of live elements over a slot store.
pub struct Ring<S: SlotStore> {
    slots: S,
    len: usize,
    front: usize,
}

impl<S: SlotStore> View for Ring<S> {
    type V = Seq<S::Item>;

    closed spec fn view(&self) -> Seq<S::Item> {
        Seq::new(
            self.len as nat,
            |i: int| self.slots.slots()[wrap(self.front as int, i, self.cap() as int)]->0,
        )
    }
}

impl<S: SlotStore> Ring<S> {
    /// The number of physical slots.
    pub closed spec fn cap(&self) -> nat {
        self.slots.slots().len()
    }

    /// Exactly the slots of logical positions `0..len` hold a value.
    pub closed spec fn wf(&self) -> bool {
        let cap = self.cap() as int;
        &&& 0 < cap
        &&& self.len <= cap
        &&& self.front < cap
        &&& forall|p: int|
            0 <= p < cap ==> (#[trigger] self.slots.slots()[p] is Some <==> offset_of(
                self.front as int,
                p,
                cap,
            ) < self.len)
    }

    pub fn new(slots: S) -> (r: Self)
        requires
            slots.slots().len() > 0,
            forall|p: int| 0 <= p < slots.slots().len() ==> #[trigger] slots.slots()[p] is None,
        ensures
            r.wf(),
            r@ == Seq::<S::Item>::empty(),
            r.cap() == slots.slots().len(),
    {
        let r = Ring { slots, len: 0, front: 0 };
        assert(r@ =~= Seq::<S::Item>::empty());
        r
    }

    pub fn capacity(&self) -> (n: usize)
        ensures
            n == self.cap(),
    {
        self.slots.slot_count()
    }

    pub fn len(&self) -> (n: usize)
        ensures
            n == self@.len(),
    {
        self.len
    }

    pub fn push_back(&mut self, v: S::Item)
        requires
            old(self).wf(),
        ensures
            final(self).wf(),
            final(self).cap() == old(self).cap(),
            final(self)@ == pushed_back(old(self)@, old(self).cap(), v),
    {
        let ghost s0 = self@;
        let ghost f0 = self.front as int;
        let cap = self.slots.slot_count();
        if self.len < cap {
            let p = slot_index(self.front, self.len, cap);
            let _vacant = self.slots.swap_slot(p, Some(v));
            self.len = self.len + 1;
            assert(self@ =~= s0.push(v));
        } else {
            // The slot behind the back is the front's: its value is dropped here.
            let p = self.front;
            let _evicted = self.slots.swap_slot(p, Some(v));
            self.front = slot_index(self.front, 1, cap);
            assert forall|i: int| 0 <= i < cap - 1 implies wrap(self.front as int, i, cap as int)
                == wrap(f0, i + 1, cap as int) by {}
            assert(self@ =~= s0.drop_first().push(v));
        }
    }

    pub fn push_front(&mut self, v: S::Item)
        requires
            old(self).wf(),
        ensures
            final(self).wf(),
            final(self).cap() == old(self).cap(),
            final(self)@ == pushed_front(old(self)@, old(self).cap(), v),
    {
        let ghost s0 = self@;
        let ghost f0 = self.front as int;
        let cap = self.slots.slot_count();
        // One slot before the front; when full, this is the back's slot, and its
        // value is dropped here.
        let p = slot_index(self.front, cap - 1, cap);
        let _evicted = self.slots.swap_slot(p, Some(v));
        self.front = p;
        if self.len < cap {
            self.len = self.len + 1;
            assert forall|i: int| 1 <= i < self.len implies wrap(self.front as int, i, cap as int)
                == wrap(f0, i - 1, cap as int) by {}
            assert(self@ =~= seq![v] + s0);
        } else {
            assert forall|i: int| 1 <= i < cap implies wrap(self.front as int, i, cap as int)
                == wrap(f0, i - 1, cap as int) by {}
            assert(self@ =~= seq![v] + s0.drop_last());
        }
    }

    pub fn pop_back(&mut self) -> (r: Option<S::Item>)
        requires
            old(self).wf(),
        ensures
            final(self).wf(),
            final(self).cap() == old(self).cap(),
            old(self)@.len() == 0 ==> r is None && *final(self) == *old(self),
            old(self)@.len() > 0 ==> r == Some(old(self)@.last()) && final(self)@ == old(
                self,
            )@.drop_last(),
    {
        if self.len == 0 {
            return None;
        }
        let ghost s0 = self@;
        let cap = self.slots.slot_count();
        let p = slot_index(self.front, self.len - 1, cap);
        let r = self.slots.swap_slot(p, None);
        self.len = self.len - 1;
        assert(self@ =~= s0.drop_last());
        r
    }

    pub fn pop_front(&mut self) -> (r: Option<S::Item>)
        requires
            old(self).wf(),
        ensures
            final(self).wf(),
            final(self).cap() == old(self).cap(),
            old(self)@.len() == 0 ==> r is None && *final(self) == *old(self),
            old(self)@.len() > 0 ==> r == Some(old(self)@[0]) && final(self)@ == old(
                self,
            )@.drop_first(),
    {
        if self.len == 0 {
            return None;
        }
        let ghost s0 = self@;
        let ghost f0 = self.front as int;
        let cap = self.slots.slot_count();
        let p = self.front;
        let r = self.slots.swap_slot(p, None);
        self.front = slot_index(self.front, 1, cap);
        self.len = self.len - 1;
        assert forall|i: int| 0 <= i < self.len implies wrap(self.front as int, i, cap as int)
            == wrap(f0, i + 1, cap as int) by {}
        assert(self@ =~= s0.drop_first());
        r
    }

    pub fn get(&self, i: usize) -> (r: &S::Item)
        requires
            self.wf(),
            i < self@.len(),
        ensures
            *r == self@[i as int],
    {
        let cap = self.slots.slot_count();
        let p = slot_index(self.front, i, cap);
        self.slots.slot(p).as_ref().unwrap()
    }

    pub fn get_mut(&mut self, i: usize) -> (r: &mut S::Item)
        requires
            old(self).wf(),
            i < old(self)@.len(),
        ensures
            *r == old(self)@[i as int],
            final(self).wf(),
            final(self).cap() == old(self).cap(),
            final(self)@ == old(self)@.update(i as int, *final(r)),
    {
        let ghost s0 = self@;
        let cap = self.slots.slot_count();
        let p = slot_index(self.front, i, cap);
        let r = self.slots.slot_mut(p).as_mut().unwrap();
        proof {
            assert(after_borrow(*self)@ =~= s0.update(i as int, *final(r)));
        }
        r
    }

    pub fn front(&self) -> (r: Option<&S::Item>)
        requires
            self.wf(),
        ensures
            r == (if self@.len() == 0 { None } else { Some(&self@[0]) }),
    {
        if self.len == 0 {
            None
        } else {
            Some(self.get(0))
        }
    }

    pub fn back(&self) -> (r: Option<&S::Item>)
        requires
            self.wf(),
        ensures
            r == (if self@.len() == 0 { None } else { Some(&self@.last()) }),
    {
        if self.len == 0 {
            None
        } else {
            Some(self.get(self.len - 1))
        }
    }

    /// Drops every element, front to back, and resets the front to slot 0.
    pub fn clear(&mut self)
        requires
            old(self).wf(),
        ensures
            final(self).wf(),
            final(self).cap() == old(self).cap(),
            final(self)@ == Seq::<S::Item>::empty(),
    {
        while self.len > 0
            invariant
                self.wf(),
                self.cap() == old(self).cap(),
                self@.len() == self.len,
            decreases self@.len(),
        {
            let _dropped = self.pop_front();
        }
        self.front = 0;
        assert(self@ =~= Seq::<S::Item>::empty());
    }
    /// Pushes each of `items` at the back, in order.
    pub fn extend(&mut self, items: Vec<S::Item>)
        requires
            old(self).wf(),
        ensures
            final(self).wf(),
            final(self).cap() == old(self).cap(),
            final(self)@ == pushed_back_all(old(self)@, old(self).cap(), items@),
    {
        let ghost s0 = self@;
        let ghost all = items@;
        for x in it: items
            invariant
                self.wf(),
                self.cap() == old(self).cap(),
                it.seq() == all,
                self@ == pushed_back_all(s0, self.cap(), all.take(it.index() as int)),
        {
            proof {
                assert(all.take(it.index() + 1).drop_last() =~= all.take(it.index() as int));
            }
            self.push_back(x);
        }
        assert(all.take(all.len() as int) =~= all);
    }

    /// Fills `target`, an empty ring of the same capacity, with clones of this
    /// ring's elements.
    pub fn clone_into(&self, target: Self) -> (r: Self) where S::Item: Clone
        requires
            self.wf(),
            target.wf(),
            target@.len() == 0,
            target.cap() == self.cap(),
        ensures
            r.wf(),
            r.cap() == self.cap(),
            r@.len() == self@.len(),
            forall|i: int| 0 <= i < self@.len() ==> cloned::<S::Item>(self@[i], #[trigger] r@[i]),
    {
        let mut r = target;
        let mut i: usize = 0;
        while i < self.len
            invariant
                self.wf(),
                r.wf(),
                r.cap() == self.cap(),
                i <= self@.len(),
                self@.len() == self.len,
                r@.len() == i,
                forall|j: int| 0 <= j < i ==> cloned::<S::Item>(self@[j], #[trigger] r@[j]),
            decreases self.len - i,
        {
            let x = self.get(i).clone();
            r.push_back(x);
            i = i + 1;
        }
        r
    }

    /// Compares the elements in logical order, stopping at the first unequal pair.
    pub fn eq_elements(&self, other: &Self) -> (r: bool) where S::Item: PartialEq
        requires
            self.wf(),
            other.wf(),
        ensures
            <S::Item as PartialEqSpec>::obeys_eq_spec() ==> (r == same_elements(self@, other@)),
    {
        if self.len != other.len {
            return false;
        }
        let mut i: usize = 0;
        while i < self.len
            invariant
                self.wf(),
                other.wf(),
                self@.len() == self.len,
                other@.len() == self.len,
                i <= self.len,
                <S::Item as PartialEqSpec>::obeys_eq_spec() ==> forall|j: int|
                    0 <= j < i ==> (#[trigger] self@[j]).eq_spec(&other@[j]),
            decreases self.len - i,
        {
            if !self.get(i).eq(other.get(i)) {
                return false;
            }
            i = i + 1;
        }
        true
    }

    pub proof fn lemma_len_le_cap(&self)
        requires
            self.wf(),
        ensures
            self@.len() <= self.cap(),
            0 < self.cap(),
    {
    }
}

} // verus!
