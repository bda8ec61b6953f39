//! Properties of the deque model that hold over sequences of operations.
//!
//! Both deques state their operations through the functions of
//! [`crate::model`], so each law here holds of both.
use vstd::prelude::*;

use crate::model::{
    placed, pushed_back, pushed_back_all, pushed_front, pushed_front_all, pushed_seq, slid,
    window_start, End,
};

verus! {

/// A push at either end keeps the contents within the capacity, and a full
/// deque stays full.
pub proof fn law_capacity_bound<T>(s: Seq<T>, cap: nat, v: T)
    requires
        0 < cap,
        s.len() <= cap,
    ensures
        pushed_back(s, cap, v).len() <= cap,
        pushed_front(s, cap, v).len() <= cap,
        s.len() == cap ==> pushed_back(s, cap, v).len() == cap && pushed_front(s, cap, v).len()
            == cap,
{
}

/// Pushing values at the back of an empty deque leaves the last `cap` of them,
/// in push order: the earlier ones were evicted from the front.
pub proof fn law_back_keeps_last<T>(cap: nat, vs: Seq<T>)
    requires
        0 < cap,
    ensures
        pushed_back_all(Seq::<T>::empty(), cap, vs) == vs.subrange(
            window_start(vs.len(), cap),
            vs.len() as int,
        ),
    decreases vs.len(),
{
    let e = Seq::<T>::empty();
    if vs.len() == 0 {
        assert(vs.subrange(0, 0) =~= e);
    } else {
        let n = vs.len() as int;
        let d = vs.drop_last();
        law_back_keeps_last(cap, d);
        let w = d.subrange(window_start(d.len(), cap), n - 1);
        if w.len() < cap {
            assert(w.push(vs.last()) =~= vs.subrange(window_start(vs.len(), cap), n));
        } else {
            assert(w.drop_first().push(vs.last()) =~= vs.subrange(
                window_start(vs.len(), cap),
                n,
            ));
        }
    }
}

/// Pushing `cap + 1` values at the back of an empty deque of capacity `cap`
/// leaves all but the first, in push order.
pub proof fn law_back_overwrite<T>(cap: nat, vs: Seq<T>)
    requires
        0 < cap,
        vs.len() == cap + 1,
    ensures
        pushed_back_all(Seq::<T>::empty(), cap, vs) == vs.drop_first(),
{
    law_back_keeps_last(cap, vs);
    assert(vs.subrange(1, vs.len() as int) =~= vs.drop_first());
}

/// Pushing values at the front of an empty deque leaves the last `cap` of them,
/// the latest first: the earlier ones were evicted from the back.
pub proof fn law_front_keeps_last<T>(cap: nat, vs: Seq<T>)
    requires
        0 < cap,
    ensures
        pushed_front_all(Seq::<T>::empty(), cap, vs) == vs.subrange(
            window_start(vs.len(), cap),
            vs.len() as int,
        ).reverse(),
    decreases vs.len(),
{
    let e = Seq::<T>::empty();
    if vs.len() == 0 {
        assert(vs.subrange(0, 0).reverse() =~= e);
    } else {
        let n = vs.len() as int;
        let d = vs.drop_last();
        law_front_keeps_last(cap, d);
        let w = d.subrange(window_start(d.len(), cap), n - 1);
        let target = vs.subrange(window_start(vs.len(), cap), n);
        if w.len() < cap {
            assert(seq![vs.last()] + w.reverse() =~= target.reverse());
        } else {
            assert(seq![vs.last()] + w.reverse().drop_last() =~= target.reverse());
        }
    }
}

/// Pushing `cap + 1` values at the front of an empty deque of capacity `cap`
/// leaves all but the first, the latest first.
pub proof fn law_front_overwrite<T>(cap: nat, vs: Seq<T>)
    requires
        0 < cap,
        vs.len() == cap + 1,
    ensures
        pushed_front_all(Seq::<T>::empty(), cap, vs) == vs.drop_first().reverse(),
{
    law_front_keeps_last(cap, vs);
    assert(vs.subrange(1, vs.len() as int) =~= vs.drop_first());
}

/// While the pushes do not exceed the capacity, nothing is evicted: front
/// pushes prepend and back pushes append, so reading positions `0..len` gives
/// the values in the order the pushes placed them.
pub proof fn law_round_trip<T>(s: Seq<T>, cap: nat, ops: Seq<(End, T)>)
    requires
        s.len() + ops.len() <= cap,
    ensures
        pushed_seq(s, cap, ops) == placed(s, ops),
        placed(s, ops).len() == s.len() + ops.len(),
    decreases ops.len(),
{
    if ops.len() > 0 {
        law_round_trip(s, cap, ops.drop_last());
    }
}

/// On a full deque, a pop at the front followed by a push at the back keeps it
/// full and slides the window by one; so does a pop at the back followed by a
/// push at the front, the other way.
pub proof fn law_slide_once<T>(s: Seq<T>, cap: nat, v: T)
    requires
        0 < cap,
        s.len() == cap,
    ensures
        pushed_back(s.drop_first(), cap, v) == s.drop_first().push(v),
        pushed_back(s.drop_first(), cap, v).len() == cap,
        pushed_front(s.drop_last(), cap, v) == seq![v] + s.drop_last(),
        pushed_front(s.drop_last(), cap, v).len() == cap,
{
}

/// Any number of front pops, each followed by a back push, keep a full deque
/// full, holding the last `cap` values of the contents followed by the pushed values.
pub proof fn law_slide<T>(s: Seq<T>, cap: nat, vs: Seq<T>)
    requires
        0 < cap,
        s.len() == cap,
    ensures
        slid(s, cap, vs) == (s + vs).subrange(vs.len() as int, (vs.len() + cap) as int),
    decreases vs.len(),
{
    if vs.len() == 0 {
        assert((s + vs).subrange(0, cap as int) =~= s);
    } else {
        let d = vs.drop_last();
        law_slide(s, cap, d);
        let w = slid(s, cap, d);
        assert(w.drop_first().push(vs.last()) =~= (s + vs).subrange(
            vs.len() as int,
            (vs.len() + cap) as int,
        ));
    }
}

} // verus!
