//! The logical model of a fixed-capacity deque: a sequence of at most
//! `cap` elements, front first.
use vstd::prelude::*;
use vstd::std_specs::cmp::PartialEqSpec;

verus! {

/// The contents after pushing `v` at the back: when already full, the front
/// element is evicted.
pub open spec fn pushed_back<T>(s: Seq<T>, cap: nat, v: T) -> Seq<T> {
    if s.len() < cap {
        s.push(v)
    } else {
        s.drop_first().push(v)
    }
}

/// The contents after pushing `v` at the front: when already full, the back
/// element is evicted.
pub open spec fn pushed_front<T>(s: Seq<T>, cap: nat, v: T) -> Seq<T> {
    if s.len() < cap {
        seq![v] + s
    } else {
        seq![v] + s.drop_last()
    }
}

/// The contents after pushing each of `vs` at the back, in order.
pub open spec fn pushed_back_all<T>(s: Seq<T>, cap: nat, vs: Seq<T>) -> Seq<T>
    decreases vs.len(),
{
    if vs.len() == 0 {
        s
    } else {
        pushed_back(pushed_back_all(s, cap, vs.drop_last()), cap, vs.last())
    }
}

/// The contents after pushing each of `vs` at the front, in order.
pub open spec fn pushed_front_all<T>(s: Seq<T>, cap: nat, vs: Seq<T>) -> Seq<T>
    decreases vs.len(),
{
    if vs.len() == 0 {
        s
    } else {
        pushed_front(pushed_front_all(s, cap, vs.drop_last()), cap, vs.last())
    }
}

/// The end of a deque that a push goes to.
pub enum End {
    Front,
    Back,
}

/// The contents after pushing `v` at `end`.
pub open spec fn pushed_at<T>(s: Seq<T>, cap: nat, end: End, v: T) -> Seq<T> {
    match end {
        End::Front => pushed_front(s, cap, v),
        End::Back => pushed_back(s, cap, v),
    }
}

/// The contents after each push of `ops`, in order.
pub open spec fn pushed_seq<T>(s: Seq<T>, cap: nat, ops: Seq<(End, T)>) -> Seq<T>
    decreases ops.len(),
{
    if ops.len() == 0 {
        s
    } else {
        pushed_at(pushed_seq(s, cap, ops.drop_last()), cap, ops.last().0, ops.last().1)
    }
}

/// `s` with each value of `ops` placed in order at its end, with no bound on
/// the length: front pushes prepend, back pushes append.
pub open spec fn placed<T>(s: Seq<T>, ops: Seq<(End, T)>) -> Seq<T>
    decreases ops.len(),
{
    if ops.len() == 0 {
        s
    } else {
        let t = placed(s, ops.drop_last());
        match ops.last().0 {
            End::Front => seq![ops.last().1] + t,
            End::Back => t.push(ops.last().1),
        }
    }
}

/// The contents after, for each of `vs` in order, a pop at the front and a push
/// of that value at the back.
pub open spec fn slid<T>(s: Seq<T>, cap: nat, vs: Seq<T>) -> Seq<T>
    decreases vs.len(),
{
    if vs.len() == 0 {
        s
    } else {
        pushed_back(slid(s, cap, vs.drop_last()).drop_first(), cap, vs.last())
    }
}

/// Where the last `cap` of `n` values begin.
pub open spec fn window_start(n: nat, cap: nat) -> int {
    if n > cap {
        n - cap
    } else {
        0
    }
}

/// Whether `a` and `b` have the same length and pairwise equal elements, by the
/// elements' own `==`.
pub open spec fn same_elements<T: PartialEq>(a: Seq<T>, b: Seq<T>) -> bool {
    &&& a.len() == b.len()
    &&& forall|i: int| 0 <= i < a.len() ==> (#[trigger] a[i]).eq_spec(&b[i])
}

/// Pushing at the back while there is room appends: with `s.len() + vs.len() <= cap`,
/// pushing each of `vs` at the back of `s` gives `s + vs`.
pub proof fn lemma_pushed_back_all_fits<T>(s: Seq<T>, cap: nat, vs: Seq<T>)
    requires
        s.len() + vs.len() <= cap,
    ensures
        pushed_back_all(s, cap, vs) == s + vs,
    decreases vs.len(),
{
    if vs.len() > 0 {
        lemma_pushed_back_all_fits(s, cap, vs.drop_last());
        assert(s + vs =~= (s + vs.drop_last()).push(vs.last()));
    } else {
        assert(s + vs =~= s);
    }
}

} // verus!
