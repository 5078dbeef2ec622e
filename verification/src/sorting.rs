//! Stable sorting by a strict weak order.

use vstd::prelude::*;
use crate::views::views;

verus! {

/// Items with an order on their views.
pub trait Ordered: View + Sized {
    /// Whether `a` comes strictly before `b`.
    spec fn precedes(a: Self::V, b: Self::V) -> bool;

    /// Tests whether this item comes strictly before `other`.
    fn comes_before(&self, other: &Self) -> (b: bool)
        ensures
            b == Self::precedes(self@, other@),
    ;

    /// No two items precede each other.
    proof fn lemma_asymmetric(a: Self::V, b: Self::V)
        requires
            Self::precedes(a, b),
        ensures
            !Self::precedes(b, a),
    ;

    /// Not to precede is transitive.
    proof fn lemma_negatively_transitive(a: Self::V, b: Self::V, c: Self::V)
        requires
            !Self::precedes(b, a),
            !Self::precedes(c, b),
        ensures
            !Self::precedes(c, a),
    ;
}

/// `s` with `x` put behind every item that `x` does not precede.
pub open spec fn inserted<T: Ordered>(s: Seq<T::V>, x: T::V) -> Seq<T::V>
    decreases s.len(),
{
    if s.len() > 0 && T::precedes(x, s.last()) {
        inserted::<T>(s.drop_last(), x).push(s.last())
    } else {
        s.push(x)
    }
}

/// The items of `s` in order; items of which neither precedes the other keep their order in `s`.
pub open spec fn stably_sorted<T: Ordered>(s: Seq<T::V>) -> Seq<T::V>
    decreases s.len(),
{
    if s.len() == 0 {
        s
    } else {
        inserted::<T>(stably_sorted::<T>(s.drop_last()), s.last())
    }
}

/// Whether no item of `s` precedes an earlier one.
pub open spec fn is_sorted<T: Ordered>(s: Seq<T::V>) -> bool {
    forall|i: int, j: int| 0 <= i <= j < s.len() ==> !#[trigger] T::precedes(s[j], s[i])
}

/// `inserted` splits `s` at one place.
proof fn lemma_inserted_at<T: Ordered>(s: Seq<T::V>, x: T::V, p: int)
    requires
        0 <= p <= s.len(),
        forall|i: int| p <= i < s.len() ==> T::precedes(x, #[trigger] s[i]),
        p > 0 ==> !T::precedes(x, s[p - 1]),
    ensures
        inserted::<T>(s, x) == s.insert(p, x),
    decreases s.len(),
{
    if p < s.len() {
        assert(T::precedes(x, s[s.len() - 1]));
        lemma_inserted_at::<T>(s.drop_last(), x, p);
        assert(s.drop_last().insert(p, x).push(s.last()) =~= s.insert(p, x));
    } else {
        assert(s.push(x) =~= s.insert(p, x));
    }
}

proof fn lemma_inserted_len<T: Ordered>(s: Seq<T::V>, x: T::V)
    ensures
        inserted::<T>(s, x).len() == s.len() + 1,
    decreases s.len(),
{
    if s.len() > 0 && T::precedes(x, s.last()) {
        lemma_inserted_len::<T>(s.drop_last(), x);
    }
}

/// Sorts `v` stably.
pub fn stable_sort<T: Ordered>(v: Vec<T>) -> (r: Vec<T>)
    ensures
        views(r@) == stably_sorted::<T>(views(v@)),
{
    let ghost all = views(v@);
    let mut pending = v;
    let mut r: Vec<T> = Vec::new();
    let mut reversed: Vec<T> = Vec::new();
    while pending.len() > 0
        invariant
            views(pending@) == all.take(pending@.len() as int),
            pending@.len() + reversed@.len() == all.len(),
            forall|k: int|
                0 <= k < reversed@.len() ==> (#[trigger] reversed@[k])@ == all[all.len() - 1 - k],
        decreases pending@.len(),
    {
        let ghost before = pending@;
        let x = pending.pop().unwrap();
        proof {
            assert(views(pending@) =~= all.take(pending@.len() as int)) by {
                assert(forall|k: int|
                    0 <= k < pending@.len() ==> views(before)[k] == #[trigger] before[k]@);
            }
            assert(x@ == views(before)[before.len() - 1]);
        }
        reversed.push(x);
    }
    proof {
        assert(views(r@) =~= stably_sorted::<T>(all.take(0)));
    }
    while reversed.len() > 0
        invariant
            r@.len() + reversed@.len() == all.len(),
            forall|k: int|
                0 <= k < reversed@.len() ==> (#[trigger] reversed@[k])@ == all[all.len() - 1 - k],
            views(r@) == stably_sorted::<T>(all.take(r@.len() as int)),
        decreases reversed@.len(),
    {
        let ghost done = r@.len() as int;
        let x = reversed.pop().unwrap();
        proof {
            assert(x@ == all[done]);
            assert(all.take(done + 1).drop_last() =~= all.take(done));
        }
        let ghost sorted = views(r@);
        let mut p: usize = r.len();
        while p > 0 && x.comes_before(&r[p - 1])
            invariant
                p <= r@.len(),
                sorted == views(r@),
                forall|i: int| p <= i < r@.len() ==> T::precedes(x@, #[trigger] sorted[i]),
            decreases p,
        {
            p -= 1;
        }
        proof {
            lemma_inserted_at::<T>(sorted, x@, p as int);
            lemma_inserted_len::<T>(sorted, x@);
        }
        let ghost before = r@;
        r.insert(p, x);
        proof {
            assert(views(r@) =~= sorted.insert(p as int, x@));
        }
    }
    proof {
        assert(all.take(r@.len() as int) =~= all);
    }
    r
}

proof fn lemma_inserted_sorted<T: Ordered>(s: Seq<T::V>, x: T::V)
    requires
        is_sorted::<T>(s),
    ensures
        is_sorted::<T>(inserted::<T>(s, x)),
        inserted::<T>(s, x).to_multiset() == s.to_multiset().insert(x),
    decreases s.len(),
{
    broadcast use vstd::seq_lib::group_to_multiset_ensures;

    let r = inserted::<T>(s, x);
    if s.len() > 0 && T::precedes(x, s.last()) {
        let init = s.drop_last();
        assert(is_sorted::<T>(init)) by {
            assert forall|i: int, j: int| 0 <= i <= j < init.len() implies !#[trigger] T::precedes(
                init[j],
                init[i],
            ) by {
                assert(!T::precedes(s[j], s[i]));
            }
        }
        lemma_inserted_sorted::<T>(init, x);
        let q = inserted::<T>(init, x);
        assert(s =~= init.push(s.last()));
        T::lemma_asymmetric(x, s.last());
        assert forall|i: int, j: int| 0 <= i <= j < r.len() implies !#[trigger] T::precedes(
            r[j],
            r[i],
        ) by {
            if j < q.len() {
                assert(!T::precedes(q[j], q[i]));
            } else if i == j {
                if T::precedes(s.last(), s.last()) {
                    T::lemma_asymmetric(s.last(), s.last());
                }
            } else {
                assert(q.to_multiset().count(q[i]) > 0);
                assert(q.contains(q[i]));
                if q[i] != x {
                    assert(init.to_multiset().count(q[i]) > 0);
                    assert(init.contains(q[i]));
                    let k = choose|k: int| 0 <= k < init.len() && init[k] == q[i];
                    assert(!T::precedes(s[s.len() - 1], s[k]));
                }
            }
        }
        assert(r.to_multiset() =~= s.to_multiset().insert(x));
    } else {
        assert forall|i: int, j: int| 0 <= i <= j < r.len() implies !#[trigger] T::precedes(
            r[j],
            r[i],
        ) by {
            if j < s.len() {
                assert(!T::precedes(s[j], s[i]));
            } else if i == j {
                if T::precedes(x, x) {
                    T::lemma_asymmetric(x, x);
                }
            } else {
                assert(!T::precedes(s[s.len() - 1], s[i]));
                T::lemma_negatively_transitive(s[i], s.last(), x);
            }
        }
    }
}

/// Sorting orders the items and neither loses nor adds one.
pub proof fn lemma_sorted_permutation<T: Ordered>(s: Seq<T::V>)
    ensures
        is_sorted::<T>(stably_sorted::<T>(s)),
        stably_sorted::<T>(s).to_multiset() == s.to_multiset(),
        stably_sorted::<T>(s).len() == s.len(),
    decreases s.len(),
{
    broadcast use vstd::seq_lib::group_to_multiset_ensures;

    if s.len() > 0 {
        lemma_sorted_permutation::<T>(s.drop_last());
        lemma_inserted_sorted::<T>(stably_sorted::<T>(s.drop_last()), s.last());
        lemma_inserted_len::<T>(stably_sorted::<T>(s.drop_last()), s.last());
        assert(s =~= s.drop_last().push(s.last()));
    }
}

/// A sequence that is in order stays as it is.
pub proof fn lemma_sorted_fixed<T: Ordered>(s: Seq<T::V>)
    requires
        is_sorted::<T>(s),
    ensures
        stably_sorted::<T>(s) == s,
    decreases s.len(),
{
    if s.len() > 0 {
        let init = s.drop_last();
        assert forall|i: int, j: int| 0 <= i <= j < init.len() implies !#[trigger] T::precedes(
            init[j],
            init[i],
        ) by {
            assert(!T::precedes(s[j], s[i]));
        }
        lemma_sorted_fixed::<T>(init);
        if init.len() > 0 {
            assert(!T::precedes(s[s.len() - 1], s[s.len() - 2]));
        }
        assert(init.push(s.last()) =~= s);
    }
}

} // verus!
