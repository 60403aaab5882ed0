//! Re-sorting an interval set, by `start` or by an ordering of the
//! caller's.

use std::cmp::Ordering;
use vstd::prelude::*;
use vstd::seq_lib::{to_multiset_insert, to_multiset_remove};
use crate::intervals::{Interval, IntervalView, SortedIntervals};
use crate::scalar::Scalar;

verus! {

/// The predicate "starts at `v`".
pub open spec fn starts_at(v: int) -> spec_fn(IntervalView) -> bool {
    |x: IntervalView| x.start == v
}

/// The `start`s of `s` never go down from one position to the next.
pub open spec fn is_sorted_by_start(s: Seq<IntervalView>) -> bool {
    forall|i: int, j: int| 0 <= i < j < s.len() ==> (#[trigger] s[i]).start <= (#[trigger] s[j]).start
}

/// `t` is `s` sorted by `start`, with the intervals that share a `start`
/// left in the order they had in `s`.
pub open spec fn is_stable_sort_by_start(s: Seq<IntervalView>, t: Seq<IntervalView>) -> bool {
    &&& is_sorted_by_start(t)
    &&& t.len() == s.len()
    &&& forall|v: int| #[trigger] t.filter(starts_at(v)) == s.filter(starts_at(v))
}

/// A call of the ordering `f` on `a` and `b`, in this order, can answer
/// other than `Greater`.
pub open spec fn is_not_above<T: Scalar, F: Fn(&Interval<T>, &Interval<T>) -> Ordering>(
    f: F,
    a: Interval<T>,
    b: Interval<T>,
) -> bool {
    exists|o: Ordering| f.ensures((&a, &b), o) && o != Ordering::Greater
}

/// The ordering `f` has put `a` before `b`: called on them in this order
/// it can answer other than `Greater`, or called in the other order it
/// can answer `Greater`.
pub open spec fn is_placed_by<T: Scalar, F: Fn(&Interval<T>, &Interval<T>) -> Ordering>(
    f: F,
    a: Interval<T>,
    b: Interval<T>,
) -> bool {
    is_not_above(f, a, b) || f.ensures((&b, &a), Ordering::Greater)
}

/// Every interval of `t` has been put before the next one by `f`.
pub open spec fn is_arranged_by<T: Scalar, F: Fn(&Interval<T>, &Interval<T>) -> Ordering>(
    f: F,
    t: Seq<Interval<T>>,
) -> bool {
    forall|k: int| 0 <= k && k + 1 < t.len() ==> is_placed_by(f, #[trigger] t[k], t[k + 1])
}

/// Filtering a sequence in which nothing meets the predicate leaves
/// nothing.
proof fn filter_keeps_none<A>(s: Seq<A>, pred: spec_fn(A) -> bool)
    requires
        forall|i: int| 0 <= i < s.len() ==> !pred(#[trigger] s[i]),
    ensures
        s.filter(pred) == Seq::<A>::empty(),
    decreases s.len(),
{
    reveal(Seq::filter);
    if s.len() > 0 {
        assert forall|i: int| 0 <= i < s.drop_last().len() implies !pred(#[trigger] s.drop_last()[i]) by {
            assert(s.drop_last()[i] == s[i]);
        }
        filter_keeps_none(s.drop_last(), pred);
    } else {
        assert(s =~= Seq::<A>::empty());
    }
}

/// Filtering a sequence of one keeps it or leaves nothing.
proof fn filter_of_one<A>(x: A, pred: spec_fn(A) -> bool)
    ensures
        seq![x].filter(pred) == if pred(x) {
            seq![x]
        } else {
            Seq::<A>::empty()
        },
{
    reveal(Seq::filter);
    let s = seq![x];
    assert(s.drop_last() =~= Seq::<A>::empty());
    assert(s.drop_last().filter(pred) =~= Seq::<A>::empty());
    assert(Seq::<A>::empty().push(x) =~= s);
}

impl<T: Scalar> SortedIntervals<T> {
    /// Sorts the intervals by `start`, keeping the order of those that
    /// share one.
    fn sort_by_start(&mut self)
        ensures
            final(self).column == old(self).column,
            is_stable_sort_by_start(old(self)@, final(self)@),
            final(self).intervals@.to_multiset() == old(self).intervals@.to_multiset(),
    {
        let n = self.intervals.len();
        let mut i: usize = 0;
        proof {
            assert(self@.take(0) =~= Seq::<IntervalView>::empty());
            assert forall|v: int| #[trigger]
                self@.take(0).filter(starts_at(v)) == old(self)@.take(0).filter(starts_at(v)) by {}
        }
        while i < n
            invariant
                0 <= i <= n,
                n == self.intervals.len(),
                n == old(self)@.len(),
                self.column == old(self).column,
                is_sorted_by_start(self@.take(i as int)),
                self@.skip(i as int) == old(self)@.skip(i as int),
                self.intervals@.to_multiset() == old(self).intervals@.to_multiset(),
                forall|v: int| #[trigger]
                    self@.take(i as int).filter(starts_at(v)) == old(self)@.take(i as int).filter(
                        starts_at(v),
                    ),
            decreases n - i,
        {
            let ghost stored = self.intervals@;
            let ghost before = self@;
            let ghost t = before.take(i as int);
            let x = self.intervals.remove(i);
            assert(x@ == before[i as int]);
            assert(x@ == old(self)@[i as int]) by {
                assert(before.skip(i as int)[0] == old(self)@.skip(i as int)[0]);
            }
            assert(self@ =~= before.remove(i as int));
            let mut p: usize = 0;
            while p < i && self.intervals[p].start.le(&x.start)
                invariant
                    0 <= p <= i < n,
                    self.intervals.len() == n - 1,
                    before.len() == n,
                    self@ == before.remove(i as int),
                    forall|j: int| 0 <= j < p ==> (#[trigger] self@[j]).start <= x@.start,
                decreases i - p,
            {
                p += 1;
            }
            self.intervals.insert(p, x);
            proof {
                let s1 = before.remove(i as int);
                let s2 = self@;
                let xv = x@;
                assert(s2 =~= s1.insert(p as int, xv));
                to_multiset_remove(stored, i as int);
                to_multiset_insert(stored.remove(i as int), p as int, x);
                stored.to_multiset_ensures();
                assert(stored.contains(x));
                assert(self.intervals@.to_multiset() =~= stored.to_multiset());
                let t2 = s2.take(i + 1);
                assert(t2 =~= t.insert(p as int, xv));
                assert(s2.skip(i + 1) =~= before.skip(i + 1));
                assert(before.skip(i + 1) =~= before.skip(i as int).skip(1));
                assert(old(self)@.skip(i + 1) =~= old(self)@.skip(i as int).skip(1));
                // the part before `p` is at or below `x`, the part from `p` on is above it
                assert forall|j: int| p <= j < t.len() implies xv.start < (#[trigger] t[j]).start by {
                    assert(t[p as int] == s1[p as int]);
                    if j > p {
                        assert(t[p as int].start <= t[j].start);
                    }
                }
                assert forall|a: int, b: int| 0 <= a < b < t2.len() implies (#[trigger] t2[a]).start <= (
                #[trigger] t2[b]).start by {
                    if a < p {
                        assert(t2[a] == t[a]);
                        assert(t[a] == s1[a]);
                    } else if a > p {
                        assert(t2[a] == t[a - 1]);
                    }
                    if b < p {
                        assert(t2[b] == t[b]);
                    } else if b > p {
                        assert(t2[b] == t[b - 1]);
                    }
                }
                assert forall|v: int| #[trigger]
                    t2.filter(starts_at(v)) == old(self)@.take(i + 1).filter(starts_at(v)) by {
                    let pred = starts_at(v);
                    let o = old(self)@;
                    let lo = t.take(p as int);
                    let hi = t.skip(p as int);
                    assert(t =~= lo + hi);
                    assert(t2 =~= (lo + seq![xv]) + hi);
                    assert(o.take(i + 1) =~= o.take(i as int) + seq![xv]);
                    Seq::filter_distributes_over_add(lo, hi, pred);
                    Seq::filter_distributes_over_add(lo + seq![xv], hi, pred);
                    Seq::filter_distributes_over_add(lo, seq![xv], pred);
                    Seq::filter_distributes_over_add(o.take(i as int), seq![xv], pred);
                    assert(t.filter(pred) == o.take(i as int).filter(pred));
                    filter_of_one(xv, pred);
                    if pred(xv) {
                        assert forall|j: int| 0 <= j < hi.len() implies !pred(#[trigger] hi[j]) by {
                            assert(hi[j] == t[p + j]);
                        }
                        filter_keeps_none(hi, pred);
                        assert((lo.filter(pred) + seq![xv].filter(pred)) + hi.filter(pred) =~= (
                        lo.filter(pred) + hi.filter(pred)) + seq![xv].filter(pred));
                    } else {
                        assert((lo.filter(pred) + seq![xv].filter(pred)) + hi.filter(pred)
                            =~= lo.filter(pred) + hi.filter(pred));
                        assert(o.take(i as int).filter(pred) + seq![xv].filter(pred) =~= o.take(
                            i as int,
                        ).filter(pred));
                    }
                }
            }
            i += 1;
        }
        proof {
            assert(self@.take(n as int) =~= self@);
            assert(old(self)@.take(n as int) =~= old(self)@);
        }
    }
}

impl<T: Scalar> SortedIntervals<T> {
    /// Takes the interval at `from` out and puts it back at `to`, which
    /// is not after `from`; the intervals between move up by one.
    fn move_down(&mut self, from: usize, to: usize)
        requires
            to <= from < old(self)@.len(),
        ensures
            final(self).column == old(self).column,
            final(self).intervals@.len() == old(self).intervals@.len(),
            final(self).intervals@.to_multiset() == old(self).intervals@.to_multiset(),
            forall|k: int|
                0 <= k < to ==> #[trigger] final(self).intervals@[k] == old(self).intervals@[k],
            final(self).intervals@[to as int] == old(self).intervals@[from as int],
            forall|k: int|
                to < k <= from ==> #[trigger] final(self).intervals@[k] == old(self).intervals@[k
                    - 1],
            forall|k: int|
                from < k < old(self).intervals@.len() ==> #[trigger] final(self).intervals@[k]
                    == old(self).intervals@[k],
    {
        let x = self.intervals.remove(from);
        self.intervals.insert(to, x);
        proof {
            let before = old(self).intervals@;
            to_multiset_remove(before, from as int);
            to_multiset_insert(before.remove(from as int), to as int, x);
            before.to_multiset_ensures();
            assert(before.contains(x));
            assert(self.intervals@.to_multiset() =~= before.to_multiset());
        }
    }

    /// Sorts the intervals by insertion, asking `f` which of two comes
    /// first.
    fn sort_with<F>(&mut self, f: &F) where F: Fn(&Interval<T>, &Interval<T>) -> Ordering
        requires
            forall|a: Interval<T>, b: Interval<T>| f.requires((&a, &b)),
        ensures
            final(self).column == old(self).column,
            final(self).intervals@.to_multiset() == old(self).intervals@.to_multiset(),
            is_arranged_by(*f, final(self).intervals@),
    {
        let n = self.intervals.len();
        let mut i: usize = 0;
        while i < n
            invariant
                0 <= i <= n,
                n == self.intervals.len(),
                self.column == old(self).column,
                self.intervals@.to_multiset() == old(self).intervals@.to_multiset(),
                forall|a: Interval<T>, b: Interval<T>| f.requires((&a, &b)),
                forall|k: int|
                    0 <= k && k + 1 < i ==> is_placed_by(
                        *f,
                        #[trigger] self.intervals@[k],
                        self.intervals@[k + 1],
                    ),
            decreases n - i,
        {
            let ghost before = self.intervals@;
            let mut p: usize = 0;
            let mut found = false;
            while p < i && !found
                invariant
                    0 <= p <= i < n,
                    n == self.intervals.len(),
                    self.intervals@ == before,
                    forall|a: Interval<T>, b: Interval<T>| f.requires((&a, &b)),
                    forall|k: int, m: int|
                        0 <= k && k + 1 == p && m == i ==> is_not_above(*f, before[k], before[m]),
                    forall|k: int, m: int|
                        k == p && m == i && found ==> f.ensures(
                            (&before[k], &before[m]),
                            Ordering::Greater,
                        ),
                decreases i - p + (if found { 0int } else { 1int }),
            {
                let a = &self.intervals[p];
                let b = &self.intervals[i];
                let o = f(a, b);
                match o {
                    Ordering::Greater => {
                        found = true;
                    },
                    _ => {
                        assert(is_not_above(*f, *a, *b)) by {
                            assert(f.ensures((a, b), o) && o != Ordering::Greater);
                        }
                        p += 1;
                    },
                }
            }
            self.move_down(i, p);
            proof {
                let after = self.intervals@;
                assert forall|k: int| 0 <= k && k + 1 < i + 1 implies is_placed_by(
                    *f,
                    #[trigger] after[k],
                    after[k + 1],
                ) by {
                    if k + 1 < p {
                        assert(after[k] == before[k]);
                        assert(after[k + 1] == before[k + 1]);
                    } else if k + 1 == p {
                        assert(after[k] == before[k]);
                    } else if k == p {
                        assert(after[k + 1] == before[k]);
                    } else {
                        assert(after[k] == before[k - 1]);
                        assert(after[k + 1] == before[k]);
                        assert(is_placed_by(*f, before[k - 1], before[k - 1 + 1]));
                    }
                }
            }
            i += 1;
        }
    }

    /// Sorts the intervals again: by `start` where no ordering is given,
    /// with those that share a `start` left in their order, else by
    /// insertion under the ordering `comparator`. The set holds the same
    /// intervals afterwards, each with the `index` it had.
    pub fn sort_intervals<F>(&mut self, comparator: Option<F>) where
        F: Fn(&Interval<T>, &Interval<T>) -> Ordering,

        requires
            comparator matches Some(f) ==> forall|a: Interval<T>, b: Interval<T>|
                f.requires((&a, &b)),
        ensures
            final(self).column == old(self).column,
            final(self).intervals@.to_multiset() == old(self).intervals@.to_multiset(),
            comparator is None ==> is_stable_sort_by_start(old(self)@, final(self)@),
            comparator matches Some(f) ==> is_arranged_by(f, final(self).intervals@),
    {
        match comparator {
            Some(f) => self.sort_with(&f),
            None => self.sort_by_start(),
        }
    }
}

} // verus!
