//! Labelled half-open intervals and the ordered set that holds them.

use vstd::prelude::*;
use crate::errors::DistributionError;
use crate::scalar::Scalar;

verus! {

/// A half-open range `[start, end)` of a column, tagged with a display
/// category and the position it was given in its set.
#[derive(Debug)]
pub struct Interval<T: Scalar> {
    pub column: String,
    pub start: T,
    pub end: T,
    pub category: String,
    pub index: usize,
}

impl<T: Scalar> Interval<T> {
    /// A copy of this interval, field for field.
    pub fn duplicate(&self) -> (r: Interval<T>)
        ensures
            r == *self,
    {
        Interval {
            column: self.column.clone(),
            start: self.start,
            end: self.end,
            category: self.category.clone(),
            index: self.index,
        }
    }

}

/// What an interval says, apart from how it is stored: the names as
/// texts, the bounds as the integers they stand for.
pub struct IntervalView {
    pub column: Seq<char>,
    pub start: int,
    pub end: int,
    pub category: Seq<char>,
    pub index: nat,
}

impl IntervalView {
    /// Whether `value` lies in `[start, end)`.
    pub open spec fn contains(&self, value: int) -> bool {
        self.start <= value < self.end
    }
}

impl<T: Scalar> View for Interval<T> {
    type V = IntervalView;

    open spec fn view(&self) -> IntervalView {
        IntervalView {
            column: self.column@,
            start: self.start.rank(),
            end: self.end.rank(),
            category: self.category@,
            index: self.index as nat,
        }
    }
}

/// The views of the intervals of `v`, in their order.
pub open spec fn views<T: Scalar>(v: Seq<Interval<T>>) -> Seq<IntervalView> {
    Seq::new(v.len(), |i: int| v[i]@)
}

/// An ordered collection of labelled intervals of one column.
///
/// The fields are public, so any sequence can be written down; the
/// operations accept every such value. `is_ordered` is what insertion
/// keeps for intervals that stay clear of each other.
#[derive(Debug)]
pub struct SortedIntervals<T: Scalar> {
    pub column: String,
    pub intervals: Vec<Interval<T>>,
}

/// `x` with its `index` replaced by `index`.
pub open spec fn with_index(x: IntervalView, index: nat) -> IntervalView {
    IntervalView { column: x.column, start: x.start, end: x.end, category: x.category, index }
}

/// `s` with every interval's `index` set to its position.
pub open spec fn renumbered(s: Seq<IntervalView>) -> Seq<IntervalView> {
    Seq::new(s.len(), |i: int| with_index(s[i], i as nat))
}

/// Every interval's `index` is its position.
pub open spec fn is_numbered(s: Seq<IntervalView>) -> bool {
    forall|i: int| 0 <= i < s.len() ==> (#[trigger] s[i]).index == i
}

/// `x` lies wholly before or wholly after `y`: `x.end <= y.start` or
/// `y.end <= x.start`.
pub open spec fn is_clear_of(x: IntervalView, y: IntervalView) -> bool {
    x.end <= y.start || y.end <= x.start
}

/// No interval starts after its end, and each interval ends no later than
/// every later one starts.
pub open spec fn is_ordered(s: Seq<IntervalView>) -> bool {
    &&& forall|i: int| 0 <= i < s.len() ==> (#[trigger] s[i]).start <= s[i].end
    &&& forall|i: int, j: int|
        0 <= i < j < s.len() ==> (#[trigger] s[i]).end <= (#[trigger] s[j]).start
}

/// `i` is the first position that holds the smallest `start` of `s`.
pub open spec fn is_min_at(s: Seq<IntervalView>, i: int) -> bool {
    &&& 0 <= i < s.len()
    &&& forall|j: int|
        0 <= j < s.len() ==> s[i].start < (#[trigger] s[j]).start || (s[i].start
            == s[j].start && i <= j)
}

/// `i` is the last position that holds the largest `end` of `s`.
pub open spec fn is_max_at(s: Seq<IntervalView>, i: int) -> bool {
    &&& 0 <= i < s.len()
    &&& forall|j: int|
        0 <= j < s.len() ==> (#[trigger] s[j]).end < s[i].end || (s[i].end
            == s[j].end && j <= i)
}

/// `i` is the left neighbour of `x` in `s`: among the intervals that end
/// at or before `x.start`, the last position with the greatest `end`.
pub open spec fn is_left_at(s: Seq<IntervalView>, x: IntervalView, i: int) -> bool {
    &&& 0 <= i < s.len()
    &&& s[i].end <= x.start
    &&& forall|j: int|
        0 <= j < s.len() && (#[trigger] s[j]).end <= x.start ==> s[j].end
            < s[i].end || (s[i].end == s[j].end && j <= i)
}

/// `i` is the right neighbour of `x` in `s`: among the intervals that
/// start at or after `x.end`, the first position with the smallest `start`.
pub open spec fn is_right_at(s: Seq<IntervalView>, x: IntervalView, i: int) -> bool {
    &&& 0 <= i < s.len()
    &&& x.end <= s[i].start
    &&& forall|j: int|
        0 <= j < s.len() && x.end <= (#[trigger] s[j]).start ==> s[i].start
            < s[j].start || (s[i].start == s[j].start && i <= j)
}

/// Some interval of `s` ends at or before `x.start`.
pub open spec fn has_left(s: Seq<IntervalView>, x: IntervalView) -> bool {
    exists|j: int| 0 <= j < s.len() && (#[trigger] s[j]).end <= x.start
}

/// Some interval of `s` starts at or after `x.end`.
pub open spec fn has_right(s: Seq<IntervalView>, x: IntervalView) -> bool {
    exists|j: int| 0 <= j < s.len() && x.end <= (#[trigger] s[j]).start
}

/// `x.end` is at or before every `start` of `s`.
pub open spec fn ends_before_all(s: Seq<IntervalView>, x: IntervalView) -> bool {
    forall|j: int| 0 <= j < s.len() ==> x.end <= (#[trigger] s[j]).start
}

/// `x.start` is at or after every `end` of `s`.
pub open spec fn starts_after_all(s: Seq<IntervalView>, x: IntervalView) -> bool {
    forall|j: int| 0 <= j < s.len() ==> (#[trigger] s[j]).end <= x.start
}

/// What inserting `x` into `s` gives: the new sequence, or the error that
/// leaves `s` as it was.
///
/// An empty `s` takes any `x`, also one that starts after its end.
/// Otherwise `x` must not start after its end. It goes to the front when
/// it ends before everything, to the back when it starts after
/// everything, and else between its left and right neighbours, at the
/// right neighbour's position. Without both neighbours it is refused as
/// an overlap, with one exception: with a left neighbour but no right
/// one, a copy of the left neighbour is appended in place of `x`, and
/// `x` with its category is lost. Whether `x` should be refused there
/// too is an open question; callers see a success. After every insertion
/// each `index` is the interval's position.
///
/// Only the neighbours are looked at: an interval of `s` that reaches
/// over `x` goes unnoticed where `x` has a neighbour on each side.
pub open spec fn add_outcome(s: Seq<IntervalView>, x: IntervalView) -> Result<
    Seq<IntervalView>,
    DistributionError,
> {
    if s.len() == 0 {
        Ok(renumbered(seq![x]))
    } else if x.start > x.end {
        Err(DistributionError::InvalidInterval)
    } else if ends_before_all(s, x) {
        Ok(renumbered(s.insert(0, x)))
    } else if starts_after_all(s, x) {
        Ok(renumbered(s.push(x)))
    } else if !has_right(s, x) {
        if has_left(s, x) {
            Ok(renumbered(s.push(s[choose|i: int| is_left_at(s, x, i)])))
        } else {
            Err(DistributionError::Overlap)
        }
    } else if !has_left(s, x) {
        Err(DistributionError::Overlap)
    } else {
        Ok(renumbered(s.insert(choose|i: int| is_right_at(s, x, i), x)))
    }
}

/// At most one position is the left neighbour of `x`.
pub proof fn left_is_unique(s: Seq<IntervalView>, x: IntervalView, a: int, b: int)
    requires
        is_left_at(s, x, a),
        is_left_at(s, x, b),
    ensures
        a == b,
{
}

/// At most one position is the right neighbour of `x`.
pub proof fn right_is_unique(s: Seq<IntervalView>, x: IntervalView, a: int, b: int)
    requires
        is_right_at(s, x, a),
        is_right_at(s, x, b),
    ensures
        a == b,
{
}

impl<T: Scalar> SortedIntervals<T> {
    /// The intervals in their stored order.
    pub open spec fn view(&self) -> Seq<IntervalView> {
        views(self.intervals@)
    }

    /// An empty set for `column`.
    pub fn new(column: String) -> (r: SortedIntervals<T>)
        ensures
            r.column == column,
            r@ == Seq::<IntervalView>::empty(),
    {
        SortedIntervals { column, intervals: Vec::new() }
    }

    /// Whether the set holds no interval.
    pub fn is_empty(&self) -> (r: bool)
        ensures
            r == (self@.len() == 0),
    {
        self.intervals.len() == 0
    }

    /// The number of intervals.
    pub fn len(&self) -> (r: usize)
        ensures
            r == self@.len(),
    {
        self.intervals.len()
    }

    /// The interval at position `index`, if there is one.
    pub fn get_interval(&self, index: usize) -> (r: Option<&Interval<T>>)
        ensures
            index < self@.len() ==> r == Some(&self.intervals@[index as int]),
            index >= self@.len() ==> r.is_none(),
    {
        if index < self.intervals.len() {
            Some(&self.intervals[index])
        } else {
            None
        }
    }

    /// The position of the interval with the smallest `start`, the first
    /// of them where several share it.
    pub fn min_position(&self) -> (r: Option<usize>)
        ensures
            self@.len() == 0 ==> r.is_none(),
            self@.len() > 0 ==> r.is_some() && is_min_at(self@, r.unwrap() as int),
    {
        if self.intervals.len() == 0 {
            return None;
        }
        let mut best: usize = 0;
        let mut i: usize = 1;
        while i < self.intervals.len()
            invariant
                1 <= i <= self.intervals.len(),
                0 <= best < i,
                forall|j: int|
                    0 <= j < i ==> self@[best as int].start < (#[trigger] self@[j]).start
                        || (self@[best as int].start == self@[j].start && best <= j),
            decreases self.intervals.len() - i,
        {
            if self.intervals[i].start.lt(&self.intervals[best].start) {
                best = i;
            }
            i += 1;
        }
        Some(best)
    }

    /// The position of the interval with the largest `end`, the last of
    /// them where several share it.
    pub fn max_position(&self) -> (r: Option<usize>)
        ensures
            self@.len() == 0 ==> r.is_none(),
            self@.len() > 0 ==> r.is_some() && is_max_at(self@, r.unwrap() as int),
    {
        if self.intervals.len() == 0 {
            return None;
        }
        let mut best: usize = 0;
        let mut i: usize = 1;
        while i < self.intervals.len()
            invariant
                1 <= i <= self.intervals.len(),
                0 <= best < i,
                forall|j: int|
                    0 <= j < i ==> (#[trigger] self@[j]).end < self@[best as int].end
                        || (self@[best as int].end == self@[j].end && j <= best),
            decreases self.intervals.len() - i,
        {
            if self.intervals[best].end.le(&self.intervals[i].end) {
                best = i;
            }
            i += 1;
        }
        Some(best)
    }

    /// The interval with the smallest `start`.
    pub fn min(&self) -> (r: Option<&Interval<T>>)
        ensures
            self@.len() == 0 ==> r.is_none(),
            self@.len() > 0 ==> r.is_some() && exists|i: int|
                is_min_at(self@, i) && r.unwrap() == self.intervals@[i],
    {
        match self.min_position() {
            Some(i) => Some(&self.intervals[i]),
            None => None,
        }
    }

    /// The interval with the largest `end`.
    pub fn max(&self) -> (r: Option<&Interval<T>>)
        ensures
            self@.len() == 0 ==> r.is_none(),
            self@.len() > 0 ==> r.is_some() && exists|i: int|
                is_max_at(self@, i) && r.unwrap() == self.intervals@[i],
    {
        match self.max_position() {
            Some(i) => Some(&self.intervals[i]),
            None => None,
        }
    }

    /// The position of the left neighbour of `x`, if it has one.
    pub fn left_position(&self, x: &Interval<T>) -> (r: Option<usize>)
        ensures
            r.is_some() == has_left(self@, x@),
            r.is_some() ==> is_left_at(self@, x@, r.unwrap() as int),
    {
        let mut best: Option<usize> = None;
        let mut i: usize = 0;
        while i < self.intervals.len()
            invariant
                0 <= i <= self.intervals.len(),
                best.is_none() ==> forall|j: int|
                    0 <= j < i ==> !((#[trigger] self@[j]).end <= x@.start),
                best.is_some() ==> {
                    &&& 0 <= best.unwrap() < i
                    &&& self@[best.unwrap() as int].end <= x@.start
                    &&& forall|j: int|
                        0 <= j < i && (#[trigger] self@[j]).end <= x@.start
                            ==> self@[j].end < self@[best.unwrap() as int].end || (
                        self@[best.unwrap() as int].end == self@[j].end && j
                            <= best.unwrap())
                },
            decreases self.intervals.len() - i,
        {
            if self.intervals[i].end.le(&x.start) {
                match best {
                    None => {
                        best = Some(i);
                    },
                    Some(b) => {
                        if self.intervals[b].end.le(&self.intervals[i].end) {
                            best = Some(i);
                        }
                    },
                }
            }
            i += 1;
        }
        best
    }

    /// The position of the right neighbour of `x`, if it has one.
    pub fn right_position(&self, x: &Interval<T>) -> (r: Option<usize>)
        ensures
            r.is_some() == has_right(self@, x@),
            r.is_some() ==> is_right_at(self@, x@, r.unwrap() as int),
    {
        let mut best: Option<usize> = None;
        let mut i: usize = 0;
        while i < self.intervals.len()
            invariant
                0 <= i <= self.intervals.len(),
                best.is_none() ==> forall|j: int|
                    0 <= j < i ==> !(x@.end <= (#[trigger] self@[j]).start),
                best.is_some() ==> {
                    &&& 0 <= best.unwrap() < i
                    &&& x@.end <= self@[best.unwrap() as int].start
                    &&& forall|j: int|
                        0 <= j < i && x@.end <= (#[trigger] self@[j]).start
                            ==> self@[best.unwrap() as int].start < self@[j].start
                            || (self@[best.unwrap() as int].start == self@[j].start
                            && best.unwrap() <= j)
                },
            decreases self.intervals.len() - i,
        {
            if x.end.le(&self.intervals[i].start) {
                match best {
                    None => {
                        best = Some(i);
                    },
                    Some(b) => {
                        if self.intervals[i].start.lt(&self.intervals[b].start) {
                            best = Some(i);
                        }
                    },
                }
            }
            i += 1;
        }
        best
    }
}

impl<T: Scalar> SortedIntervals<T> {
    /// Sets every interval's `index` to its position.
    fn renumber(&mut self)
        ensures
            final(self)@ == renumbered(old(self)@),
            final(self).column == old(self).column,
    {
        let n = self.intervals.len();
        let mut i: usize = 0;
        while i < n
            invariant
                0 <= i <= n,
                n == self.intervals.len(),
                self.column == old(self).column,
                self.intervals@.len() == old(self).intervals@.len(),
                forall|j: int|
                    0 <= j < i ==> (#[trigger] self.intervals@[j])@ == with_index(
                        old(self).intervals@[j]@,
                        j as nat,
                    ),
                forall|j: int| i <= j < n ==> #[trigger] self.intervals@[j] == old(self).intervals@[j],
            decreases n - i,
        {
            self.intervals[i].index = i;
            i += 1;
        }
        assert(self@ =~= renumbered(old(self)@));
    }

    /// Inserts `interval` as `add_outcome` says, or refuses it and leaves
    /// the set as it was.
    pub fn add_interval(&mut self, interval: Interval<T>) -> (r: Result<(), DistributionError>)
        ensures
            match add_outcome(old(self)@, interval@) {
                Ok(s) => r.is_ok() && final(self)@ == s,
                Err(e) => r == Err::<(), DistributionError>(e) && final(self)@ == old(self)@,
            },
            final(self).column == old(self).column,
    {
        if self.intervals.len() == 0 {
            assert(self@.push(interval@) =~= seq![interval@]);
            self.intervals.push(interval);
            self.renumber();
            return Ok(());
        }
        if interval.end.lt(&interval.start) {
            return Err(DistributionError::InvalidInterval);
        }
        let lo = self.min_position().unwrap();
        let hi = self.max_position().unwrap();
        if interval.end.le(&self.intervals[lo].start) {
            self.intervals.insert(0, interval);
            self.renumber();
            return Ok(());
        }
        if self.intervals[hi].end.le(&interval.start) {
            self.intervals.push(interval);
            self.renumber();
            return Ok(());
        }
        let left = self.left_position(&interval);
        let right = self.right_position(&interval);
        match right {
            None => match left {
                Some(l) => {
                    proof {
                        left_is_unique(
                            self@,
                            interval@,
                            l as int,
                            choose|i: int| is_left_at(self@, interval@, i),
                        );
                    }
                    let copy = self.intervals[l].duplicate();
                    self.intervals.push(copy);
                    self.renumber();
                    Ok(())
                },
                None => Err(DistributionError::Overlap),
            },
            Some(p) => match left {
                None => Err(DistributionError::Overlap),
                Some(_) => {
                    proof {
                        right_is_unique(
                            self@,
                            interval@,
                            p as int,
                            choose|i: int| is_right_at(self@, interval@, i),
                        );
                    }
                    self.intervals.insert(p, interval);
                    self.renumber();
                    Ok(())
                },
            },
        }
    }
}

/// `v` is the `start` or the `end` of some interval of `s`.
pub open spec fn is_boundary(s: Seq<IntervalView>, v: int) -> bool {
    exists|k: int| 0 <= k < s.len() && ((#[trigger] s[k]).start == v || s[k].end == v)
}

/// The integers that the values of `v` stand for, in their order.
pub open spec fn ranks<T: Scalar>(v: Seq<T>) -> Seq<int> {
    Seq::new(v.len(), |i: int| v[i].rank())
}

/// `axis` holds the boundary values of `s`, each once, in ascending
/// order.
pub open spec fn is_axis_of(axis: Seq<int>, s: Seq<IntervalView>) -> bool {
    &&& forall|i: int, j: int| 0 <= i < j < axis.len() ==> #[trigger] axis[i] < #[trigger] axis[j]
    &&& forall|v: int| axis.contains(v) <==> is_boundary(s, v)
}

/// Each value of `v` is below the next: ascending, nothing twice.
pub open spec fn is_strictly_ascending<T: Scalar>(v: Seq<T>) -> bool {
    forall|i: int, j: int| 0 <= i < j < v.len() ==> (#[trigger] v[i]).rank() < (#[trigger] v[j]).rank()
}

/// Puts `value` into the ascending `values` at its place, unless it is
/// there already.
fn insert_ascending<T: Scalar>(values: &mut Vec<T>, value: T)
    requires
        is_strictly_ascending(old(values)@),
    ensures
        is_strictly_ascending(final(values)@),
        forall|w: T| final(values)@.contains(w) <==> (old(values)@.contains(w) || w == value),
{
    let mut p: usize = 0;
    while p < values.len() && values[p].lt(&value)
        invariant
            0 <= p <= values.len(),
            values@ == old(values)@,
            forall|j: int| 0 <= j < p ==> (#[trigger] values@[j]).rank() < value.rank(),
        decreases values.len() - p,
    {
        p += 1;
    }
    if p < values.len() && values[p].le(&value) {
        proof {
            T::rank_is_injective(values@[p as int], value);
            assert(values@.contains(value));
        }
        return;
    }
    values.insert(p, value);
    proof {
        let old_v = old(values)@;
        let new_v = values@;
        assert(new_v[p as int] == value);
        assert forall|w: T| new_v.contains(w) <==> (old_v.contains(w) || w == value) by {
            if new_v.contains(w) {
                let i = choose|i: int| 0 <= i < new_v.len() && new_v[i] == w;
                if i < p {
                    assert(old_v[i] == w);
                } else if i > p {
                    assert(old_v[i - 1] == w);
                }
            }
            if old_v.contains(w) {
                let i = choose|i: int| 0 <= i < old_v.len() && old_v[i] == w;
                if i < p {
                    assert(new_v[i] == w);
                } else {
                    assert(new_v[i + 1] == w);
                }
            }
        }
    }
}

impl<T: Scalar> SortedIntervals<T> {
    /// A copy of the intervals in their stored order.
    pub fn get_intervals(&self) -> (r: Vec<Interval<T>>)
        ensures
            r@ == self.intervals@,
            views(r@) == self@,
    {
        let mut out: Vec<Interval<T>> = Vec::new();
        let mut i: usize = 0;
        while i < self.intervals.len()
            invariant
                0 <= i <= self.intervals.len(),
                out@ == self.intervals@.take(i as int),
            decreases self.intervals.len() - i,
        {
            out.push(self.intervals[i].duplicate());
            assert(self.intervals@.take(i as int).push(self.intervals@[i as int]) =~= self.intervals@.take(
                i + 1,
            ));
            i += 1;
        }
        assert(self.intervals@.take(self.intervals@.len() as int) =~= self.intervals@);
        out
    }

    /// The boundary values of the set: every `start` and every `end`,
    /// each once, in ascending order.
    pub fn values(&self) -> (r: Vec<T>)
        ensures
            is_axis_of(ranks(r@), self@),
    {
        let mut out: Vec<T> = Vec::new();
        let mut i: usize = 0;
        while i < self.intervals.len()
            invariant
                0 <= i <= self.intervals.len(),
                is_strictly_ascending(out@),
                forall|v: T| out@.contains(v) <==> is_boundary(self@.take(i as int), v.rank()),
            decreases self.intervals.len() - i,
        {
            let ghost before = out@;
            insert_ascending(&mut out, self.intervals[i].start);
            let ghost middle = out@;
            insert_ascending(&mut out, self.intervals[i].end);
            proof {
                let a = self@.take(i as int);
                let b = self@.take(i + 1);
                let cur = self@[i as int];
                assert(b[i as int] == cur);
                assert forall|v: T| out@.contains(v) <==> is_boundary(b, v.rank()) by {
                    let w = v.rank();
                    if is_boundary(b, w) {
                        let k = choose|k: int| 0 <= k < b.len() && (b[k].start == w || b[k].end == w);
                        if k < i {
                            assert(a[k] == b[k]);
                            assert(is_boundary(a, w));
                        } else {
                            if cur.start == w {
                                T::rank_is_injective(self.intervals@[i as int].start, v);
                            } else {
                                T::rank_is_injective(self.intervals@[i as int].end, v);
                            }
                        }
                    }
                    if is_boundary(a, w) {
                        let k = choose|k: int| 0 <= k < a.len() && (a[k].start == w || a[k].end == w);
                        assert(b[k] == a[k]);
                    }
                }
            }
            i += 1;
        }
        assert(self@.take(self@.len() as int) =~= self@);
        proof {
            let axis = ranks(out@);
            assert forall|v: int| axis.contains(v) <==> is_boundary(self@, v) by {
                if axis.contains(v) {
                    let i = choose|i: int| 0 <= i < axis.len() && axis[i] == v;
                    assert(out@.contains(out@[i]));
                }
                if is_boundary(self@, v) {
                    let k = choose|k: int|
                        0 <= k < self@.len() && ((#[trigger] self@[k]).start == v || self@[k].end
                            == v);
                    let w = if self@[k].start == v {
                        self.intervals@[k].start
                    } else {
                        self.intervals@[k].end
                    };
                    assert(w.rank() == v);
                    assert(out@.contains(w));
                    let i = choose|i: int| 0 <= i < out@.len() && out@[i] == w;
                    assert(axis[i] == v);
                }
            }
        }
        out
    }
}

/// What inserting the first `k` intervals of `xs`, in their order, into
/// an empty set gives: the sequence built, or the first error met.
pub open spec fn built(xs: Seq<IntervalView>, k: nat) -> Result<
    Seq<IntervalView>,
    DistributionError,
>
    decreases k,
{
    if k == 0 {
        Ok(Seq::empty())
    } else {
        match built(xs, (k - 1) as nat) {
            Ok(s) => add_outcome(s, xs[k - 1]),
            Err(e) => Err(e),
        }
    }
}

/// The column a set built from `xs` is named after: that of the first
/// interval, or the empty name where there is none.
pub open spec fn column_of(xs: Seq<IntervalView>) -> Seq<char> {
    if xs.len() > 0 {
        xs[0].column
    } else {
        Seq::empty()
    }
}

impl<T: Scalar> SortedIntervals<T> {
    /// Builds a set by inserting the intervals of `intervals` one by one,
    /// in their order, and stops at the first one that is refused.
    pub fn from(intervals: Vec<Interval<T>>) -> (r: Result<SortedIntervals<T>, DistributionError>)
        ensures
            match built(views(intervals@), intervals@.len()) {
                Ok(s) => r matches Ok(set) && set@ == s && set.column@ == column_of(
                    views(intervals@),
                ),
                Err(e) => r matches Err(err) && err == e,
            },
    {
        let column = if intervals.len() > 0 {
            intervals[0].column.clone()
        } else {
            String::new()
        };
        let mut set = SortedIntervals { column, intervals: Vec::new() };
        let mut i: usize = 0;
        assert(set@ =~= Seq::<IntervalView>::empty());
        while i < intervals.len()
            invariant
                0 <= i <= intervals.len(),
                set.column@ == column_of(views(intervals@)),
                built(views(intervals@), i as nat) == Ok::<Seq<IntervalView>, DistributionError>(
                    set@,
                ),
            decreases intervals.len() - i,
        {
            match set.add_interval(intervals[i].duplicate()) {
                Ok(()) => {},
                Err(e) => {
                    proof {
                        built_error_stays(views(intervals@), (i + 1) as nat, intervals@.len());
                    }
                    return Err(e);
                },
            }
            i += 1;
        }
        Ok(set)
    }
}

/// Once the first `k` intervals have met an error, every longer prefix
/// ends in the same error.
pub proof fn built_error_stays(xs: Seq<IntervalView>, k: nat, n: nat)
    requires
        k <= n,
        built(xs, k).is_err(),
    ensures
        built(xs, n) == built(xs, k),
    decreases n,
{
    if k < n {
        built_error_stays(xs, k, (n - 1) as nat);
    }
}

/// An ordered set is sorted ascending by `start`, and no value lies in
/// two of its intervals.
pub proof fn ordered_is_sorted_and_disjoint(s: Seq<IntervalView>)
    requires
        is_ordered(s),
    ensures
        forall|i: int, j: int|
            0 <= i < j < s.len() ==> (#[trigger] s[i]).start <= (#[trigger] s[j]).start,
        forall|i: int, j: int, v: int|
            0 <= i < s.len() && 0 <= j < s.len() && i != j ==> !(#[trigger] s[i].contains(v)
                && #[trigger] s[j].contains(v)),
{
    assert forall|i: int, j: int, v: int|
        0 <= i < s.len() && 0 <= j < s.len() && i != j implies !(#[trigger] s[i].contains(v)
        && #[trigger] s[j].contains(v)) by {
        if i < j {
            assert(s[i].end <= s[j].start);
        } else {
            assert(s[j].end <= s[i].start);
        }
    }
}

/// Inserting into an ordered set an interval that does not start after
/// its end and is clear of every interval present succeeds, and the set
/// is ordered again, one longer, and numbered by position.
pub proof fn clear_insertion_keeps_order(s: Seq<IntervalView>, x: IntervalView)
    requires
        is_ordered(s),
        x.start <= x.end,
        forall|i: int| 0 <= i < s.len() ==> is_clear_of(x, #[trigger] s[i]),
    ensures
        add_outcome(s, x).is_ok(),
        is_ordered(add_outcome(s, x).unwrap()),
        is_numbered(add_outcome(s, x).unwrap()),
        add_outcome(s, x).unwrap().len() == s.len() + 1,
{
    if s.len() == 0 {
    } else if ends_before_all(s, x) {
    } else if starts_after_all(s, x) {
    } else {
        let a = choose|j: int| 0 <= j < s.len() && !(x.end <= (#[trigger] s[j]).start);
        let b = choose|j: int| 0 <= j < s.len() && !((#[trigger] s[j]).end <= x.start);
        assert(is_clear_of(x, s[a]));
        assert(is_clear_of(x, s[b]));
        assert(has_left(s, x));
        assert(has_right(s, x));
        right_exists(s, x);
        let r = choose|i: int| is_right_at(s, x, i);
        let t = s.insert(r, x);
        assert forall|i: int, j: int| 0 <= i < j < t.len() implies (#[trigger] t[i]).end <= (
        #[trigger] t[j]).start by {
            if j == r {
                assert(t[i] == s[i]);
                assert(is_clear_of(x, s[i]));
            } else if i == r {
                assert(t[j] == s[j - 1]);
            } else if i < r {
                assert(t[i] == s[i]);
                if j < r {
                    assert(t[j] == s[j]);
                } else {
                    assert(t[j] == s[j - 1]);
                }
            } else {
                assert(t[i] == s[i - 1]);
                assert(t[j] == s[j - 1]);
            }
        }
    }
}

/// An insertion that leaves an ordered set ordered was a clear one: the
/// interval did not start after its end and was clear of every interval
/// present.
pub proof fn ordered_insertion_was_clear(s: Seq<IntervalView>, x: IntervalView)
    requires
        is_ordered(s),
        add_outcome(s, x) matches Ok(t) && is_ordered(t),
    ensures
        x.start <= x.end,
        forall|i: int| 0 <= i < s.len() ==> is_clear_of(x, #[trigger] s[i]),
{
    let t = add_outcome(s, x).unwrap();
    let n = s.len() as int;
    if s.len() == 0 {
        assert(t[0].start <= t[0].end);
    } else if ends_before_all(s, x) {
    } else if starts_after_all(s, x) {
    } else if !has_right(s, x) {
        let l = choose|i: int| is_left_at(s, x, i);
        left_exists(s, x);
        assert(is_left_at(s, x, l));
        assert(t[l].end <= t[n].start);
        assert(t[l].start <= t[l].end);
        assert forall|j: int| 0 <= j < s.len() implies (#[trigger] s[j]).end <= x.start by {
            assert(t[j].end <= t[n].start);
        }
        assert(false);
    } else {
        right_exists(s, x);
        let r = choose|i: int| is_right_at(s, x, i);
        assert forall|i: int| 0 <= i < s.len() implies is_clear_of(x, #[trigger] s[i]) by {
            if i < r {
                assert(t[i].end <= t[r].start);
            } else {
                assert(t[r].end <= t[i + 1].start);
            }
        }
    }
}

/// Where some interval ends at or before `x.start`, `x` has a left
/// neighbour.
pub proof fn left_exists(s: Seq<IntervalView>, x: IntervalView)
    requires
        has_left(s, x),
    ensures
        exists|i: int| is_left_at(s, x, i),
    decreases s.len(),
{
    let k = choose|j: int| 0 <= j < s.len() && (#[trigger] s[j]).end <= x.start;
    let t = s.drop_last();
    let last = s.len() - 1;
    if exists|j: int| 0 <= j < t.len() && (#[trigger] t[j]).end <= x.start {
        left_exists(t, x);
        let i = choose|i: int| is_left_at(t, x, i);
        if s[last].end <= x.start && s[i].end <= s[last].end {
            assert forall|j: int| 0 <= j < s.len() && (#[trigger] s[j]).end <= x.start implies s[j].end
                < s[last].end || (s[last].end == s[j].end && j <= last) by {
                if j < last {
                    assert(t[j] == s[j]);
                }
            }
            assert(is_left_at(s, x, last));
        } else {
            assert forall|j: int| 0 <= j < s.len() && (#[trigger] s[j]).end <= x.start implies s[j].end
                < s[i].end || (s[i].end == s[j].end && j <= i) by {
                if j < last {
                    assert(t[j] == s[j]);
                }
            }
            assert(t[i] == s[i]);
            assert(is_left_at(s, x, i));
        }
    } else {
        assert(k == last) by {
            if k < last {
                assert(t[k] == s[k]);
            }
        }
        assert forall|j: int| 0 <= j < s.len() && (#[trigger] s[j]).end <= x.start implies s[j].end
            < s[last].end || (s[last].end == s[j].end && j <= last) by {
            if j < last {
                assert(t[j] == s[j]);
            }
        }
        assert(is_left_at(s, x, last));
    }
}

/// Where some interval starts at or after `x.end`, `x` has a right
/// neighbour.
pub proof fn right_exists(s: Seq<IntervalView>, x: IntervalView)
    requires
        has_right(s, x),
    ensures
        exists|i: int| is_right_at(s, x, i),
    decreases s.len(),
{
    let k = choose|j: int| 0 <= j < s.len() && x.end <= (#[trigger] s[j]).start;
    let t = s.drop_last();
    let last = s.len() - 1;
    if exists|j: int| 0 <= j < t.len() && x.end <= (#[trigger] t[j]).start {
        right_exists(t, x);
        let i = choose|i: int| is_right_at(t, x, i);
        if x.end <= s[last].start && s[last].start < s[i].start {
            assert forall|j: int|
                0 <= j < s.len() && x.end <= (#[trigger] s[j]).start implies s[last].start
                < s[j].start || (s[last].start == s[j].start && last <= j) by {
                if j < last {
                    assert(t[j] == s[j]);
                }
            }
            assert(is_right_at(s, x, last));
        } else {
            assert forall|j: int|
                0 <= j < s.len() && x.end <= (#[trigger] s[j]).start implies s[i].start
                < s[j].start || (s[i].start == s[j].start && i <= j) by {
                if j < last {
                    assert(t[j] == s[j]);
                }
            }
            assert(t[i] == s[i]);
            assert(is_right_at(s, x, i));
        }
    } else {
        assert(k == last) by {
            if k < last {
                assert(t[k] == s[k]);
            }
        }
        assert forall|j: int|
            0 <= j < s.len() && x.end <= (#[trigger] s[j]).start implies s[last].start
            < s[j].start || (s[last].start == s[j].start && last <= j) by {
            if j < last {
                assert(t[j] == s[j]);
            }
        }
        assert(is_right_at(s, x, last));
    }
}

/// Offering an ordered set a copy of its first interval, where that
/// interval is not empty, is refused as an overlap.
pub proof fn copy_of_first_is_refused(s: Seq<IntervalView>, x: IntervalView)
    requires
        is_ordered(s),
        s.len() > 0,
        x.start == s[0].start,
        x.end == s[0].end,
        x.start < x.end,
    ensures
        add_outcome(s, x) == Err::<Seq<IntervalView>, DistributionError>(DistributionError::Overlap),
{
    assert(!ends_before_all(s, x)) by {
        assert(!(x.end <= s[0].start));
    }
    assert(!starts_after_all(s, x)) by {
        assert(!(s[0].end <= x.start));
    }
    assert(!has_left(s, x)) by {
        assert forall|j: int| 0 <= j < s.len() implies !((#[trigger] s[j]).end <= x.start) by {
            if j > 0 {
                assert(s[0].end <= s[j].start);
            }
        }
    }
}

} // verus!
