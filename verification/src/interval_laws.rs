//! What holds of interval sets that are built from intervals clear of
//! each other: their contents, and that their order does not depend on
//! the order of insertion.

use vstd::prelude::*;
use vstd::multiset::Multiset;
use vstd::seq_lib::{to_multiset_build, to_multiset_insert, to_multiset_remove};
use crate::intervals::{
    add_outcome, built, clear_insertion_keeps_order, ends_before_all, has_left, has_right,
    is_clear_of, is_numbered, is_ordered, is_right_at, renumbered, starts_after_all, with_index,
    IntervalView,
};

verus! {

/// The intervals of `s` with every `index` set to zero: what `s` holds
/// apart from the numbering.
pub open spec fn unnumbered(s: Seq<IntervalView>) -> Seq<IntervalView> {
    Seq::new(s.len(), |i: int| with_index(s[i], 0))
}

/// The intervals of `s` as a multiset, without regard to order or `index`.
pub open spec fn contents(s: Seq<IntervalView>) -> Multiset<IntervalView> {
    unnumbered(s).to_multiset()
}

/// No interval of `xs` starts after its end, and any two of them at
/// different positions are clear of each other.
pub open spec fn is_pairwise_clear(xs: Seq<IntervalView>) -> bool {
    &&& forall|i: int| 0 <= i < xs.len() ==> (#[trigger] xs[i]).start <= xs[i].end
    &&& forall|i: int, j: int|
        0 <= i < xs.len() && 0 <= j < xs.len() && i != j ==> is_clear_of(
            #[trigger] xs[i],
            #[trigger] xs[j],
        )
}

/// No two intervals of `xs` at different positions are both empty at one
/// and the same point.
pub open spec fn has_no_twin_points(xs: Seq<IntervalView>) -> bool {
    forall|i: int, j: int|
        0 <= i < xs.len() && 0 <= j < xs.len() && i != j ==> !((#[trigger] xs[i]).start
            == xs[i].end && xs[i].end == (#[trigger] xs[j]).start
            && xs[j].start == xs[j].end)
}

/// Every member of `contents(s)` is some interval of `s` apart from its
/// `index`, and every interval of `s` is a member.
pub proof fn contents_members(s: Seq<IntervalView>)
    ensures
        forall|v: IntervalView|
            contents(s).count(v) > 0 <==> exists|i: int|
                0 <= i < s.len() && with_index(#[trigger] s[i], 0) == v,
{
    let u = unnumbered(s);
    u.to_multiset_ensures();
    assert forall|v: IntervalView| contents(s).count(v) > 0 implies exists|i: int|
        0 <= i < s.len() && with_index(#[trigger] s[i], 0) == v by {
        assert(u.contains(v));
        let i = choose|i: int| 0 <= i < u.len() && u[i] == v;
        assert(with_index(s[i], 0) == v);
    }
    assert forall|v: IntervalView|
        (exists|i: int| 0 <= i < s.len() && with_index(#[trigger] s[i], 0) == v)
        implies contents(s).count(v) > 0 by {
        let i = choose|i: int| 0 <= i < s.len() && with_index(#[trigger] s[i], 0) == v;
        assert(u[i] == v);
        assert(u.contains(v));
    }
}

/// A clear insertion adds the new interval to the contents and nothing
/// else.
pub proof fn clear_insertion_adds_one(s: Seq<IntervalView>, x: IntervalView)
    requires
        is_ordered(s),
        x.start <= x.end,
        forall|i: int| 0 <= i < s.len() ==> is_clear_of(x, #[trigger] s[i]),
    ensures
        add_outcome(s, x).is_ok(),
        contents(add_outcome(s, x).unwrap()) == contents(s).insert(with_index(x, 0)),
{
    clear_insertion_keeps_order(s, x);
    let t = add_outcome(s, x).unwrap();
    let p: int = if s.len() == 0 {
        0
    } else if ends_before_all(s, x) {
        0
    } else if starts_after_all(s, x) {
        s.len() as int
    } else {
        choose|i: int| is_right_at(s, x, i)
    };
    if s.len() == 0 {
        assert(seq![x] =~= s.insert(0, x));
    } else if ends_before_all(s, x) {
    } else if starts_after_all(s, x) {
        assert(s.push(x) =~= s.insert(s.len() as int, x));
    } else {
        let a = choose|j: int| 0 <= j < s.len() && !(x.end <= (#[trigger] s[j]).start);
        let b = choose|j: int| 0 <= j < s.len() && !((#[trigger] s[j]).end <= x.start);
        assert(is_clear_of(x, s[a]));
        assert(is_clear_of(x, s[b]));
        assert(has_left(s, x));
        assert(has_right(s, x));
        crate::intervals::right_exists(s, x);
    }
    assert(t == renumbered(s.insert(p, x)));
    assert(unnumbered(t) =~= unnumbered(s).insert(p, with_index(x, 0)));
    to_multiset_insert(unnumbered(s), p, with_index(x, 0));
}

/// Inserting intervals that are pairwise clear, in the order given,
/// succeeds at every step; the set built from the first `k` is ordered,
/// numbered by position, and holds exactly those `k` intervals.
pub proof fn clear_prefix_builds_ordered(xs: Seq<IntervalView>, k: nat)
    requires
        is_pairwise_clear(xs),
        k <= xs.len(),
    ensures
        built(xs, k).is_ok(),
        is_ordered(built(xs, k).unwrap()),
        is_numbered(built(xs, k).unwrap()),
        built(xs, k).unwrap().len() == k,
        contents(built(xs, k).unwrap()) == contents(xs.take(k as int)),
    decreases k,
{
    if k == 0 {
        assert(unnumbered(Seq::<IntervalView>::empty()) =~= unnumbered(xs.take(0)));
    } else {
        clear_prefix_builds_ordered(xs, (k - 1) as nat);
        let s = built(xs, (k - 1) as nat).unwrap();
        let x = xs[k - 1];
        contents_members(s);
        contents_members(xs.take(k - 1));
        assert forall|i: int| 0 <= i < s.len() implies is_clear_of(x, #[trigger] s[i]) by {
            let v = with_index(s[i], 0);
            assert(contents(s).count(v) > 0);
            let j = choose|j: int|
                0 <= j < xs.take(k - 1).len() && with_index(#[trigger] xs.take(k - 1)[j], 0) == v;
            assert(xs.take(k - 1)[j] == xs[j]);
            assert(is_clear_of(xs[k - 1], xs[j]));
        }
        clear_insertion_keeps_order(s, x);
        clear_insertion_adds_one(s, x);
        assert(unnumbered(xs.take(k as int)) =~= unnumbered(xs.take(k - 1)).push(with_index(x, 0)));
        to_multiset_build(unnumbered(xs.take(k - 1)), with_index(x, 0));
    }
}

/// Building a set from a vector of pairwise clear intervals succeeds
/// whatever their order in the vector; the set is ordered, numbered by
/// position, and holds exactly the intervals of the vector.
pub proof fn clear_vector_builds_ordered(xs: Seq<IntervalView>)
    requires
        is_pairwise_clear(xs),
    ensures
        built(xs, xs.len()).is_ok(),
        is_ordered(built(xs, xs.len()).unwrap()),
        is_numbered(built(xs, xs.len()).unwrap()),
        built(xs, xs.len()).unwrap().len() == xs.len(),
        contents(built(xs, xs.len()).unwrap()) == contents(xs),
{
    clear_prefix_builds_ordered(xs, xs.len());
    assert(xs.take(xs.len() as int) =~= xs);
}

/// Two ordered, numbered sets with the same contents, in which no two
/// intervals are empty at one point, are the same sequence.
pub proof fn ordered_arrangement_is_unique(a: Seq<IntervalView>, b: Seq<IntervalView>)
    requires
        is_ordered(a),
        is_ordered(b),
        is_numbered(a),
        is_numbered(b),
        has_no_twin_points(a),
        contents(a) == contents(b),
    ensures
        a == b,
    decreases a.len(),
{
    unnumbered(a).to_multiset_ensures();
    unnumbered(b).to_multiset_ensures();
    assert(a.len() == b.len());
    if a.len() == 0 {
        assert(a =~= b);
    } else {
        let n = a.len() as int;
        let la = a[n - 1];
        let lb = b[n - 1];
        contents_members(a);
        contents_members(b);
        assert(contents(b).count(with_index(la, 0)) > 0);
        assert(contents(a).count(with_index(lb, 0)) > 0);
        let k = choose|k: int| 0 <= k < b.len() && with_index(#[trigger] b[k], 0) == with_index(la, 0);
        let m = choose|m: int| 0 <= m < a.len() && with_index(#[trigger] a[m], 0) == with_index(lb, 0);
        assert(with_index(la, 0) == with_index(lb, 0)) by {
            if k != n - 1 && m != n - 1 {
                assert(b[k].end <= b[n - 1].start);
                assert(a[m].end <= a[n - 1].start);
                assert(a[m].start <= a[m].end);
                assert(a[n - 1].start <= a[n - 1].end);
                assert(b[k].start == la.start && b[k].end == la.end);
                assert(a[m].start == lb.start && a[m].end == lb.end);
                assert(false);
            }
        }
        assert(la == lb);
        let a1 = a.drop_last();
        let b1 = b.drop_last();
        assert(unnumbered(a1) =~= unnumbered(a).remove(n - 1));
        assert(unnumbered(b1) =~= unnumbered(b).remove(n - 1));
        to_multiset_remove(unnumbered(a), n - 1);
        to_multiset_remove(unnumbered(b), n - 1);
        assert(contents(a1) == contents(b1));
        assert(has_no_twin_points(a1)) by {
            assert forall|i: int, j: int|
                0 <= i < a1.len() && 0 <= j < a1.len() && i != j implies !((#[trigger] a1[i]).start
                == a1[i].end && a1[i].end == (#[trigger] a1[j]).start
                && a1[j].start == a1[j].end) by {
                assert(a1[i] == a[i] && a1[j] == a[j]);
            }
        }
        assert(is_ordered(a1)) by {
            assert forall|i: int| 0 <= i < a1.len() implies (#[trigger] a1[i]).start
                <= a1[i].end by {
                assert(a1[i] == a[i]);
            }
            assert forall|i: int, j: int| 0 <= i < j < a1.len() implies (#[trigger] a1[i]).end
                <= (#[trigger] a1[j]).start by {
                assert(a1[i] == a[i] && a1[j] == a[j]);
            }
        }
        assert(is_ordered(b1)) by {
            assert forall|i: int| 0 <= i < b1.len() implies (#[trigger] b1[i]).start
                <= b1[i].end by {
                assert(b1[i] == b[i]);
            }
            assert forall|i: int, j: int| 0 <= i < j < b1.len() implies (#[trigger] b1[i]).end
                <= (#[trigger] b1[j]).start by {
                assert(b1[i] == b[i] && b1[j] == b[j]);
            }
        }
        assert(is_numbered(a1)) by {
            assert forall|i: int| 0 <= i < a1.len() implies (#[trigger] a1[i]).index == i by {
                assert(a1[i] == a[i]);
            }
        }
        assert(is_numbered(b1)) by {
            assert forall|i: int| 0 <= i < b1.len() implies (#[trigger] b1[i]).index == i by {
                assert(b1[i] == b[i]);
            }
        }
        ordered_arrangement_is_unique(a1, b1);
        assert(a =~= a1.push(la));
        assert(b =~= b1.push(lb));
    }
}

/// A set built from pairwise clear intervals has twin points only where
/// the intervals it was built from have them.
proof fn twin_points_carry_over(xs: Seq<IntervalView>, s: Seq<IntervalView>)
    requires
        has_no_twin_points(xs),
        contents(s) == contents(xs),
    ensures
        has_no_twin_points(s),
{
    unnumbered(s).to_multiset_ensures();
    unnumbered(xs).to_multiset_ensures();
    contents_members(s);
    contents_members(xs);
    assert forall|i: int, j: int|
        0 <= i < s.len() && 0 <= j < s.len() && i != j implies !((#[trigger] s[i]).start
        == s[i].end && s[i].end == (#[trigger] s[j]).start && s[j].start
        == s[j].end) by {
        if s[i].start == s[i].end && s[i].end == s[j].start
            && s[j].start == s[j].end {
            let vi = with_index(s[i], 0);
            let vj = with_index(s[j], 0);
            assert(unnumbered(s)[i] == vi);
            assert(unnumbered(s)[j] == vj);
            if vi == vj {
                // one value at two positions of `s`: it occurs twice in `xs` too
                two_positions_count_twice(unnumbered(s), i, j);
                assert(contents(xs).count(vi) >= 2);
                counted_twice_has_two_positions(unnumbered(xs), vi);
                let p = choose|p: int, q: int|
                    0 <= p < q < unnumbered(xs).len() && unnumbered(xs)[p] == vi && unnumbered(
                        xs,
                    )[q] == vi;
                assert(unnumbered(xs)[p.0] == with_index(xs[p.0], 0));
                assert(unnumbered(xs)[p.1] == with_index(xs[p.1], 0));
                assert(xs[p.0].start == vi.start && xs[p.0].end == vi.end);
                assert(xs[p.1].start == vi.start && xs[p.1].end == vi.end);
                assert(false);
            } else {
                assert(contents(xs).count(vi) > 0);
                assert(contents(xs).count(vj) > 0);
                let p = choose|p: int| 0 <= p < xs.len() && with_index(#[trigger] xs[p], 0) == vi;
                let q = choose|q: int| 0 <= q < xs.len() && with_index(#[trigger] xs[q], 0) == vj;
                assert(p != q);
                assert(xs[p].start == vi.start && xs[p].end == vi.end);
                assert(xs[q].start == vj.start && xs[q].end == vj.end);
                assert(false);
            }
        }
    }
}

/// A value at two positions of a sequence is counted at least twice.
proof fn two_positions_count_twice<A>(s: Seq<A>, i: int, j: int)
    requires
        0 <= i < s.len(),
        0 <= j < s.len(),
        i != j,
        s[i] == s[j],
    ensures
        s.to_multiset().count(s[i]) >= 2,
{
    let (lo, hi) = if i < j {
        (i, j)
    } else {
        (j, i)
    };
    let v = s[i];
    let r = s.remove(hi);
    to_multiset_remove(s, hi);
    r.to_multiset_ensures();
    assert(r[lo] == v);
    assert(r.contains(v));
    assert(r.to_multiset().count(v) > 0);
}

/// A value counted at least twice stands at two positions of the
/// sequence.
proof fn counted_twice_has_two_positions<A>(s: Seq<A>, v: A)
    requires
        s.to_multiset().count(v) >= 2,
    ensures
        exists|p: int, q: int| 0 <= p < q < s.len() && s[p] == v && s[q] == v,
{
    s.to_multiset_ensures();
    assert(s.contains(v));
    let q = choose|q: int| 0 <= q < s.len() && s[q] == v;
    let r = s.remove(q);
    to_multiset_remove(s, q);
    r.to_multiset_ensures();
    assert(r.to_multiset().count(v) > 0);
    assert(r.contains(v));
    let p = choose|p: int| 0 <= p < r.len() && r[p] == v;
    if p < q {
        assert(s[p] == v);
        assert(0 <= p < q < s.len() && s[p] == v && s[q] == v);
    } else {
        assert(s[p + 1] == v);
        assert(0 <= q < p + 1 < s.len() && s[q] == v && s[p + 1] == v);
    }
}

/// Intervals that are pairwise clear stay so in any other arrangement of
/// the same contents.
proof fn clearness_carries_over(xs: Seq<IntervalView>, ys: Seq<IntervalView>)
    requires
        is_pairwise_clear(xs),
        contents(xs) == contents(ys),
    ensures
        is_pairwise_clear(ys),
{
    unnumbered(xs).to_multiset_ensures();
    unnumbered(ys).to_multiset_ensures();
    contents_members(xs);
    contents_members(ys);
    assert forall|i: int| 0 <= i < ys.len() implies (#[trigger] ys[i]).start <= ys[i].end by {
        let vi = with_index(ys[i], 0);
        assert(contents(xs).count(vi) > 0);
        let p = choose|p: int| 0 <= p < xs.len() && with_index(#[trigger] xs[p], 0) == vi;
        assert(xs[p].start == vi.start && xs[p].end == vi.end);
    }
    assert forall|i: int, j: int| 0 <= i < ys.len() && 0 <= j < ys.len() && i != j implies is_clear_of(
        #[trigger] ys[i],
        #[trigger] ys[j],
    ) by {
        let vi = with_index(ys[i], 0);
        let vj = with_index(ys[j], 0);
        assert(unnumbered(ys)[i] == vi);
        assert(unnumbered(ys)[j] == vj);
        if vi == vj {
            two_positions_count_twice(unnumbered(ys), i, j);
            counted_twice_has_two_positions(unnumbered(xs), vi);
            let p = choose|p: int, q: int|
                0 <= p < q < unnumbered(xs).len() && unnumbered(xs)[p] == vi && unnumbered(xs)[q]
                    == vi;
            assert(unnumbered(xs)[p.0] == with_index(xs[p.0], 0));
            assert(unnumbered(xs)[p.1] == with_index(xs[p.1], 0));
            assert(xs[p.0].start == vi.start && xs[p.0].end == vi.end);
            assert(xs[p.1].start == vi.start && xs[p.1].end == vi.end);
            assert(is_clear_of(xs[p.0], xs[p.1]));
        } else {
            assert(contents(xs).count(vi) > 0);
            assert(contents(xs).count(vj) > 0);
            let p = choose|p: int| 0 <= p < xs.len() && with_index(#[trigger] xs[p], 0) == vi;
            let q = choose|q: int| 0 <= q < xs.len() && with_index(#[trigger] xs[q], 0) == vj;
            assert(p != q);
            assert(xs[p].start == vi.start && xs[p].end == vi.end);
            assert(xs[q].start == vj.start && xs[q].end == vj.end);
            assert(is_clear_of(xs[p], xs[q]));
        }
    }
}

/// Two vectors that hold the same pairwise clear intervals, in whatever
/// order each, build the same set, provided no two of the intervals are
/// empty at one point.
pub proof fn insertion_order_does_not_matter(xs: Seq<IntervalView>, ys: Seq<IntervalView>)
    requires
        is_pairwise_clear(xs),
        has_no_twin_points(xs),
        contents(xs) == contents(ys),
    ensures
        built(xs, xs.len()).is_ok(),
        built(ys, ys.len()) == built(xs, xs.len()),
{
    unnumbered(xs).to_multiset_ensures();
    unnumbered(ys).to_multiset_ensures();
    clearness_carries_over(xs, ys);
    clear_vector_builds_ordered(xs);
    clear_vector_builds_ordered(ys);
    let a = built(xs, xs.len()).unwrap();
    let b = built(ys, ys.len()).unwrap();
    twin_points_carry_over(xs, a);
    ordered_arrangement_is_unique(a, b);
}

} // verus!
