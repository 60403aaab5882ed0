//! Cutting a value range into buckets, by fixed width or by quantile, and
//! the whole way from the engine's figures to a distribution chart.

use vstd::prelude::*;
use vstd::string::StringExecFns;
use crate::aggregator::{calculate, group_views, records_of, BucketGroup, BucketGroupView};
use crate::interval_laws::{
    clear_vector_builds_ordered, contents, has_no_twin_points, is_pairwise_clear,
    ordered_arrangement_is_unique, unnumbered,
};
use crate::errors::DistributionError;
use crate::intervals::{
    built, is_axis_of, is_clear_of, is_numbered, is_ordered, renumbered, views, Interval,
    IntervalView, SortedIntervals,
};
use crate::model::{
    count_as_i32, signed_count, ChartView, DistributionChartData, DistributionType, StatInterval,
    StatIntervalView, Statistics, StatisticsView,
};
use crate::quantiles::{Quantile, QuantileView};
use crate::text::{decimal, decimal_digits};

verus! {

/// The smallest number of buckets a distribution may have.
pub const MIN_BINS: usize = 2;

/// The width of each of `bins` equal buckets between `start` and `end`:
/// the whole part of `(end - start) / bins`.
pub open spec fn step_of(start: int, end: int, bins: nat) -> int
    recommends
        bins > 0,
{
    let width = end - start;
    if width >= 0 {
        width / (bins as int)
    } else {
        -((-width) / (bins as int))
    }
}

/// The bucket with ordinal `i` among `bins` equal buckets from `start`.
pub open spec fn interval_bin(column: Seq<char>, start: int, end: int, bins: nat, i: int) -> IntervalView {
    IntervalView {
        column,
        start: start + i * step_of(start, end, bins),
        end: start + (i + 1) * step_of(start, end, bins),
        category: decimal_digits(i as nat),
        index: 0,
    }
}

/// `bins` equal buckets from `start`, labelled `0`, `1`, and so on.
pub open spec fn equal_bins(column: Seq<char>, start: int, end: int, bins: nat) -> Seq<
    IntervalView,
> {
    Seq::new(bins, |i: int| interval_bin(column, start, end, bins, i))
}

/// The bucket that ends at the quantile at position `i`: it starts at
/// `minimum` for the first quantile, else at the quantile before.
pub open spec fn quantile_bin(
    column: Seq<char>,
    minimum: int,
    quantiles: Seq<QuantileView>,
    i: int,
) -> IntervalView {
    IntervalView {
        column,
        start: if i == 0 {
            minimum
        } else {
            quantiles[i - 1].value
        },
        end: quantiles[i].value,
        category: decimal_digits((i + 1) as nat),
        index: i as nat,
    }
}

/// One bucket for each quantile, labelled `1`, `2`, and so on.
pub open spec fn bins_at_quantiles(
    column: Seq<char>,
    minimum: int,
    quantiles: Seq<QuantileView>,
) -> Seq<IntervalView> {
    Seq::new(quantiles.len(), |i: int| quantile_bin(column, minimum, quantiles, i))
}

/// The buckets of a distribution of the given kind.
pub open spec fn bins_of(
    column: Seq<char>,
    distribution_type: DistributionType,
    bins: nat,
    start: int,
    end: int,
    statistics: StatisticsView,
) -> Seq<IntervalView> {
    match distribution_type {
        DistributionType::ByInterval => equal_bins(column, start, end, bins),
        DistributionType::ByQuantile => bins_at_quantiles(
            column,
            statistics.min,
            statistics.quantiles,
        ),
    }
}

/// The range that a distribution is taken over: the trimmed bounds where
/// `trimmed` is set, else the untrimmed ones, as an interval labelled
/// `all`.
pub open spec fn range_of(stat: StatIntervalView, trimmed: bool) -> IntervalView {
    IntervalView {
        column: stat.column,
        start: if trimmed {
            stat.start
        } else {
            stat.orig_start
        },
        end: if trimmed {
            stat.end
        } else {
            stat.orig_end
        },
        category: "all"@,
        index: 0,
    }
}

/// The range that a distribution is taken over: the trimmed bounds where
/// `trimmed` is set, else the untrimmed ones.
pub fn select_range(stat: &StatInterval, trimmed: bool) -> (r: Interval<i32>)
    ensures
        r@ == range_of(stat@, trimmed),
{
    Interval {
        column: stat.column.clone(),
        start: if trimmed {
            stat.start
        } else {
            stat.orig_start
        },
        end: if trimmed {
            stat.end
        } else {
            stat.orig_end
        },
        category: String::from_str("all"),
        index: 0,
    }
}

/// What `i` steps from `start` come to stays between `start` and `end`.
proof fn steps_stay_in_range(start: int, end: int, bins: nat, i: int)
    requires
        bins > 0,
        0 <= i <= bins,
    ensures
        start <= end ==> start <= start + i * step_of(start, end, bins) <= end,
        end <= start ==> end <= start + i * step_of(start, end, bins) <= start,
{
    let n = bins as int;
    let width = end - start;
    if width >= 0 {
        let q = width / n;
        assert(0 <= i * q <= width) by (nonlinear_arith)
            requires
                q == width / n,
                n > 0,
                width >= 0,
                0 <= i <= n,
        ;
    } else {
        let q = (-width) / n;
        assert(0 <= i * q <= -width) by (nonlinear_arith)
            requires
                q == (-width) / n,
                n > 0,
                width < 0,
                0 <= i <= n,
        ;
        assert(i * (-q) == -(i * q)) by (nonlinear_arith);
    }
}

/// Computes `step_of(start, end, bins)`.
fn step(start: i32, end: i32, bins: usize) -> (r: i64)
    requires
        bins > 0,
    ensures
        r == step_of(start as int, end as int, bins as nat),
        bins > u32::MAX ==> r == 0,
{
    let width: i64 = end as i64 - start as i64;
    if bins > 0xffff_ffff {
        let ghost n = bins as int;
        assert(width >= 0 ==> width as int / n == 0) by (nonlinear_arith)
            requires
                -n < width < n,
                n > 0,
        ;
        assert(width < 0 ==> (-(width as int)) / n == 0) by (nonlinear_arith)
            requires
                -n < width < n,
                n > 0,
        ;
        0
    } else {
        let n: i64 = bins as i64;
        if width >= 0 {
            width / n
        } else {
            -((-width) / n)
        }
    }
}

/// `bins` buckets of equal width from `start` towards `end`, each as wide
/// as the whole part of `(end - start) / bins`, labelled with their
/// ordinals from `0`.
pub fn interval_bins(column: &str, start: i32, end: i32, bins: usize) -> (r: Vec<Interval<i32>>)
    ensures
        views(r@) == equal_bins(column@, start as int, end as int, bins as nat),
{
    let mut out: Vec<Interval<i32>> = Vec::new();
    if bins == 0 {
        assert(views(out@) =~= equal_bins(column@, start as int, end as int, bins as nat));
        return out;
    }
    let width_step = step(start, end, bins);
    let mut i: usize = 0;
    while i < bins
        invariant
            0 <= i <= bins,
            bins > 0,
            width_step == step_of(start as int, end as int, bins as nat),
            bins > u32::MAX ==> width_step == 0,
            out@.len() == i,
            forall|j: int|
                0 <= j < i ==> (#[trigger] out@[j])@ == interval_bin(
                    column@,
                    start as int,
                    end as int,
                    bins as nat,
                    j,
                ),
        decreases bins - i,
    {
        proof {
            steps_stay_in_range(start as int, end as int, bins as nat, i as int);
            steps_stay_in_range(start as int, end as int, bins as nat, i + 1);
        }
        let (lo, hi) = if width_step == 0 {
            assert(i * 0 == 0 && (i + 1) * 0 == 0) by (nonlinear_arith);
            (start, start)
        } else {
            let k: i64 = i as i64;
            let ghost s = width_step as int;
            assert(-0x1_0000_0000 < k * s < 0x1_0000_0000 && -0x1_0000_0000 < (k + 1) * s
                < 0x1_0000_0000) by {
                assert(i32::MIN <= start + k * s <= i32::MAX);
                assert(i32::MIN <= start + (k + 1) * s <= i32::MAX);
            }
            let lo: i64 = start as i64 + k * width_step;
            let hi: i64 = start as i64 + (k + 1) * width_step;
            (lo as i32, hi as i32)
        };
        out.push(
            Interval {
                column: String::from_str(column),
                start: lo,
                end: hi,
                category: decimal(i as u64),
                index: 0,
            },
        );
        i += 1;
    }
    assert(views(out@) =~= equal_bins(column@, start as int, end as int, bins as nat));
    out
}

/// One bucket for each quantile, from `minimum` to the first quantile's
/// value and then from each quantile's value to the next, labelled with
/// their ordinals from `1`.
pub fn quantile_bins(column: &str, minimum: i32, quantiles: &Vec<Quantile>) -> (r: Vec<Interval<i32>>)
    ensures
        views(r@) == bins_at_quantiles(
            column@,
            minimum as int,
            crate::statistics::quantile_views(quantiles@),
        ),
{
    let ghost qv = crate::statistics::quantile_views(quantiles@);
    let mut out: Vec<Interval<i32>> = Vec::new();
    let mut i: usize = 0;
    while i < quantiles.len()
        invariant
            0 <= i <= quantiles.len(),
            qv == crate::statistics::quantile_views(quantiles@),
            out@.len() == i,
            forall|j: int|
                0 <= j < i ==> (#[trigger] out@[j])@ == quantile_bin(column@, minimum as int, qv, j),
        decreases quantiles.len() - i,
    {
        let lo = if i == 0 {
            minimum
        } else {
            quantiles[i - 1].value
        };
        out.push(
            Interval {
                column: String::from_str(column),
                start: lo,
                end: quantiles[i].value,
                category: decimal((i as u64) + 1),
                index: i,
            },
        );
        i += 1;
    }
    assert(views(out@) =~= bins_at_quantiles(column@, minimum as int, qv));
    out
}

/// The buckets of a distribution of the given kind over `start` to `end`:
/// `number_of_bins` equal ones, or one for each quantile of `statistics`
/// from its minimum on.
pub fn bin_intervals(
    column: &str,
    distribution_type: DistributionType,
    number_of_bins: usize,
    start: i32,
    end: i32,
    statistics: &Statistics,
) -> (r: Vec<Interval<i32>>)
    ensures
        views(r@) == bins_of(
            column@,
            distribution_type,
            number_of_bins as nat,
            start as int,
            end as int,
            statistics@,
        ),
{
    match distribution_type {
        DistributionType::ByInterval => interval_bins(column, start, end, number_of_bins),
        DistributionType::ByQuantile => {
            assert(crate::statistics::quantile_views(statistics.quantiles@) =~= statistics@.quantiles);
            quantile_bins(column, statistics.min, &statistics.quantiles)
        },
    }
}

/// `chart` is the distribution chart of the buckets `s` of `column`: the
/// boundary values as axis, one record for each bucket that a group
/// carries, and the figures of the whole range from `statistics`.
pub open spec fn is_distribution_chart(
    chart: ChartView,
    column: Seq<char>,
    s: Seq<IntervalView>,
    groups: Seq<BucketGroupView>,
    statistics: StatisticsView,
) -> bool {
    &&& chart.axis_label == column
    &&& chart.data_label == "stat_category"@
    &&& is_axis_of(chart.axis_values, s)
    &&& chart.data == records_of(column, s, groups, s.len())
    &&& chart.count == signed_count(statistics.count as u32)
    &&& chart.mean == statistics.mean
    &&& chart.rsd == statistics.rsd
    &&& chart.median == statistics.median
    &&& chart.max == statistics.max
    &&& chart.min == statistics.min
}

/// The distribution chart of `column` from what the engine reports:
/// the bounds `stat_interval`, the `statistics` of the range chosen, and
/// the figures `groups` of the rows of each bucket.
///
/// Fewer than two buckets are refused as an invalid argument. The range
/// is the trimmed one where `all` is set, else the untrimmed one. The
/// buckets are built for the kind of distribution and inserted into a
/// set one by one; the first refusal is the result. A set without
/// buckets is refused as empty. Otherwise the chart holds the buckets'
/// boundary values, their records in the order of the set, and the
/// figures of `statistics` for the whole range.
pub fn data_to_bins(
    column: &str,
    all: bool,
    distribution_type: DistributionType,
    number_of_bins: usize,
    stat_interval: &StatInterval,
    statistics: &Statistics,
    groups: &Vec<BucketGroup>,
) -> (r: Result<DistributionChartData<i32>, DistributionError>)
    ensures
        number_of_bins < MIN_BINS ==> (r matches Err(e) && e == DistributionError::InvalidArgument),
        number_of_bins >= MIN_BINS ==> ({
            let range = range_of(stat_interval@, all);
            let bins = bins_of(
                column@,
                distribution_type,
                number_of_bins as nat,
                range.start,
                range.end,
                statistics@,
            );
            match built(bins, bins.len()) {
                Err(refusal) => r matches Err(e) && e == refusal,
                Ok(s) => if s.len() == 0 {
                    r matches Err(e) && e == DistributionError::EmptyIntervalSet
                } else {
                    r matches Ok(chart) && is_distribution_chart(
                        chart@,
                        column@,
                        s,
                        group_views(groups@),
                        statistics@,
                    )
                },
            }
        }),
{
    if number_of_bins < MIN_BINS {
        return Err(DistributionError::InvalidArgument);
    }
    let range = select_range(stat_interval, all);
    let bins = bin_intervals(
        column,
        distribution_type,
        number_of_bins,
        range.start,
        range.end,
        statistics,
    );
    let set = match SortedIntervals::from(bins) {
        Ok(set) => set,
        Err(e) => {
            return Err(e);
        },
    };
    let mut chart = match calculate(column, &set, groups) {
        Ok(chart) => chart,
        Err(e) => {
            return Err(e);
        },
    };
    chart.count = count_as_i32(statistics.count);
    chart.mean = statistics.mean;
    chart.rsd = statistics.rsd;
    chart.median = statistics.median;
    chart.max = statistics.max;
    chart.min = statistics.min;
    Ok(chart)
}

/// Equal-width buckets are what their name says: there are `bins` of
/// them, each of the width `(end - start) / bins` rounded down, the first
/// starts at `start`, each starts where the one before ends, the last
/// ends at or before `end`, and they are labelled `0` to `bins - 1`.
pub proof fn interval_bins_are_equal_width(column: Seq<char>, start: int, end: int, bins: nat)
    requires
        bins > 0,
        start <= end,
    ensures
        ({
            let b = equal_bins(column, start, end, bins);
            let step = (end - start) / (bins as int);
            &&& b.len() == bins
            &&& 0 <= step
            &&& b[0].start == start
            &&& b[bins - 1].end == start + bins * step
            &&& start + bins * step <= end < start + bins * step + bins
            &&& forall|i: int| 0 <= i < bins ==> (#[trigger] b[i]).end - b[i].start == step
            &&& forall|i: int| 0 <= i < bins - 1 ==> (#[trigger] b[i]).end == b[i + 1].start
            &&& forall|i: int| 0 <= i < bins ==> (#[trigger] b[i]).category == decimal_digits(i as nat)
            &&& forall|i: int| 0 <= i < bins ==> (#[trigger] b[i]).column == column
        }),
{
    let b = equal_bins(column, start, end, bins);
    let n = bins as int;
    let width = end - start;
    let step = width / n;
    assert(0 <= step && n * step <= width < n * step + n) by (nonlinear_arith)
        requires
            step == width / n,
            n > 0,
            width >= 0,
    ;
    assert(0 * step == 0) by (nonlinear_arith);
    assert forall|i: int| 0 <= i < bins implies (#[trigger] b[i]).end - b[i].start == step by {
        assert((i + 1) * step - i * step == step) by (nonlinear_arith);
    }
    assert(b[bins - 1].end == start + bins * step) by {
        assert((bins - 1 + 1) * step == bins * step);
    }
}

/// Equal-width buckets over a range that does not end before it starts
/// are pairwise clear.
proof fn interval_bins_are_clear(column: Seq<char>, start: int, end: int, bins: nat)
    requires
        bins > 0,
        start <= end,
    ensures
        is_pairwise_clear(equal_bins(column, start, end, bins)),
        step_of(start, end, bins) > 0 ==> has_no_twin_points(
            equal_bins(column, start, end, bins),
        ),
{
    let b = equal_bins(column, start, end, bins);
    let step = step_of(start, end, bins);
    let n = bins as int;
    let width = end - start;
    assert(0 <= step) by (nonlinear_arith)
        requires
            step == width / n,
            n > 0,
            width >= 0,
    ;
    assert forall|i: int| 0 <= i < b.len() implies (#[trigger] b[i]).start <= b[i].end by {
        assert((i + 1) * step == i * step + step) by (nonlinear_arith);
    }
    assert forall|i: int, j: int| 0 <= i < b.len() && 0 <= j < b.len() && i != j implies is_clear_of(
        #[trigger] b[i],
        #[trigger] b[j],
    ) by {
        if i < j {
            assert((i + 1) * step <= j * step) by (nonlinear_arith)
                requires
                    i + 1 <= j,
                    0 <= step,
            ;
        } else {
            assert((j + 1) * step <= i * step) by (nonlinear_arith)
                requires
                    j + 1 <= i,
                    0 <= step,
            ;
        }
    }
    if step > 0 {
        assert forall|i: int, j: int|
            0 <= i < b.len() && 0 <= j < b.len() && i != j implies !((#[trigger] b[i]).start
            == b[i].end && b[i].end == (#[trigger] b[j]).start && b[j].start == b[j].end) by {
            assert((i + 1) * step == i * step + step) by (nonlinear_arith);
        }
    }
}

/// Equal-width buckets over a range that does not end before it starts
/// always form a set: the insertion succeeds, and the set is ordered,
/// numbered by position, and holds exactly the buckets. Where the
/// buckets are not empty, the set has them in the order of their labels.
pub proof fn interval_bins_form_a_set(column: Seq<char>, start: int, end: int, bins: nat)
    requires
        bins > 0,
        start <= end,
    ensures
        ({
            let b = equal_bins(column, start, end, bins);
            &&& built(b, bins) matches Ok(s) && is_ordered(s) && is_numbered(s) && s.len() == bins
                && contents(s) == contents(b)
            &&& step_of(start, end, bins) > 0 ==> built(b, bins) == Ok::<
                Seq<IntervalView>,
                DistributionError,
            >(renumbered(b))
        }),
{
    let b = equal_bins(column, start, end, bins);
    interval_bins_are_clear(column, start, end, bins);
    clear_vector_builds_ordered(b);
    let s = built(b, b.len()).unwrap();
    if step_of(start, end, bins) > 0 {
        let r = renumbered(b);
        assert(unnumbered(r) =~= unnumbered(b));
        assert(is_ordered(r)) by {
            assert forall|i: int| 0 <= i < r.len() implies (#[trigger] r[i]).start <= r[i].end by {
                assert(b[i].start <= b[i].end);
            }
            assert forall|i: int, j: int| 0 <= i < j < r.len() implies (#[trigger] r[i]).end <= (
            #[trigger] r[j]).start by {
                assert(is_clear_of(b[i], b[j]));
                assert(b[i].start < b[i].end) by {
                    assert((i + 1) * step_of(start, end, bins) == i * step_of(start, end, bins)
                        + step_of(start, end, bins)) by (nonlinear_arith);
                }
                assert(b[j].start < b[j].end) by {
                    assert((j + 1) * step_of(start, end, bins) == j * step_of(start, end, bins)
                        + step_of(start, end, bins)) by (nonlinear_arith);
                }
                assert(b[i].start < b[j].start) by {
                    assert(i * step_of(start, end, bins) < j * step_of(start, end, bins))
                        by (nonlinear_arith)
                        requires
                            i < j,
                            step_of(start, end, bins) > 0,
                    ;
                }
            }
        }
        assert(has_no_twin_points(r)) by {
            assert forall|i: int, j: int|
                0 <= i < r.len() && 0 <= j < r.len() && i != j implies !((#[trigger] r[i]).start
                == r[i].end && r[i].end == (#[trigger] r[j]).start && r[j].start == r[j].end) by {
                assert(!(b[i].start == b[i].end && b[i].end == b[j].start && b[j].start
                    == b[j].end));
            }
        }
        ordered_arrangement_is_unique(r, s);
    }
}

/// Quantile buckets follow the quantiles: there is one for each, the
/// first starts at `minimum`, each ends at its quantile's value and
/// starts where the one before ends, and they are labelled `1` to the
/// number of quantiles.
pub proof fn quantile_bins_follow_quantiles(
    column: Seq<char>,
    minimum: int,
    quantiles: Seq<QuantileView>,
)
    ensures
        ({
            let b = bins_at_quantiles(column, minimum, quantiles);
            &&& b.len() == quantiles.len()
            &&& quantiles.len() > 0 ==> b[0].start == minimum
            &&& forall|i: int| 0 <= i < b.len() ==> (#[trigger] b[i]).end == quantiles[i].value
            &&& forall|i: int| 0 < i < b.len() ==> (#[trigger] b[i]).start == b[i - 1].end
            &&& forall|i: int|
                0 <= i < b.len() ==> (#[trigger] b[i]).category == decimal_digits((i + 1) as nat)
            &&& forall|i: int| 0 <= i < b.len() ==> (#[trigger] b[i]).column == column
        }),
{
}

/// Quantile buckets whose boundaries never go down, from the minimum
/// through the quantile values, always form a set: the insertion
/// succeeds, and the set is ordered, numbered by position, and holds
/// exactly the buckets.
pub proof fn quantile_bins_form_a_set(column: Seq<char>, minimum: int, quantiles: Seq<QuantileView>)
    requires
        quantiles.len() > 0 ==> minimum <= quantiles[0].value,
        forall|i: int, j: int|
            0 <= i <= j < quantiles.len() ==> (#[trigger] quantiles[i]).value <= (
            #[trigger] quantiles[j]).value,
    ensures
        ({
            let b = bins_at_quantiles(column, minimum, quantiles);
            built(b, b.len()) matches Ok(s) && is_ordered(s) && is_numbered(s) && s.len()
                == quantiles.len() && contents(s) == contents(b)
        }),
{
    let b = bins_at_quantiles(column, minimum, quantiles);
    assert forall|i: int| 0 <= i < b.len() implies (#[trigger] b[i]).start <= b[i].end by {
        if i > 0 {
            assert(quantiles[i - 1].value <= quantiles[i].value);
        }
    }
    assert forall|i: int, j: int| 0 <= i < b.len() && 0 <= j < b.len() && i != j implies is_clear_of(
        #[trigger] b[i],
        #[trigger] b[j],
    ) by {
        if i < j {
            assert(quantiles[i].value <= quantiles[j - 1].value);
        } else {
            assert(quantiles[j].value <= quantiles[i - 1].value);
        }
    }
    clear_vector_builds_ordered(b);
}

} // verus!
