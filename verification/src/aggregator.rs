//! From the per-category statistics that the dataset engine reports to
//! an ordered chart: which bucket a value falls into, which range of
//! values the buckets span, and the records in the order of the buckets.

use vstd::prelude::*;
use vstd::string::StringExecFns;
use crate::errors::DistributionError;
use crate::intervals::{is_axis_of, is_max_at, is_min_at, IntervalView, SortedIntervals};
use crate::model::{
    count_as_i32, signed_count, ChartView, DistributionChartData, IntervalData, IntervalDataView,
};
use crate::scalar::Scalar;

verus! {

/// The statistics of the rows that the engine assigned to one category.
/// Rows that fall into no bucket form the group without a category.
#[derive(Debug)]
pub struct BucketGroup {
    pub category: Option<String>,
    pub min: i32,
    pub max: i32,
    pub median: i32,
    pub count: u32,
    pub mean: i64,
    pub rsd: i64,
}

/// What a `BucketGroup` says.
pub struct BucketGroupView {
    pub category: Option<Seq<char>>,
    pub min: int,
    pub max: int,
    pub median: int,
    pub count: nat,
    pub mean: int,
    pub rsd: int,
}

impl View for BucketGroup {
    type V = BucketGroupView;

    open spec fn view(&self) -> BucketGroupView {
        BucketGroupView {
            category: match self.category {
                Some(c) => Some(c@),
                None => None,
            },
            min: self.min as int,
            max: self.max as int,
            median: self.median as int,
            count: self.count as nat,
            mean: self.mean as int,
            rsd: self.rsd as int,
        }
    }
}

/// The views of the groups of `v`, in their order.
pub open spec fn group_views(v: Seq<BucketGroup>) -> Seq<BucketGroupView> {
    Seq::new(v.len(), |i: int| v[i]@)
}

/// `i` is the first position of `s` whose interval contains `value`.
pub open spec fn is_bucket_of(s: Seq<IntervalView>, value: int, i: int) -> bool {
    &&& 0 <= i < s.len()
    &&& s[i].contains(value)
    &&& forall|j: int| 0 <= j < i ==> !(#[trigger] s[j]).contains(value)
}

/// `g` is the first position of `groups` that carries `category`.
pub open spec fn is_group_of(groups: Seq<BucketGroupView>, category: Seq<char>, g: int) -> bool {
    &&& 0 <= g < groups.len()
    &&& groups[g].category == Some(category)
    &&& forall|h: int| 0 <= h < g ==> (#[trigger] groups[h]).category != Some(category)
}

/// Some group carries `category`.
pub open spec fn has_group(groups: Seq<BucketGroupView>, category: Seq<char>) -> bool {
    exists|g: int| 0 <= g < groups.len() && (#[trigger] groups[g]).category == Some(category)
}

/// The chart record of `group` for `column`, labelled `category`.
pub open spec fn record_of(
    column: Seq<char>,
    category: Seq<char>,
    group: BucketGroupView,
) -> IntervalDataView {
    IntervalDataView {
        column,
        category,
        min: group.min,
        max: group.max,
        median: group.median,
        count: signed_count(group.count as u32),
        mean: group.mean,
        rsd: group.rsd,
    }
}

/// The records of the first `k` intervals of `s`, in their order: for
/// each interval the figures of the first group that carries its
/// category. Intervals whose category no group carries leave no record.
pub open spec fn records_of(
    column: Seq<char>,
    s: Seq<IntervalView>,
    groups: Seq<BucketGroupView>,
    k: nat,
) -> Seq<IntervalDataView>
    decreases k,
{
    if k == 0 {
        Seq::empty()
    } else {
        let before = records_of(column, s, groups, (k - 1) as nat);
        let category = s[k - 1].category;
        if has_group(groups, category) {
            before.push(
                record_of(column, category, groups[choose|g: int| is_group_of(groups, category, g)]),
            )
        } else {
            before
        }
    }
}

/// The number of groups as the response carries it: at most `i32::MAX`.
pub open spec fn group_count(n: nat) -> int {
    if n <= i32::MAX {
        n as int
    } else {
        i32::MAX as int
    }
}

/// `chart` is the chart of the buckets `s` of `column` with the figures
/// of `groups`: it names the column, has the boundary values as axis, one
/// record for each bucket that a group carries, the number of groups as
/// `count`, and zero for the other figures of the whole range.
pub open spec fn is_bucket_chart(
    chart: ChartView,
    column: Seq<char>,
    s: Seq<IntervalView>,
    groups: Seq<BucketGroupView>,
) -> bool {
    &&& chart.axis_label == column
    &&& chart.data_label == "stat_category"@
    &&& is_axis_of(chart.axis_values, s)
    &&& chart.min == 0
    &&& chart.max == 0
    &&& chart.median == 0
    &&& chart.mean == 0
    &&& chart.rsd == 0
    &&& chart.count == group_count(groups.len())
    &&& chart.data == records_of(column, s, groups, s.len())
}

/// At most one position is the first to carry `category`.
pub proof fn group_is_unique(groups: Seq<BucketGroupView>, category: Seq<char>, a: int, b: int)
    requires
        is_group_of(groups, category, a),
        is_group_of(groups, category, b),
    ensures
        a == b,
{
}

impl<T: Scalar> SortedIntervals<T> {
    /// The position of the bucket that `value` is assigned to: the first
    /// interval, in the order of the set, that contains it. A value that
    /// no interval contains is assigned to none.
    pub fn bucket_of(&self, value: T) -> (r: Option<usize>)
        ensures
            r matches Some(i) ==> is_bucket_of(self@, value.rank(), i as int),
            r is None ==> forall|j: int|
                0 <= j < self@.len() ==> !(#[trigger] self@[j]).contains(value.rank()),
    {
        let mut i: usize = 0;
        while i < self.intervals.len()
            invariant
                0 <= i <= self.intervals.len(),
                forall|j: int| 0 <= j < i ==> !(#[trigger] self@[j]).contains(value.rank()),
            decreases self.intervals.len() - i,
        {
            if self.intervals[i].start.le(&value) && value.lt(&self.intervals[i].end) {
                return Some(i);
            }
            i += 1;
        }
        None
    }

    /// The range of values that the buckets span: from the smallest
    /// `start` to the largest `end`. None for an empty set.
    pub fn span(&self) -> (r: Option<(T, T)>)
        ensures
            self@.len() == 0 ==> r is None,
            self@.len() > 0 ==> (r matches Some(range) && exists|i: int, j: int|
                is_min_at(self@, i) && is_max_at(self@, j) && range.0.rank() == self@[i].start
                    && range.1.rank() == self@[j].end),
    {
        match self.min_position() {
            None => None,
            Some(lo) => {
                let hi = self.max_position().unwrap();
                Some((self.intervals[lo].start, self.intervals[hi].end))
            },
        }
    }
}

/// The position of the first group that carries `category`.
fn find_group(groups: &Vec<BucketGroup>, category: &String) -> (r: Option<usize>)
    ensures
        r is Some == has_group(group_views(groups@), category@),
        r matches Some(g) ==> is_group_of(group_views(groups@), category@, g as int),
{
    let mut g: usize = 0;
    while g < groups.len()
        invariant
            0 <= g <= groups.len(),
            forall|h: int|
                0 <= h < g ==> (#[trigger] group_views(groups@)[h]).category != Some(category@),
        decreases groups.len() - g,
    {
        match &groups[g].category {
            Some(c) => {
                if *c == *category {
                    assert(group_views(groups@)[g as int].category == Some(category@));
                    return Some(g);
                }
            },
            None => {},
        }
        g += 1;
    }
    None
}

/// Assembles the chart of `column_name` from the buckets and from the
/// statistics the engine reports for each category.
///
/// Refused for an empty set. Otherwise the chart names the column, has
/// the boundary values of the set as axis values, and holds one record
/// for each interval whose category some group carries: the first such
/// group's figures, in the order of the intervals. Groups that match no
/// interval are dropped; intervals without a group leave no record. The
/// figures of the whole range are zero and `count` is the number of
/// groups.
pub fn calculate(
    column_name: &str,
    intervals: &SortedIntervals<i32>,
    groups: &Vec<BucketGroup>,
) -> (r: Result<DistributionChartData<i32>, DistributionError>)
    ensures
        intervals@.len() == 0 ==> (r matches Err(e) && e == DistributionError::EmptyIntervalSet),
        intervals@.len() > 0 ==> (r matches Ok(chart) && is_bucket_chart(
            chart@,
            column_name@,
            intervals@,
            group_views(groups@),
        )),
{
    if intervals.is_empty() {
        return Err(DistributionError::EmptyIntervalSet);
    }
    let ghost gv = group_views(groups@);
    let mut data: Vec<IntervalData<i32>> = Vec::new();
    let mut i: usize = 0;
    assert(Seq::new(data@.len(), |j: int| data@[j]@) =~= records_of(
        column_name@,
        intervals@,
        gv,
        0,
    ));
    while i < intervals.intervals.len()
        invariant
            0 <= i <= intervals.intervals.len(),
            gv == group_views(groups@),
            Seq::new(data@.len(), |j: int| data@[j]@) == records_of(
                column_name@,
                intervals@,
                gv,
                i as nat,
            ),
        decreases intervals.intervals.len() - i,
    {
        let ghost before = Seq::new(data@.len(), |j: int| data@[j]@);
        let ghost category = intervals@[i as int].category;
        match find_group(groups, &intervals.intervals[i].category) {
            Some(g) => {
                proof {
                    group_is_unique(
                        gv,
                        category,
                        g as int,
                        choose|g: int| is_group_of(gv, category, g),
                    );
                }
                let group = &groups[g];
                let record = IntervalData {
                    column: String::from_str(column_name),
                    category: intervals.intervals[i].category.clone(),
                    min: group.min,
                    max: group.max,
                    median: group.median,
                    count: count_as_i32(group.count),
                    mean: group.mean,
                    rsd: group.rsd,
                };
                assert(record@ == record_of(column_name@, category, gv[g as int]));
                data.push(record);
                assert(Seq::new(data@.len(), |j: int| data@[j]@) =~= before.push(record@));
            },
            None => {},
        }
        i += 1;
    }
    let count: i32 = if groups.len() <= 0x7fff_ffff {
        groups.len() as i32
    } else {
        i32::MAX
    };
    let axis = intervals.values();
    Ok(
        DistributionChartData {
            axisLabel: String::from_str(column_name),
            dataLabel: String::from_str("stat_category"),
            axisValues: axis,
            min: 0,
            max: 0,
            median: 0,
            count,
            mean: 0,
            rsd: 0,
            data,
        },
    )
}

} // verus!
