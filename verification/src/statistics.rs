//! The statistics of a column over a value range, put together from what
//! the dataset engine reports.

use vstd::prelude::*;
use crate::errors::DistributionError;
use crate::model::{Statistics, StatisticsView};
use crate::quantiles::{generate_quantiles, quantile_at, Quantile, QuantileView};

verus! {

/// The aggregates that the engine reports of a column over a range.
#[derive(Debug, Clone, Copy, PartialEq, Eq, Structural)]
pub struct RangeSummary {
    pub count: u32,
    pub min: i32,
    pub max: i32,
    pub mean: i64,
    pub median: i32,
    pub rsd: i64,
}

/// The value that the engine reports for the quantile labelled `alias`.
#[derive(Debug)]
pub struct QuantileValue {
    pub alias: String,
    pub value: i32,
}

/// What a `QuantileValue` says.
pub struct QuantileValueView {
    pub alias: Seq<char>,
    pub value: int,
}

impl View for QuantileValue {
    type V = QuantileValueView;

    open spec fn view(&self) -> QuantileValueView {
        QuantileValueView { alias: self.alias@, value: self.value as int }
    }
}

/// The views of the values of `v`, in their order.
pub open spec fn value_views(v: Seq<QuantileValue>) -> Seq<QuantileValueView> {
    Seq::new(v.len(), |i: int| v[i]@)
}

/// The views of the quantiles of `v`, in their order.
pub open spec fn quantile_views(v: Seq<Quantile>) -> Seq<QuantileView> {
    Seq::new(v.len(), |i: int| v[i]@)
}

/// `g` is the first position of `values` labelled `alias`.
pub open spec fn is_value_at(values: Seq<QuantileValueView>, alias: Seq<char>, g: int) -> bool {
    &&& 0 <= g < values.len()
    &&& values[g].alias == alias
    &&& forall|h: int| 0 <= h < g ==> (#[trigger] values[h]).alias != alias
}

/// Some value is labelled `alias`.
pub open spec fn has_value(values: Seq<QuantileValueView>, alias: Seq<char>) -> bool {
    exists|g: int| 0 <= g < values.len() && (#[trigger] values[g]).alias == alias
}

/// Every quantile of `source` has a value reported under its label.
pub open spec fn all_have_values(source: Seq<QuantileView>, values: Seq<QuantileValueView>) -> bool {
    forall|i: int| 0 <= i < source.len() ==> has_value(values, (#[trigger] source[i]).alias)
}

/// `q` with the first value reported under its label.
pub open spec fn with_value(q: QuantileView, values: Seq<QuantileValueView>) -> QuantileView {
    QuantileView {
        column: q.column,
        bin: q.bin,
        bins: q.bins,
        value: values[choose|g: int| is_value_at(values, q.alias, g)].value,
        alias: q.alias,
    }
}

/// The statistics made of the aggregates `summary` and of the quantiles
/// `source`, each with its reported value.
pub open spec fn statistics_of(
    summary: RangeSummary,
    source: Seq<QuantileView>,
    values: Seq<QuantileValueView>,
) -> StatisticsView {
    StatisticsView {
        count: summary.count as nat,
        min: summary.min as int,
        max: summary.max as int,
        mean: summary.mean as int,
        median: summary.median as int,
        rsd: summary.rsd as int,
        quantiles: Seq::new(source.len(), |i: int| with_value(source[i], values)),
    }
}

/// The `bins` evenly spaced quantiles of `column`, without values.
pub open spec fn evenly_spaced_quantiles(column: Seq<char>, bins: nat) -> Seq<QuantileView> {
    Seq::new(bins, |i: int| quantile_at(column, (i + 1) as nat, bins))
}

/// At most one position is the first labelled `alias`.
pub proof fn value_is_unique(values: Seq<QuantileValueView>, alias: Seq<char>, a: int, b: int)
    requires
        is_value_at(values, alias, a),
        is_value_at(values, alias, b),
    ensures
        a == b,
{
}

/// The position of the first value labelled `alias`.
fn find_value(values: &Vec<QuantileValue>, alias: &String) -> (r: Option<usize>)
    ensures
        r is Some == has_value(value_views(values@), alias@),
        r matches Some(g) ==> is_value_at(value_views(values@), alias@, g as int),
{
    let mut g: usize = 0;
    while g < values.len()
        invariant
            0 <= g <= values.len(),
            forall|h: int| 0 <= h < g ==> (#[trigger] value_views(values@)[h]).alias != alias@,
        decreases values.len() - g,
    {
        if values[g].alias == *alias {
            assert(value_views(values@)[g as int].alias == alias@);
            return Some(g);
        }
        g += 1;
    }
    None
}

/// Puts the statistics together: the aggregates as they are, and each
/// quantile of `source` with the first value reported under its label.
/// Refused as an aggregation failure where a quantile has no value.
pub fn load_statistics(
    summary: &RangeSummary,
    values: &Vec<QuantileValue>,
    source: &Vec<Quantile>,
) -> (r: Result<Statistics, DistributionError>)
    ensures
        all_have_values(quantile_views(source@), value_views(values@)) ==> (r matches Ok(stats)
            && stats@ == statistics_of(*summary, quantile_views(source@), value_views(values@))),
        !all_have_values(quantile_views(source@), value_views(values@)) ==> (r matches Err(e) && e
            == DistributionError::AggregationFailure),
{
    let ghost sv = quantile_views(source@);
    let ghost vv = value_views(values@);
    let mut quantiles: Vec<Quantile> = Vec::new();
    let mut i: usize = 0;
    while i < source.len()
        invariant
            0 <= i <= source.len(),
            sv == quantile_views(source@),
            vv == value_views(values@),
            quantiles@.len() == i,
            forall|j: int| 0 <= j < i ==> has_value(vv, (#[trigger] sv[j]).alias),
            forall|j: int| 0 <= j < i ==> (#[trigger] quantiles@[j])@ == with_value(sv[j], vv),
        decreases source.len() - i,
    {
        match find_value(values, &source[i].alias) {
            Some(g) => {
                proof {
                    let alias = sv[i as int].alias;
                    value_is_unique(vv, alias, g as int, choose|g: int| is_value_at(vv, alias, g));
                }
                quantiles.push(
                    Quantile {
                        column: source[i].column.clone(),
                        bin: source[i].bin,
                        bins: source[i].bins,
                        value: values[g].value,
                        alias: source[i].alias.clone(),
                    },
                );
            },
            None => {
                assert(!has_value(vv, sv[i as int].alias));
                return Err(DistributionError::AggregationFailure);
            },
        }
        i += 1;
    }
    let stats = Statistics {
        count: summary.count,
        min: summary.min,
        max: summary.max,
        mean: summary.mean,
        median: summary.median,
        rsd: summary.rsd,
        quantiles,
    };
    assert(stats@.quantiles =~= statistics_of(*summary, sv, vv).quantiles);
    Ok(stats)
}

/// The statistics of `column` with `bins` evenly spaced quantiles, from
/// the aggregates and the quantile values that the engine reports.
/// Refused as an aggregation failure where a quantile has no value.
pub fn get_statistic_data(
    column: &str,
    bins: usize,
    summary: &RangeSummary,
    values: &Vec<QuantileValue>,
) -> (r: Result<Statistics, DistributionError>)
    ensures
        all_have_values(evenly_spaced_quantiles(column@, bins as nat), value_views(values@)) ==> (r matches Ok(
            stats,
        ) && stats@ == statistics_of(
            *summary,
            evenly_spaced_quantiles(column@, bins as nat),
            value_views(values@),
        )),
        !all_have_values(evenly_spaced_quantiles(column@, bins as nat), value_views(values@)) ==> (
        r matches Err(e) && e == DistributionError::AggregationFailure),
{
    let source = generate_quantiles(column, bins);
    assert(quantile_views(source@) =~= evenly_spaced_quantiles(column@, bins as nat));
    load_statistics(summary, values, &source)
}

} // verus!
