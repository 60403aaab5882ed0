//! The values that pass between the dataset engine, the binning logic
//! and the response.
//!
//! Means and dispersions are whole numbers here: the response shows them
//! cut to integers, and that is the form in which they are handed in.

use vstd::prelude::*;
use crate::quantiles::{Quantile, QuantileView};
use crate::intervals::ranks;
use crate::scalar::Scalar;

verus! {

/// How the value range is cut into buckets.
#[derive(Debug, Clone, Copy, PartialEq, Eq, Structural)]
pub enum DistributionType {
    /// Bucket boundaries are the values of evenly spaced quantiles.
    ByQuantile,
    /// Buckets have one fixed width.
    ByInterval,
}

/// The bounds of a column under a filter, before and after trimming, with
/// the sample size and dispersion they were taken from.
#[derive(Debug)]
pub struct StatInterval {
    pub column: String,
    pub orig_start: i32,
    pub orig_end: i32,
    pub rsd: i64,
    pub count: i32,
    pub start: i32,
    pub end: i32,
}

/// Descriptive statistics of a column over a value range.
#[derive(Debug)]
pub struct Statistics {
    pub count: u32,
    pub min: i32,
    pub max: i32,
    pub mean: i64,
    pub median: i32,
    pub rsd: i64,
    pub quantiles: Vec<Quantile>,
}

/// The statistics of the rows of one bucket.
#[derive(Debug)]
pub struct IntervalData<T> {
    pub column: String,
    pub category: String,
    pub min: T,
    pub max: T,
    pub median: T,
    pub count: i32,
    pub mean: i64,
    pub rsd: i64,
}

/// A distribution chart: the bucket boundaries, the statistics of the
/// whole range, and one record for each bucket that holds rows.
#[allow(non_snake_case)]
#[derive(Debug)]
pub struct DistributionChartData<T> {
    pub axisLabel: String,
    pub dataLabel: String,
    pub axisValues: Vec<T>,
    pub min: T,
    pub max: T,
    pub median: T,
    pub count: i32,
    pub mean: i64,
    pub rsd: i64,
    pub data: Vec<IntervalData<T>>,
}

/// The sample size `count` as the signed number the response carries:
/// `count` itself up to `i32::MAX`, and `count - 2^32` above it.
pub open spec fn signed_count(count: u32) -> int {
    if count <= i32::MAX {
        count as int
    } else {
        count as int - 0x1_0000_0000
    }
}

/// Reads `count` as a signed 32-bit number.
pub fn count_as_i32(count: u32) -> (r: i32)
    ensures
        r == signed_count(count),
{
    if count <= 0x7fff_ffff {
        count as i32
    } else {
        let high: u32 = count - 0x8000_0000;
        (high as i32) + i32::MIN
    }
}

/// What a `StatInterval` says.
pub struct StatIntervalView {
    pub column: Seq<char>,
    pub orig_start: int,
    pub orig_end: int,
    pub rsd: int,
    pub count: int,
    pub start: int,
    pub end: int,
}

impl View for StatInterval {
    type V = StatIntervalView;

    open spec fn view(&self) -> StatIntervalView {
        StatIntervalView {
            column: self.column@,
            orig_start: self.orig_start as int,
            orig_end: self.orig_end as int,
            rsd: self.rsd as int,
            count: self.count as int,
            start: self.start as int,
            end: self.end as int,
        }
    }
}

/// What a `Statistics` says.
pub struct StatisticsView {
    pub count: nat,
    pub min: int,
    pub max: int,
    pub mean: int,
    pub median: int,
    pub rsd: int,
    pub quantiles: Seq<QuantileView>,
}

impl View for Statistics {
    type V = StatisticsView;

    open spec fn view(&self) -> StatisticsView {
        StatisticsView {
            count: self.count as nat,
            min: self.min as int,
            max: self.max as int,
            mean: self.mean as int,
            median: self.median as int,
            rsd: self.rsd as int,
            quantiles: Seq::new(self.quantiles@.len(), |i: int| self.quantiles@[i]@),
        }
    }
}

/// What an `IntervalData` says.
pub struct IntervalDataView {
    pub column: Seq<char>,
    pub category: Seq<char>,
    pub min: int,
    pub max: int,
    pub median: int,
    pub count: int,
    pub mean: int,
    pub rsd: int,
}

impl<T: Scalar> View for IntervalData<T> {
    type V = IntervalDataView;

    open spec fn view(&self) -> IntervalDataView {
        IntervalDataView {
            column: self.column@,
            category: self.category@,
            min: self.min.rank(),
            max: self.max.rank(),
            median: self.median.rank(),
            count: self.count as int,
            mean: self.mean as int,
            rsd: self.rsd as int,
        }
    }
}

/// What a `DistributionChartData` says.
pub struct ChartView {
    pub axis_label: Seq<char>,
    pub data_label: Seq<char>,
    pub axis_values: Seq<int>,
    pub min: int,
    pub max: int,
    pub median: int,
    pub count: int,
    pub mean: int,
    pub rsd: int,
    pub data: Seq<IntervalDataView>,
}

impl<T: Scalar> View for DistributionChartData<T> {
    type V = ChartView;

    open spec fn view(&self) -> ChartView {
        ChartView {
            axis_label: self.axisLabel@,
            data_label: self.dataLabel@,
            axis_values: ranks(self.axisValues@),
            min: self.min.rank(),
            max: self.max.rank(),
            median: self.median.rank(),
            count: self.count as int,
            mean: self.mean as int,
            rsd: self.rsd as int,
            data: Seq::new(self.data@.len(), |i: int| self.data@[i]@),
        }
    }
}

} // verus!
