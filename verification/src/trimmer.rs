//! Robust value bounds for a column: which quantiles bound the range,
//! depending on how many rows there are.

use vstd::prelude::*;
use vstd::string::StringExecFns;
use crate::model::{count_as_i32, signed_count, StatInterval, StatIntervalView};

verus! {

/// The fractions of the quantiles a summary holds, in parts per ten
/// thousand: 0.0005, 0.03, 0.05, 0.95, 0.97 and 0.995.
pub const LOW_WIDE: u32 = 5;

pub const LOW_MIDDLE: u32 = 300;

pub const LOW_NARROW: u32 = 500;

pub const HIGH_NARROW: u32 = 9500;

pub const HIGH_MIDDLE: u32 = 9700;

pub const HIGH_WIDE: u32 = 9950;

/// Above this many rows the widest pair of quantiles bounds the range.
pub const LARGE_SAMPLE: u32 = 1000;

/// Above this many rows, up to `LARGE_SAMPLE`, the middle pair does.
pub const MEDIUM_SAMPLE: u32 = 500;

/// Above this many rows, up to `MEDIUM_SAMPLE`, the narrowest pair does;
/// at or below it nothing is trimmed.
pub const SMALL_SAMPLE: u32 = 50;

/// What the dataset engine reports of a column under a filter: the
/// number of rows, the extremes, the median, six quantiles taken at the
/// nearest row, and the relative standard deviation in percent.
#[derive(Debug, Clone, Copy, PartialEq, Eq, Structural)]
pub struct ColumnSummary {
    pub count: u32,
    pub min: i32,
    pub max: i32,
    pub median: i32,
    /// The quantile 0.0005.
    pub low_wide: i32,
    /// The quantile 0.03.
    pub low_middle: i32,
    /// The quantile 0.05.
    pub low_narrow: i32,
    /// The quantile 0.95.
    pub high_narrow: i32,
    /// The quantile 0.97.
    pub high_middle: i32,
    /// The quantile 0.995.
    pub high_wide: i32,
    pub rsd: i64,
}

impl ColumnSummary {
    /// The quantiles lie between the extremes, as those of a real column
    /// do: no low quantile is under the minimum and no high one over the
    /// maximum.
    pub open spec fn is_consistent(&self) -> bool {
        &&& self.min <= self.low_wide
        &&& self.min <= self.low_middle
        &&& self.min <= self.low_narrow
        &&& self.high_narrow <= self.max
        &&& self.high_middle <= self.max
        &&& self.high_wide <= self.max
    }

    /// The lower bound after trimming.
    pub open spec fn trimmed_start(&self) -> i32 {
        if self.count > LARGE_SAMPLE {
            self.low_wide
        } else if self.count > MEDIUM_SAMPLE {
            self.low_middle
        } else if self.count > SMALL_SAMPLE {
            self.low_narrow
        } else {
            self.min
        }
    }

    /// The upper bound after trimming.
    pub open spec fn trimmed_end(&self) -> i32 {
        if self.count > LARGE_SAMPLE {
            self.high_wide
        } else if self.count > MEDIUM_SAMPLE {
            self.high_middle
        } else if self.count > SMALL_SAMPLE {
            self.high_narrow
        } else {
            self.max
        }
    }
}

/// The bounds of `column` that its summary gives.
pub open spec fn bounds_of(column: Seq<char>, summary: ColumnSummary) -> StatIntervalView {
    StatIntervalView {
        column,
        orig_start: summary.min as int,
        orig_end: summary.max as int,
        rsd: summary.rsd as int,
        count: signed_count(summary.count),
        start: summary.trimmed_start() as int,
        end: summary.trimmed_end() as int,
    }
}

/// The bounds of `column` from its summary: the extremes as the untrimmed
/// bounds, and as trimmed bounds the pair of quantiles that the number
/// of rows selects, or the extremes again for a small sample.
pub fn clean_data(column: &str, summary: &ColumnSummary) -> (r: StatInterval)
    ensures
        r@ == bounds_of(column@, *summary),
{
    let (start, end) = if summary.count > LARGE_SAMPLE {
        (summary.low_wide, summary.high_wide)
    } else if summary.count > MEDIUM_SAMPLE {
        (summary.low_middle, summary.high_middle)
    } else if summary.count > SMALL_SAMPLE {
        (summary.low_narrow, summary.high_narrow)
    } else {
        (summary.min, summary.max)
    };
    StatInterval {
        column: String::from_str(column),
        orig_start: summary.min,
        orig_end: summary.max,
        rsd: summary.rsd,
        count: count_as_i32(summary.count),
        start,
        end,
    }
}

/// Trimming never widens: for a consistent summary the trimmed bounds lie
/// within the untrimmed ones, so the trimmed range is no wider; and for
/// fifty rows or fewer they are the untrimmed bounds.
pub proof fn trimming_never_widens(summary: ColumnSummary)
    requires
        summary.is_consistent(),
    ensures
        summary.min <= summary.trimmed_start(),
        summary.trimmed_end() <= summary.max,
        summary.trimmed_end() - summary.trimmed_start() <= summary.max - summary.min,
        summary.count <= SMALL_SAMPLE ==> summary.trimmed_start() == summary.min
            && summary.trimmed_end() == summary.max,
{
}

} // verus!
