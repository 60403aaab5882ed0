//! Distribution and binning engine for a numeric column of a tabular
//! dataset: labelled non-overlapping intervals, outlier trimming by
//! sample size, bucket construction by fixed width or by quantile, and
//! the assembly of per-bucket chart data.
//!
//! The dataset itself is not held here. A caller asks its dataset engine
//! for figures and hands them in as plain values; the library decides
//! what to ask for next and what the answer means:
//!
//! 1. `filter::to_predicate` turns a search into the tests that select
//!    rows.
//! 2. `trimmer::clean_data` turns the summary of a column into its
//!    bounds, trimmed according to the number of rows.
//! 3. `binner::select_range` and `statistics::get_statistic_data` give
//!    the range and its statistics, `binner::bin_intervals` the buckets,
//!    and `intervals::SortedIntervals` holds them in order.
//! 4. `binner::data_to_bins` puts the chart together from the figures of
//!    each bucket.
//!
//! Every function states what it returns over the views of its
//! arguments, and the laws of the interval set are proved beside it.

pub mod errors;
pub mod scalar;
pub mod text;
pub mod intervals;
pub mod interval_laws;
pub mod sorting;
pub mod quantiles;
pub mod model;
pub mod trimmer;
pub mod statistics;
pub mod aggregator;
pub mod binner;
pub mod colors;
pub mod filter;
pub mod query;
