//! The ways a distribution request can fail.

use vstd::prelude::*;
use vstd::string::StringExecFns;

verus! {

/// Why an operation of this library was refused.
#[derive(Debug, Clone, Copy, PartialEq, Eq, Structural)]
pub enum DistributionError {
    /// A parameter is outside its allowed range, such as a bucket count under two.
    InvalidArgument,
    /// An interval whose start lies after its end was offered to a non-empty set.
    InvalidInterval,
    /// The interval cannot be placed among those already present.
    Overlap,
    /// An interval set with no intervals was handed to the aggregator.
    EmptyIntervalSet,
    /// The dataset engine could not answer a query.
    AggregationFailure,
}

impl DistributionError {
    /// A short text for the error, fit for a response body.
    pub fn message(&self) -> (r: String)
        ensures
            r@ == match *self {
                DistributionError::InvalidArgument => "Number of bins must be at least 2"@,
                DistributionError::InvalidInterval => "Invalid interval"@,
                DistributionError::Overlap => "Overlap between intervals"@,
                DistributionError::EmptyIntervalSet => "Intervals are empty"@,
                DistributionError::AggregationFailure => "Error calculating data"@,
            },
    {
        match self {
            DistributionError::InvalidArgument => String::from_str(
                "Number of bins must be at least 2",
            ),
            DistributionError::InvalidInterval => String::from_str("Invalid interval"),
            DistributionError::Overlap => String::from_str("Overlap between intervals"),
            DistributionError::EmptyIntervalSet => String::from_str("Intervals are empty"),
            DistributionError::AggregationFailure => String::from_str("Error calculating data"),
        }
    }
}

} // verus!
