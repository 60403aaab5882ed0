//! Evenly spaced quantile definitions for a column.

use vstd::prelude::*;
use vstd::string::StringExecFns;
use crate::text::{decimal_digits, push_decimal};

verus! {

/// One of `bins` evenly spaced quantiles of a column: the fraction
/// `bin / bins`, its label, and the value computed for it.
#[derive(Debug)]
pub struct Quantile {
    pub column: String,
    /// The ordinal of the quantile, from 1 to `bins`.
    pub bin: usize,
    /// The number of quantiles the range is divided into.
    pub bins: usize,
    /// The value of the column at this quantile; zero until computed.
    pub value: i32,
    pub alias: String,
}

/// What a `Quantile` says.
pub struct QuantileView {
    pub column: Seq<char>,
    pub bin: nat,
    pub bins: nat,
    pub value: int,
    pub alias: Seq<char>,
}

impl View for Quantile {
    type V = QuantileView;

    open spec fn view(&self) -> QuantileView {
        QuantileView {
            column: self.column@,
            bin: self.bin as nat,
            bins: self.bins as nat,
            value: self.value as int,
            alias: self.alias@,
        }
    }
}

/// The quantile definitions of one column.
#[derive(Debug)]
pub struct Quantiles {
    pub column: String,
    pub quantiles: Vec<Quantile>,
}

/// The fraction `bin / bins` as a percentage, rounded to the nearest
/// whole number, halves upwards.
pub open spec fn rounded_percent(bin: nat, bins: nat) -> nat
    recommends
        bins > 0,
{
    ((200 * bin + bins) / (2 * bins)) as nat
}

/// The label of the quantile `bin / bins`: the letter `q` and the rounded
/// percentage.
pub open spec fn alias_of(bin: nat, bins: nat) -> Seq<char> {
    seq!['q'] + decimal_digits(rounded_percent(bin, bins))
}

/// The quantile `bin / bins` of `column`, labelled, with no value yet.
pub open spec fn quantile_at(column: Seq<char>, bin: nat, bins: nat) -> QuantileView {
    QuantileView { column, bin, bins, value: 0, alias: alias_of(bin, bins) }
}

impl Quantile {
    /// A copy of this quantile, field for field.
    pub fn duplicate(&self) -> (r: Quantile)
        ensures
            r == *self,
    {
        Quantile {
            column: self.column.clone(),
            bin: self.bin,
            bins: self.bins,
            value: self.value,
            alias: self.alias.clone(),
        }
    }
}

/// Computes `rounded_percent(bin, bins)`.
fn percent(bin: usize, bins: usize) -> (r: u64)
    requires
        0 < bin <= bins,
    ensures
        r == rounded_percent(bin as nat, bins as nat),
        r <= 100,
{
    let top: u128 = 200u128 * (bin as u128) + (bins as u128);
    let bottom: u128 = 2u128 * (bins as u128);
    let q: u128 = top / bottom;
    assert(q <= 100) by (nonlinear_arith)
        requires
            q == top / bottom,
            bottom > 0,
            top <= 100 * bottom + bottom / 2,
    ;
    q as u64
}

/// The `number_of_bins` evenly spaced quantiles of `column`, in ascending
/// order of their fraction, each with its label and no value yet. No
/// quantiles for zero bins.
pub fn generate_quantiles(column: &str, number_of_bins: usize) -> (r: Vec<Quantile>)
    ensures
        r@.len() == number_of_bins,
        forall|i: int|
            0 <= i < r@.len() ==> (#[trigger] r@[i])@ == quantile_at(
                column@,
                (i + 1) as nat,
                number_of_bins as nat,
            ),
{
    let mut quantiles: Vec<Quantile> = Vec::new();
    let mut bin: usize = 0;
    while bin < number_of_bins
        invariant
            0 <= bin <= number_of_bins,
            quantiles@.len() == bin,
            forall|i: int|
                0 <= i < quantiles@.len() ==> (#[trigger] quantiles@[i])@ == quantile_at(
                    column@,
                    (i + 1) as nat,
                    number_of_bins as nat,
                ),
        decreases number_of_bins - bin,
    {
        bin += 1;
        let mut alias = String::from_str("q");
        proof {
            reveal_strlit("q");
            assert(alias@ =~= seq!['q']);
        }
        push_decimal(&mut alias, percent(bin, number_of_bins));
        quantiles.push(
            Quantile {
                column: String::from_str(column),
                bin,
                bins: number_of_bins,
                value: 0,
                alias,
            },
        );
    }
    quantiles
}

} // verus!
