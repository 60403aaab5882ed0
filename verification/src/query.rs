//! What a search asks the dataset engine to compute and in which order
//! to return it: aggregates by name, sort keys, and the bands that an
//! exact mileage or power is widened to.

use vstd::prelude::*;
use vstd::string::StringExecFns;
use crate::filter::{Order, StatisticSearchPayload};

verus! {

/// An aggregate function over a column. A quantile carries its level in
/// percent.
#[derive(Debug, Clone, Copy, PartialEq, Eq, Structural)]
pub enum AggregateKind {
    Count,
    Min,
    Max,
    Mean,
    Median,
    Sum,
    /// The sum divided by the count.
    Avg,
    /// The sample standard deviation.
    Std,
    /// The sample standard deviation divided by the mean.
    Rsd,
    Quantile(u32),
}

/// An aggregate of a column, and the name its result goes by.
#[derive(Debug)]
pub struct Aggregate {
    pub kind: AggregateKind,
    pub column: String,
    pub alias: String,
}

/// What an `Aggregate` says.
pub struct AggregateView {
    pub kind: AggregateKind,
    pub column: Seq<char>,
    pub alias: Seq<char>,
}

impl View for Aggregate {
    type V = AggregateView;

    open spec fn view(&self) -> AggregateView {
        AggregateView { kind: self.kind, column: self.column@, alias: self.alias@ }
    }
}

/// The views of the aggregates of `v`, in their order.
pub open spec fn aggregate_views(v: Seq<Aggregate>) -> Seq<AggregateView> {
    Seq::new(v.len(), |i: int| v[i]@)
}

/// The aggregate function that `name` stands for, if it is a known name.
pub open spec fn kind_of(name: Seq<char>) -> Option<AggregateKind> {
    if name == "count"@ {
        Some(AggregateKind::Count)
    } else if name == "min"@ {
        Some(AggregateKind::Min)
    } else if name == "max"@ {
        Some(AggregateKind::Max)
    } else if name == "mean"@ {
        Some(AggregateKind::Mean)
    } else if name == "median"@ {
        Some(AggregateKind::Median)
    } else if name == "sum"@ {
        Some(AggregateKind::Sum)
    } else if name == "avg"@ {
        Some(AggregateKind::Avg)
    } else if name == "std"@ {
        Some(AggregateKind::Std)
    } else if name == "rsd"@ {
        Some(AggregateKind::Rsd)
    } else if name == "quantile_60"@ {
        Some(AggregateKind::Quantile(60))
    } else if name == "quantile_66"@ {
        Some(AggregateKind::Quantile(66))
    } else if name == "quantile_70"@ {
        Some(AggregateKind::Quantile(70))
    } else if name == "quantile_75"@ {
        Some(AggregateKind::Quantile(75))
    } else if name == "quantile_80"@ {
        Some(AggregateKind::Quantile(80))
    } else if name == "quantile_90"@ {
        Some(AggregateKind::Quantile(90))
    } else {
        None
    }
}

/// The aggregates that the first `k` names ask of `column`, in their
/// order, each under its own name. Unknown names are left out.
pub open spec fn aggregates_of(names: Seq<Seq<char>>, column: Seq<char>, k: nat) -> Seq<
    AggregateView,
>
    decreases k,
{
    if k == 0 {
        Seq::empty()
    } else {
        let before = aggregates_of(names, column, (k - 1) as nat);
        match kind_of(names[k - 1]) {
            Some(kind) => before.push(AggregateView { kind, column, alias: names[k - 1] }),
            None => before,
        }
    }
}

/// Whether `name` reads `word`.
fn reads(name: &String, word: &str) -> (r: bool)
    ensures
        r == (name@ == word@),
{
    *name == String::from_str(word)
}

/// The aggregate function that `name` stands for.
fn kind(name: &String) -> (r: Option<AggregateKind>)
    ensures
        r == kind_of(name@),
{
    if reads(name, "count") {
        Some(AggregateKind::Count)
    } else if reads(name, "min") {
        Some(AggregateKind::Min)
    } else if reads(name, "max") {
        Some(AggregateKind::Max)
    } else if reads(name, "mean") {
        Some(AggregateKind::Mean)
    } else if reads(name, "median") {
        Some(AggregateKind::Median)
    } else if reads(name, "sum") {
        Some(AggregateKind::Sum)
    } else if reads(name, "avg") {
        Some(AggregateKind::Avg)
    } else if reads(name, "std") {
        Some(AggregateKind::Std)
    } else if reads(name, "rsd") {
        Some(AggregateKind::Rsd)
    } else if reads(name, "quantile_60") {
        Some(AggregateKind::Quantile(60))
    } else if reads(name, "quantile_66") {
        Some(AggregateKind::Quantile(66))
    } else if reads(name, "quantile_70") {
        Some(AggregateKind::Quantile(70))
    } else if reads(name, "quantile_75") {
        Some(AggregateKind::Quantile(75))
    } else if reads(name, "quantile_80") {
        Some(AggregateKind::Quantile(80))
    } else if reads(name, "quantile_90") {
        Some(AggregateKind::Quantile(90))
    } else {
        None
    }
}

/// The aggregate of `column` that the name `aggregator` asks for, under
/// that name. None for a name that is not known.
pub fn get_aggregator(column: &str, aggregator: &str) -> (r: Option<Aggregate>)
    ensures
        kind_of(aggregator@) is None ==> r is None,
        kind_of(aggregator@) matches Some(k) ==> (r matches Some(a) && a@ == AggregateView {
            kind: k,
            column: column@,
            alias: aggregator@,
        }),
{
    let name = String::from_str(aggregator);
    match kind(&name) {
        Some(k) => Some(Aggregate { kind: k, column: String::from_str(column), alias: name }),
        None => None,
    }
}

/// The aggregates of `column` that the names ask for, in their order,
/// without the names that are not known.
pub fn to_aggregator(aggregators: &Vec<String>, column: &str) -> (r: Vec<Aggregate>)
    ensures
        aggregate_views(r@) == aggregates_of(
            crate::filter::texts(aggregators@),
            column@,
            aggregators@.len(),
        ),
{
    let ghost names = crate::filter::texts(aggregators@);
    let mut out: Vec<Aggregate> = Vec::new();
    let mut i: usize = 0;
    assert(aggregate_views(out@) =~= aggregates_of(names, column@, 0));
    while i < aggregators.len()
        invariant
            0 <= i <= aggregators.len(),
            names == crate::filter::texts(aggregators@),
            aggregate_views(out@) == aggregates_of(names, column@, i as nat),
        decreases aggregators.len() - i,
    {
        let ghost before = aggregate_views(out@);
        assert(names[i as int] == aggregators@[i as int]@);
        match get_aggregator(column, aggregators[i].as_str()) {
            Some(a) => {
                out.push(a);
                assert(aggregate_views(out@) =~= before.push(a@));
            },
            None => {},
        }
        i += 1;
    }
    out
}

/// A column to sort by. Rows without a value come last.
#[derive(Debug)]
pub struct SortKey {
    pub column: String,
    pub descending: bool,
}

/// What a `SortKey` says.
pub struct SortKeyView {
    pub column: Seq<char>,
    pub descending: bool,
}

impl View for SortKey {
    type V = SortKeyView;

    open spec fn view(&self) -> SortKeyView {
        SortKeyView { column: self.column@, descending: self.descending }
    }
}

/// The sort key of one entry of an order: its column, descending where
/// the entry does not say ascending.
pub open spec fn key_of(column: Seq<char>, asc: bool) -> SortKeyView {
    SortKeyView { column, descending: !asc }
}

/// The sort keys of an order: its columns in their order, descending
/// where the order does not say ascending.
pub fn sort_keys(order: &Vec<Order>) -> (r: Vec<SortKey>)
    ensures
        r@.len() == order@.len(),
        forall|i: int|
            0 <= i < r@.len() ==> (#[trigger] r@[i])@ == key_of(order@[i].column@, order@[i].asc),
{
    let mut out: Vec<SortKey> = Vec::new();
    let mut i: usize = 0;
    while i < order.len()
        invariant
            0 <= i <= order.len(),
            out@.len() == i,
            forall|j: int|
                0 <= j < i ==> (#[trigger] out@[j])@ == key_of(order@[j].column@, order@[j].asc),
        decreases order.len() - i,
    {
        out.push(SortKey { column: order[i].column.clone(), descending: !order[i].asc });
        i += 1;
    }
    out
}

/// A column to sort by, named with its direction. The flag tells whether
/// rows without a value come last.
#[derive(Debug)]
pub enum SortBy {
    Ascending(String, bool),
    Descending(String, bool),
}

/// The sort key that a `SortBy` names.
pub open spec fn key_named(sort: SortBy) -> SortKeyView {
    match sort {
        SortBy::Ascending(column, _) => SortKeyView { column: column@, descending: false },
        SortBy::Descending(column, _) => SortKeyView { column: column@, descending: true },
    }
}

/// The sort keys that a list of `SortBy` names, in their order.
pub fn sort_columns(sort: &Vec<SortBy>) -> (r: Vec<SortKey>)
    ensures
        r@.len() == sort@.len(),
        forall|i: int| 0 <= i < r@.len() ==> (#[trigger] r@[i])@ == key_named(sort@[i]),
{
    let mut out: Vec<SortKey> = Vec::new();
    let mut i: usize = 0;
    while i < sort.len()
        invariant
            0 <= i <= sort.len(),
            out@.len() == i,
            forall|j: int| 0 <= j < i ==> (#[trigger] out@[j])@ == key_named(sort@[j]),
        decreases sort.len() - i,
    {
        let key = match &sort[i] {
            SortBy::Ascending(column, _) => SortKey { column: column.clone(), descending: false },
            SortBy::Descending(column, _) => SortKey { column: column.clone(), descending: true },
        };
        out.push(key);
        i += 1;
    }
    out
}

/// The number of mileage bands.
pub const MILEAGE_BANDS: usize = 8;

/// The number of power bands.
pub const POWER_BANDS: usize = 10;

/// The mileage band at position `k`: its lowest and highest mileage.
pub open spec fn mileage_band_no(k: int) -> (int, int) {
    if k == 0 {
        (0, 20000)
    } else if k == 1 {
        (20001, 40000)
    } else if k == 2 {
        (40001, 60000)
    } else if k == 3 {
        (60001, 80000)
    } else if k == 4 {
        (80001, 100000)
    } else if k == 5 {
        (100001, 120000)
    } else if k == 6 {
        (120001, 150000)
    } else {
        (150001, 999999)
    }
}

/// The power band at position `k`: its lowest and highest power.
pub open spec fn power_band_no(k: int) -> (int, int) {
    if k == 0 {
        (0, 90)
    } else if k == 1 {
        (91, 130)
    } else if k == 2 {
        (131, 150)
    } else if k == 3 {
        (151, 200)
    } else if k == 4 {
        (201, 252)
    } else if k == 5 {
        (253, 303)
    } else if k == 6 {
        (304, 358)
    } else if k == 7 {
        (359, 404)
    } else if k == 8 {
        (405, 454)
    } else {
        (455, 9999)
    }
}

/// The mileage band at position `k` holds `mileage`.
pub open spec fn is_mileage_band(k: int, mileage: int) -> bool {
    0 <= k < 8 && mileage_band_no(k).0 <= mileage <= mileage_band_no(k).1
}

/// The power band at position `k` holds `power`.
pub open spec fn is_power_band(k: int, power: int) -> bool {
    0 <= k < 10 && power_band_no(k).0 <= power <= power_band_no(k).1
}

/// The mileage band that holds `mileage`, if one does.
pub open spec fn mileage_band_of(mileage: int) -> Option<(int, int)> {
    if exists|k: int| is_mileage_band(k, mileage) {
        Some(mileage_band_no(choose|k: int| is_mileage_band(k, mileage)))
    } else {
        None
    }
}

/// The power band that holds `power`, if one does.
pub open spec fn power_band_of(power: int) -> Option<(int, int)> {
    if exists|k: int| is_power_band(k, power) {
        Some(power_band_no(choose|k: int| is_power_band(k, power)))
    } else {
        None
    }
}

/// The mileage band at position `k`.
fn mileage_band_at(k: usize) -> (r: (i32, i32))
    requires
        k < MILEAGE_BANDS,
    ensures
        (r.0 as int, r.1 as int) == mileage_band_no(k as int),
        r.0 <= r.1,
{
    if k == 0 {
        (0, 20000)
    } else if k == 1 {
        (20001, 40000)
    } else if k == 2 {
        (40001, 60000)
    } else if k == 3 {
        (60001, 80000)
    } else if k == 4 {
        (80001, 100000)
    } else if k == 5 {
        (100001, 120000)
    } else if k == 6 {
        (120001, 150000)
    } else {
        (150001, 999999)
    }
}

/// The power band at position `k`.
fn power_band_at(k: usize) -> (r: (i32, i32))
    requires
        k < POWER_BANDS,
    ensures
        (r.0 as int, r.1 as int) == power_band_no(k as int),
        r.0 <= r.1,
{
    if k == 0 {
        (0, 90)
    } else if k == 1 {
        (91, 130)
    } else if k == 2 {
        (131, 150)
    } else if k == 3 {
        (151, 200)
    } else if k == 4 {
        (201, 252)
    } else if k == 5 {
        (253, 303)
    } else if k == 6 {
        (304, 358)
    } else if k == 7 {
        (359, 404)
    } else if k == 8 {
        (405, 454)
    } else {
        (455, 9999)
    }
}

/// The mileage band that holds `mileage`: its lowest and highest
/// mileage. None for a mileage outside every band.
pub fn mileage_band(mileage: i32) -> (r: Option<(i32, i32)>)
    ensures
        match mileage_band_of(mileage as int) {
            Some(band) => r matches Some(b) && b.0 == band.0 && b.1 == band.1,
            None => r is None,
        },
{
    let mut k: usize = 0;
    while k < MILEAGE_BANDS
        invariant
            0 <= k <= MILEAGE_BANDS,
            forall|j: int| 0 <= j < k ==> !#[trigger] is_mileage_band(j, mileage as int),
        decreases MILEAGE_BANDS - k,
    {
        let band = mileage_band_at(k);
        if mileage >= band.0 && mileage <= band.1 {
            proof {
                assert(is_mileage_band(k as int, mileage as int));
                let c = choose|c: int| is_mileage_band(c, mileage as int);
                assert(mileage_band_no(c) == mileage_band_no(k as int));
            }
            return Some(band);
        }
        k += 1;
    }
    None
}

/// The power band that holds `power`: its lowest and highest power. None
/// for a power outside every band.
pub fn power_band(power: i32) -> (r: Option<(i32, i32)>)
    ensures
        match power_band_of(power as int) {
            Some(band) => r matches Some(b) && b.0 == band.0 && b.1 == band.1,
            None => r is None,
        },
{
    let mut k: usize = 0;
    while k < POWER_BANDS
        invariant
            0 <= k <= POWER_BANDS,
            forall|j: int| 0 <= j < k ==> !#[trigger] is_power_band(j, power as int),
        decreases POWER_BANDS - k,
    {
        let band = power_band_at(k);
        if power >= band.0 && power <= band.1 {
            proof {
                assert(is_power_band(k as int, power as int));
                let c = choose|c: int| is_power_band(c, power as int);
                assert(power_band_no(c) == power_band_no(k as int));
            }
            return Some(band);
        }
        k += 1;
    }
    None
}

/// The bound that an exact value is widened to: the band's bound where
/// a value is given and a band holds it, else the bound asked for
/// before.
pub open spec fn widened(exact: Option<i32>, band: Option<(int, int)>, low: bool, before: Option<i32>) -> Option<
    i32,
> {
    match (exact, band) {
        (Some(_), Some(b)) => Some(
            (if low {
                b.0
            } else {
                b.1
            }) as i32,
        ),
        _ => before,
    }
}

/// The band of an optional mileage.
pub open spec fn mileage_band_for(mileage: Option<i32>) -> Option<(int, int)> {
    match mileage {
        Some(m) => mileage_band_of(m as int),
        None => None,
    }
}

/// The band of an optional power.
pub open spec fn power_band_for(power: Option<i32>) -> Option<(int, int)> {
    match power {
        Some(p) => power_band_of(p as int),
        None => None,
    }
}

/// `p` with its exact mileage and power widened to their bands.
pub open spec fn with_bands(p: StatisticSearchPayload) -> StatisticSearchPayload {
    StatisticSearchPayload {
        mileage: None,
        mileageFrom: widened(p.mileage, mileage_band_for(p.mileage), true, p.mileageFrom),
        mileageTo: widened(p.mileage, mileage_band_for(p.mileage), false, p.mileageTo),
        power: None,
        powerFrom: widened(p.power, power_band_for(p.power), true, p.powerFrom),
        powerTo: widened(p.power, power_band_for(p.power), false, p.powerTo),
        ..p
    }
}

/// `p` without its free-text search and its exact engine size.
pub open spec fn relaxed(p: StatisticSearchPayload) -> StatisticSearchPayload {
    StatisticSearchPayload { search: None, cc: None, ..p }
}

/// Widens a search for an exact mileage or power to the band that holds
/// the value: the band's bounds take the place of the range asked for,
/// and the exact value is dropped. A value outside every band is dropped
/// and leaves the range as it was.
pub fn widen_to_bands(search: &mut StatisticSearchPayload)
    ensures
        *final(search) == with_bands(*old(search)),
{
    match search.mileage {
        Some(m) => {
            match mileage_band(m) {
                Some(band) => {
                    search.mileageFrom = Some(band.0);
                    search.mileageTo = Some(band.1);
                },
                None => {},
            }
        },
        None => {},
    }
    search.mileage = None;
    match search.power {
        Some(p) => {
            match power_band(p) {
                Some(band) => {
                    search.powerFrom = Some(band.0);
                    search.powerTo = Some(band.1);
                },
                None => {},
            }
        },
        None => {},
    }
    search.power = None;
}

/// Drops the free-text search and the exact engine size from a search
/// that found nothing.
pub fn relax(search: &mut StatisticSearchPayload)
    ensures
        *final(search) == relaxed(*old(search)),
{
    search.search = None;
    search.cc = None;
}

} // verus!
