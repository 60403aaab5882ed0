use data_statistics::aggregator::BucketGroup;
use data_statistics::binner::{
    bin_intervals, data_to_bins, interval_bins, quantile_bins, select_range, MIN_BINS,
};
use data_statistics::errors::DistributionError;
use data_statistics::intervals::{Interval, SortedIntervals};
use data_statistics::model::{DistributionType, StatInterval, Statistics};
use data_statistics::quantiles::generate_quantiles;
use data_statistics::statistics::{get_statistic_data, QuantileValue, RangeSummary};
use data_statistics::trimmer::{clean_data, ColumnSummary};

fn group(category: &str, min: i32, max: i32, count: u32) -> BucketGroup {
    BucketGroup {
        category: Some(category.to_string()),
        min,
        max,
        median: (min + max) / 2,
        count,
        mean: ((min + max) / 2) as i64,
        rsd: 7,
    }
}

fn bounds(v: &[Interval<i32>]) -> Vec<(i32, i32)> {
    v.iter().map(|i| (i.start, i.end)).collect()
}

fn labels(v: &[Interval<i32>]) -> Vec<String> {
    v.iter().map(|i| i.category.clone()).collect()
}

fn statistics_with(min: i32, max: i32, values: &[i32]) -> Statistics {
    let mut quantiles = generate_quantiles("price_in_eur", values.len());
    for (q, v) in quantiles.iter_mut().zip(values.iter()) {
        q.value = *v;
    }
    Statistics {
        count: 12,
        min,
        max,
        mean: 5_500,
        median: 5_000,
        rsd: 31,
        quantiles,
    }
}

fn stat_interval() -> StatInterval {
    StatInterval {
        column: "price_in_eur".to_string(),
        orig_start: 0,
        orig_end: 100_000,
        rsd: 31,
        count: 2_000,
        start: 1_000,
        end: 9_000,
    }
}

#[test]
fn equal_buckets_have_the_floored_width() {
    let bins = interval_bins("price_in_eur", 1_000, 9_003, 4);
    assert_eq!(
        bounds(&bins),
        vec![(1_000, 3_000), (3_000, 5_000), (5_000, 7_000), (7_000, 9_000)]
    );
    assert_eq!(labels(&bins), vec!["0", "1", "2", "3"]);
    for b in bins.iter() {
        assert_eq!(b.column, "price_in_eur");
        assert_eq!(b.index, 0);
        assert_eq!(b.end - b.start, (9_003 - 1_000) / 4);
    }
}

#[test]
fn equal_buckets_label_with_decimal_ordinals() {
    let bins = interval_bins("price_in_eur", 0, 120, 12);
    assert_eq!(bins.len(), 12);
    assert_eq!(bins[9].category, "9");
    assert_eq!(bins[10].category, "10");
    assert_eq!(bins[11].category, "11");
    assert_eq!((bins[11].start, bins[11].end), (110, 120));
}

#[test]
fn equal_buckets_over_the_whole_i32_range() {
    let bins = interval_bins("price_in_eur", i32::MIN, i32::MAX, 2);
    assert_eq!(bounds(&bins), vec![(i32::MIN, -1), (-1, i32::MAX - 1)]);
    let bins = interval_bins("price_in_eur", i32::MAX, i32::MIN, 2);
    assert_eq!(bounds(&bins), vec![(i32::MAX, 0), (0, i32::MIN + 1)]);
}

#[test]
fn equal_buckets_of_a_range_narrower_than_their_number() {
    let bins = interval_bins("price_in_eur", 5, 7, 3);
    assert_eq!(bounds(&bins), vec![(5, 5), (5, 5), (5, 5)]);
    assert!(interval_bins("price_in_eur", 5, 7, 0).is_empty());
}

#[test]
fn quantile_buckets_end_at_the_quantile_values() {
    let stats = statistics_with(100, 900, &[250, 500, 750, 900]);
    let bins = quantile_bins("price_in_eur", stats.min, &stats.quantiles);
    assert_eq!(
        bounds(&bins),
        vec![(100, 250), (250, 500), (500, 750), (750, 900)]
    );
    assert_eq!(labels(&bins), vec!["1", "2", "3", "4"]);
    for (k, b) in bins.iter().enumerate() {
        assert_eq!(b.end, stats.quantiles[k].value);
        assert_eq!(b.index, k);
        assert_eq!(b.column, "price_in_eur");
    }
    assert!(quantile_bins("price_in_eur", 0, &Vec::new()).is_empty());
}

#[test]
fn bin_intervals_follows_the_kind() {
    let stats = statistics_with(100, 900, &[400, 900]);
    let by_width = bin_intervals(
        "price_in_eur",
        DistributionType::ByInterval,
        2,
        0,
        10,
        &stats,
    );
    assert_eq!(bounds(&by_width), vec![(0, 5), (5, 10)]);
    let by_quantile = bin_intervals(
        "price_in_eur",
        DistributionType::ByQuantile,
        2,
        0,
        10,
        &stats,
    );
    assert_eq!(bounds(&by_quantile), vec![(100, 400), (400, 900)]);
}

#[test]
fn select_range_takes_trimmed_or_untrimmed_bounds() {
    let stat = stat_interval();
    let trimmed = select_range(&stat, true);
    assert_eq!((trimmed.start, trimmed.end), (1_000, 9_000));
    assert_eq!(trimmed.category, "all");
    assert_eq!(trimmed.column, "price_in_eur");
    assert_eq!(trimmed.index, 0);
    let untrimmed = select_range(&stat, false);
    assert_eq!((untrimmed.start, untrimmed.end), (0, 100_000));
}

#[test]
fn fewer_than_two_buckets_are_refused() {
    assert_eq!(MIN_BINS, 2);
    let stats = statistics_with(100, 900, &[400, 900]);
    for bins in [0usize, 1] {
        let r = data_to_bins(
            "price_in_eur",
            true,
            DistributionType::ByInterval,
            bins,
            &stat_interval(),
            &stats,
            &Vec::new(),
        );
        assert_eq!(r.err(), Some(DistributionError::InvalidArgument));
    }
}

#[test]
fn quantile_distribution_without_quantiles_is_empty() {
    let stats = statistics_with(100, 900, &[]);
    let r = data_to_bins(
        "price_in_eur",
        true,
        DistributionType::ByQuantile,
        4,
        &stat_interval(),
        &stats,
        &Vec::new(),
    );
    assert_eq!(r.err(), Some(DistributionError::EmptyIntervalSet));
}

#[test]
fn quantile_distribution_with_falling_values_is_refused() {
    let stats = statistics_with(100, 900, &[500, 300, 900]);
    let r = data_to_bins(
        "price_in_eur",
        true,
        DistributionType::ByQuantile,
        3,
        &stat_interval(),
        &stats,
        &Vec::new(),
    );
    assert_eq!(r.err(), Some(DistributionError::InvalidInterval));
}

#[test]
fn test_data_to_bins_by_interval() {
    let stats = statistics_with(1_200, 8_700, &[3_000, 5_000, 7_000, 9_000]);
    let groups = vec![
        group("2", 5_100, 6_900, 3),
        group("0", 1_200, 2_900, 4),
        BucketGroup {
            category: None,
            min: 9_000,
            max: 9_000,
            median: 9_000,
            count: 1,
            mean: 9_000,
            rsd: 0,
        },
        group("3", 7_000, 8_700, 2),
        group("1", 3_000, 4_800, 3),
    ];
    let chart = data_to_bins(
        "price_in_eur",
        true,
        DistributionType::ByInterval,
        4,
        &stat_interval(),
        &stats,
        &groups,
    )
    .unwrap();
    assert_eq!(chart.axisLabel, "price_in_eur");
    assert_eq!(chart.dataLabel, "stat_category");
    assert_eq!(chart.axisValues, vec![1_000, 3_000, 5_000, 7_000, 9_000]);
    assert_eq!(chart.data.len(), 4);
    for (i, interval) in chart.data.iter().enumerate() {
        assert_eq!(interval.category, i.to_string());
        assert_eq!(interval.column, "price_in_eur");
    }
    assert_eq!(chart.data[0].min, 1_200);
    assert_eq!(chart.data[0].count, 4);
    assert_eq!(chart.data[3].max, 8_700);
    assert_eq!(chart.data[2].rsd, 7);
    assert_eq!(chart.count, 12);
    assert_eq!(chart.mean, 5_500);
    assert_eq!(chart.rsd, 31);
    assert_eq!(chart.median, 5_000);
    assert_eq!(chart.min, 1_200);
    assert_eq!(chart.max, 8_700);
}

#[test]
fn test_data_to_bins_by_quantile() {
    let stats = statistics_with(1_000, 9_000, &[2_500, 5_000, 7_500, 9_000]);
    let groups = vec![
        group("4", 7_500, 8_900, 3),
        group("1", 1_000, 2_400, 3),
        group("3", 5_000, 7_400, 3),
        group("2", 2_500, 4_900, 3),
    ];
    let chart = data_to_bins(
        "price_in_eur",
        true,
        DistributionType::ByQuantile,
        4,
        &stat_interval(),
        &stats,
        &groups,
    )
    .unwrap();
    assert_eq!(chart.axisValues, vec![1_000, 2_500, 5_000, 7_500, 9_000]);
    assert_eq!(chart.data.len(), 4);
    for (i, interval) in chart.data.iter().enumerate() {
        assert_eq!(interval.category, (i + 1).to_string());
    }
    assert_eq!(chart.data[1].min, 2_500);
}

#[test]
fn buckets_without_rows_are_dropped() {
    let stats = statistics_with(1_200, 8_700, &[3_000, 5_000, 7_000, 9_000]);
    let groups = vec![group("3", 7_000, 8_700, 2), group("1", 3_000, 4_800, 3)];
    let chart = data_to_bins(
        "price_in_eur",
        true,
        DistributionType::ByInterval,
        4,
        &stat_interval(),
        &stats,
        &groups,
    )
    .unwrap();
    let categories: Vec<&str> = chart.data.iter().map(|d| d.category.as_str()).collect();
    assert_eq!(categories, vec!["1", "3"]);
    assert_eq!(chart.axisValues, vec![1_000, 3_000, 5_000, 7_000, 9_000]);
}

#[test]
fn small_sample_is_binned_over_its_whole_range() {
    let summary = ColumnSummary {
        count: 12,
        min: 10_000,
        max: 30_000,
        median: 18_000,
        low_wide: 10_000,
        low_middle: 11_000,
        low_narrow: 12_000,
        high_narrow: 28_000,
        high_middle: 29_000,
        high_wide: 30_000,
        rsd: 25,
    };
    let stat = clean_data("price_in_eur", &summary);
    assert_eq!(stat.start, summary.min);
    assert_eq!(stat.end, summary.max);
    let range = select_range(&stat, true);
    let bins = interval_bins("price_in_eur", range.start, range.end, 4);
    assert_eq!(
        bounds(&bins),
        vec![
            (10_000, 15_000),
            (15_000, 20_000),
            (20_000, 25_000),
            (25_000, 30_000)
        ]
    );
    let set = SortedIntervals::from(bins).unwrap();
    assert_eq!(set.span(), Some((10_000, 30_000)));
    assert_eq!(set.len(), 4);
}

#[test]
fn statistics_take_the_value_reported_under_each_alias() {
    let summary = RangeSummary {
        count: 40,
        min: 5,
        max: 95,
        mean: 50,
        median: 49,
        rsd: 12,
    };
    let values = vec![
        QuantileValue { alias: "q100".to_string(), value: 95 },
        QuantileValue { alias: "q50".to_string(), value: 49 },
        QuantileValue { alias: "q25".to_string(), value: 20 },
        QuantileValue { alias: "q75".to_string(), value: 70 },
        QuantileValue { alias: "q50".to_string(), value: -1 },
    ];
    let stats = get_statistic_data("price_in_eur", 4, &summary, &values).unwrap();
    assert_eq!(stats.count, 40);
    assert_eq!((stats.min, stats.max), (5, 95));
    assert_eq!((stats.mean, stats.median, stats.rsd), (50, 49, 12));
    let read: Vec<(usize, &str, i32)> = stats
        .quantiles
        .iter()
        .map(|q| (q.bin, q.alias.as_str(), q.value))
        .collect();
    assert_eq!(
        read,
        vec![(1, "q25", 20), (2, "q50", 49), (3, "q75", 70), (4, "q100", 95)]
    );
}

#[test]
fn statistics_without_a_quantile_value_fail() {
    let summary = RangeSummary {
        count: 40,
        min: 5,
        max: 95,
        mean: 50,
        median: 49,
        rsd: 12,
    };
    let values = vec![QuantileValue { alias: "q50".to_string(), value: 49 }];
    let r = get_statistic_data("price_in_eur", 2, &summary, &values);
    assert_eq!(r.err(), Some(DistributionError::AggregationFailure));
}

#[test]
fn test_intervals() {
    let summary = ColumnSummary {
        count: 5_000,
        min: 500,
        max: 250_000,
        median: 21_000,
        low_wide: 1_000,
        low_middle: 3_000,
        low_narrow: 5_000,
        high_narrow: 60_000,
        high_middle: 70_000,
        high_wide: 150_000,
        rsd: 42,
    };
    let stat_interval = clean_data("price_in_eur", &summary);
    let step = 20_000;
    let mut intervals = Vec::new();
    for i in 0..10 {
        let interval: Interval<i32> = Interval {
            column: "price_in_eur".to_string(),
            start: stat_interval.start + i * step,
            end: stat_interval.start + (i + 1) * step,
            category: i.to_string(),
            index: 0,
        };
        intervals.push(interval);
    }
    let set = SortedIntervals::from(intervals).unwrap();
    let groups = vec![group("9", 181_000, 200_999, 5), group("0", 1_000, 20_999, 70)];
    let chart = data_statistics::aggregator::calculate("price_in_eur", &set, &groups).unwrap();
    assert_eq!(chart.axisValues.len(), 11);
    assert_eq!(chart.axisValues[0], 1_000);
    assert_eq!(chart.axisValues[10], 201_000);
    let categories: Vec<&str> = chart.data.iter().map(|d| d.category.as_str()).collect();
    assert_eq!(categories, vec!["0", "9"]);
}

#[test]
fn test_qunatile_distribution() {
    let summary = RangeSummary {
        count: 1_000,
        min: 900,
        max: 99_000,
        mean: 30_000,
        median: 27_000,
        rsd: 40,
    };
    let values: Vec<QuantileValue> = (1..=10)
        .map(|k| QuantileValue { alias: format!("q{}", k * 10), value: k * 9_900 })
        .collect();
    let statistics = get_statistic_data("price_in_eur", 10, &summary, &values).unwrap();
    let quantiles = &statistics.quantiles;
    let mut intervals = vec![Interval {
        column: "price_in_eur".to_string(),
        start: statistics.min,
        end: quantiles[0].value,
        category: "1".to_string(),
        index: 0,
    }];
    for i in 1..quantiles.len() {
        let interval = Interval {
            column: "price_in_eur".to_string(),
            start: quantiles[i - 1].value,
            end: quantiles[i].value,
            category: (i + 1).to_string(),
            index: i,
        };
        intervals.push(interval);
    }
    let built = quantile_bins("price_in_eur", statistics.min, quantiles);
    assert_eq!(bounds(&built), bounds(&intervals));
    assert_eq!(labels(&built), labels(&intervals));
    let set = SortedIntervals::from(intervals).unwrap();
    assert_eq!(set.len(), 10);
    let groups = vec![group("10", 89_100, 98_999, 100), group("1", 900, 9_899, 100)];
    let chart = data_statistics::aggregator::calculate("price_in_eur", &set, &groups).unwrap();
    let categories: Vec<&str> = chart.data.iter().map(|d| d.category.as_str()).collect();
    assert_eq!(categories, vec!["1", "10"]);
    assert_eq!(chart.axisValues.len(), 11);
}
