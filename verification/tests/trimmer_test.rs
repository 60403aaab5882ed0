use data_statistics::model::count_as_i32;
use data_statistics::trimmer::{
    clean_data, ColumnSummary, HIGH_MIDDLE, HIGH_NARROW, HIGH_WIDE, LARGE_SAMPLE, LOW_MIDDLE,
    LOW_NARROW, LOW_WIDE, MEDIUM_SAMPLE, SMALL_SAMPLE,
};

fn summary(count: u32) -> ColumnSummary {
    ColumnSummary {
        count,
        min: 1_000,
        max: 90_000,
        median: 21_000,
        low_wide: 1_500,
        low_middle: 3_000,
        low_narrow: 5_000,
        high_narrow: 60_000,
        high_middle: 70_000,
        high_wide: 85_000,
        rsd: 42,
    }
}

#[test]
fn large_samples_use_the_widest_quantiles() {
    let r = clean_data("price_in_eur", &summary(1001));
    assert_eq!((r.start, r.end), (1_500, 85_000));
    assert_eq!((r.orig_start, r.orig_end), (1_000, 90_000));
    assert_eq!(r.count, 1001);
    assert_eq!(r.rsd, 42);
    assert_eq!(r.column, "price_in_eur");
    assert!(r.end - r.start <= r.orig_end - r.orig_start);
}

#[test]
fn medium_samples_use_the_middle_quantiles() {
    let r = clean_data("price_in_eur", &summary(1000));
    assert_eq!((r.start, r.end), (3_000, 70_000));
    let r = clean_data("price_in_eur", &summary(501));
    assert_eq!((r.start, r.end), (3_000, 70_000));
}

#[test]
fn small_samples_use_the_narrowest_quantiles() {
    let r = clean_data("price_in_eur", &summary(500));
    assert_eq!((r.start, r.end), (5_000, 60_000));
    let r = clean_data("price_in_eur", &summary(51));
    assert_eq!((r.start, r.end), (5_000, 60_000));
}

#[test]
fn tiny_samples_are_not_trimmed() {
    let r = clean_data("price_in_eur", &summary(50));
    assert_eq!((r.start, r.end), (1_000, 90_000));
    let r = clean_data("price_in_eur", &summary(12));
    assert_eq!(r.start, r.orig_start);
    assert_eq!(r.end, r.orig_end);
    assert_eq!(r.count, 12);
    let r = clean_data("price_in_eur", &summary(0));
    assert_eq!((r.start, r.end), (1_000, 90_000));
}

#[test]
fn quantile_fractions_and_thresholds() {
    assert_eq!(
        [LOW_WIDE, LOW_MIDDLE, LOW_NARROW, HIGH_NARROW, HIGH_MIDDLE, HIGH_WIDE],
        [5, 300, 500, 9500, 9700, 9950]
    );
    assert_eq!([LARGE_SAMPLE, MEDIUM_SAMPLE, SMALL_SAMPLE], [1000, 500, 50]);
}

#[test]
fn counts_are_read_as_signed() {
    assert_eq!(count_as_i32(0), 0);
    assert_eq!(count_as_i32(i32::MAX as u32), i32::MAX);
    assert_eq!(count_as_i32(i32::MAX as u32 + 1), i32::MIN);
    assert_eq!(count_as_i32(u32::MAX), -1);
    let r = clean_data("price_in_eur", &summary(u32::MAX));
    assert_eq!(r.count, -1);
    assert_eq!((r.start, r.end), (1_500, 85_000));
}
