use data_statistics::errors::DistributionError;
use data_statistics::intervals::{Interval, SortedIntervals};
use std::cmp::Ordering;

fn labelled(start: i32, end: i32, category: &str) -> Interval<i32> {
    Interval {
        column: "price".to_string(),
        start,
        end,
        category: category.to_string(),
        index: 0,
    }
}

fn bounds(set: &SortedIntervals<i32>) -> Vec<(i32, i32)> {
    set.intervals.iter().map(|i| (i.start, i.end)).collect()
}

fn labels(set: &SortedIntervals<i32>) -> Vec<String> {
    set.intervals.iter().map(|i| i.category.clone()).collect()
}

fn is_sorted_and_disjoint(set: &SortedIntervals<i32>) -> bool {
    let v = &set.intervals;
    for i in 0..v.len() {
        if v[i].start > v[i].end || v[i].index != i {
            return false;
        }
        for j in (i + 1)..v.len() {
            if v[i].end > v[j].start {
                return false;
            }
        }
    }
    true
}

#[test]
fn first_interval_is_taken_unchecked() {
    let mut set = SortedIntervals::<i32>::new("price".to_string());
    let mut seed = labelled(9, 3, "seed");
    seed.index = 7;
    assert_eq!(set.add_interval(seed), Ok(()));
    assert_eq!(bounds(&set), vec![(9, 3)]);
    assert_eq!(set.intervals[0].index, 0);
}

#[test]
fn inverted_interval_is_invalid_in_a_non_empty_set() {
    let mut set = SortedIntervals::<i32>::new("price".to_string());
    set.add_interval(labelled(1, 2, "a")).unwrap();
    assert_eq!(
        set.add_interval(labelled(5, 4, "b")),
        Err(DistributionError::InvalidInterval)
    );
    assert_eq!(bounds(&set), vec![(1, 2)]);
}

#[test]
fn insertion_at_the_front_renumbers() {
    let mut set = SortedIntervals::<i32>::new("price".to_string());
    set.add_interval(labelled(3, 4, "b")).unwrap();
    set.add_interval(labelled(1, 2, "a")).unwrap();
    set.add_interval(labelled(2, 3, "m")).unwrap();
    assert_eq!(bounds(&set), vec![(1, 2), (2, 3), (3, 4)]);
    assert_eq!(labels(&set), vec!["a", "m", "b"]);
    assert!(is_sorted_and_disjoint(&set));
}

#[test]
fn overlap_without_neighbours_is_refused() {
    let mut set = SortedIntervals::<i32>::new("price".to_string());
    set.add_interval(labelled(1, 10, "a")).unwrap();
    assert_eq!(
        set.add_interval(labelled(2, 3, "b")),
        Err(DistributionError::Overlap)
    );
    assert_eq!(bounds(&set), vec![(1, 10)]);
}

#[test]
fn overlap_without_left_neighbour_is_refused() {
    let mut set = SortedIntervals::<i32>::new("price".to_string());
    set.add_interval(labelled(1, 5, "a")).unwrap();
    set.add_interval(labelled(8, 9, "b")).unwrap();
    assert_eq!(
        set.add_interval(labelled(0, 3, "c")),
        Err(DistributionError::Overlap)
    );
    assert_eq!(bounds(&set), vec![(1, 5), (8, 9)]);
}

#[test]
fn missing_right_neighbour_appends_a_copy_of_the_left_one() {
    let mut set = SortedIntervals::<i32>::new("price".to_string());
    set.add_interval(labelled(1, 2, "a")).unwrap();
    set.add_interval(labelled(5, 6, "b")).unwrap();
    assert_eq!(set.add_interval(labelled(3, 10, "c")), Ok(()));
    assert_eq!(bounds(&set), vec![(1, 2), (5, 6), (1, 2)]);
    assert_eq!(labels(&set), vec!["a", "b", "a"]);
    assert_eq!(set.intervals[2].index, 2);
}

#[test]
fn copy_of_the_first_interval_is_an_overlap() {
    let mut set = SortedIntervals::<i32>::new("price".to_string());
    set.add_interval(labelled(1, 2, "a")).unwrap();
    set.add_interval(labelled(3, 4, "b")).unwrap();
    set.add_interval(labelled(5, 6, "c")).unwrap();
    assert_eq!(
        set.add_interval(labelled(1, 2, "again")),
        Err(DistributionError::Overlap)
    );
    assert_eq!(set.len(), 3);
}

#[test]
fn copy_of_an_inner_interval_between_neighbours_is_taken() {
    let mut set = SortedIntervals::<i32>::new("price".to_string());
    set.add_interval(labelled(1, 2, "a")).unwrap();
    set.add_interval(labelled(3, 4, "b")).unwrap();
    set.add_interval(labelled(5, 6, "c")).unwrap();
    assert_eq!(set.add_interval(labelled(3, 4, "again")), Ok(()));
    assert_eq!(bounds(&set), vec![(1, 2), (3, 4), (3, 4), (5, 6)]);
    assert_eq!(labels(&set), vec!["a", "b", "again", "c"]);
}

#[test]
fn every_permutation_of_clear_intervals_builds_the_same_set() {
    let items = [(1, 3, "a"), (3, 4, "b"), (6, 9, "c"), (9, 9, "d")];
    let orders: [[usize; 4]; 6] = [
        [0, 1, 2, 3],
        [3, 2, 1, 0],
        [1, 3, 0, 2],
        [2, 0, 3, 1],
        [0, 2, 1, 3],
        [3, 0, 2, 1],
    ];
    for order in orders.iter() {
        let input: Vec<Interval<i32>> = order
            .iter()
            .map(|&k| labelled(items[k].0, items[k].1, items[k].2))
            .collect();
        let set = SortedIntervals::from(input).unwrap();
        assert_eq!(bounds(&set), vec![(1, 3), (3, 4), (6, 9), (9, 9)]);
        assert_eq!(labels(&set), vec!["a", "b", "c", "d"]);
        assert!(is_sorted_and_disjoint(&set));
    }
}

#[test]
fn from_vector_sorts_by_start() {
    let set = SortedIntervals::from(vec![
        labelled(20, 30, "3"),
        labelled(0, 10, "1"),
        labelled(10, 20, "2"),
    ])
    .unwrap();
    assert_eq!(set.column, "price");
    assert_eq!(bounds(&set), vec![(0, 10), (10, 20), (20, 30)]);
    let read = set.get_intervals();
    assert_eq!(read.len(), 3);
    for (k, i) in read.iter().enumerate() {
        assert_eq!(i.index, k);
        assert_eq!(i.category, (k + 1).to_string());
    }
}

#[test]
fn from_vector_stops_at_the_first_refusal() {
    let r = SortedIntervals::from(vec![
        labelled(0, 10, "1"),
        labelled(5, 15, "2"),
        labelled(20, 10, "3"),
    ]);
    assert_eq!(r.err(), Some(DistributionError::Overlap));
    let r = SortedIntervals::from(vec![
        labelled(0, 10, "1"),
        labelled(20, 10, "3"),
        labelled(5, 15, "2"),
    ]);
    assert_eq!(r.err(), Some(DistributionError::InvalidInterval));
}

#[test]
fn from_empty_vector_is_an_empty_set() {
    let set = SortedIntervals::<i32>::from(vec![]).unwrap();
    assert!(set.is_empty());
    assert_eq!(set.len(), 0);
    assert_eq!(set.column, "");
    assert!(set.min().is_none());
    assert!(set.max().is_none());
    assert!(set.span().is_none());
    assert_eq!(set.values(), Vec::<i32>::new());
}

#[test]
fn min_and_max_pick_smallest_start_and_largest_end() {
    let set = SortedIntervals::<i32> {
        column: "price".to_string(),
        intervals: vec![
            labelled(5, 7, "a"),
            labelled(1, 9, "b"),
            labelled(1, 2, "c"),
            labelled(8, 9, "d"),
        ],
    };
    assert_eq!(set.min().unwrap().category, "b");
    assert_eq!(set.max().unwrap().category, "d");
    assert_eq!(set.min_position(), Some(1));
    assert_eq!(set.max_position(), Some(3));
    assert_eq!(set.span(), Some((1, 9)));
}

#[test]
fn get_interval_by_position() {
    let set = SortedIntervals::from(vec![labelled(0, 10, "1"), labelled(10, 20, "2")]).unwrap();
    assert_eq!(set.get_interval(1).unwrap().category, "2");
    assert!(set.get_interval(2).is_none());
    assert!(!set.is_empty());
    assert_eq!(set.len(), 2);
}

#[test]
fn values_are_sorted_and_distinct() {
    let set = SortedIntervals::<i32> {
        column: "price".to_string(),
        intervals: vec![labelled(10, 20, "b"), labelled(-5, 10, "a"), labelled(20, 20, "c")],
    };
    assert_eq!(set.values(), vec![-5, 10, 20]);
}

#[test]
fn bucket_of_is_the_first_interval_that_contains() {
    let set = SortedIntervals::from(vec![
        labelled(0, 10, "1"),
        labelled(10, 20, "2"),
        labelled(30, 40, "3"),
    ])
    .unwrap();
    assert_eq!(set.bucket_of(0), Some(0));
    assert_eq!(set.bucket_of(9), Some(0));
    assert_eq!(set.bucket_of(10), Some(1));
    assert_eq!(set.bucket_of(20), None);
    assert_eq!(set.bucket_of(39), Some(2));
    assert_eq!(set.bucket_of(40), None);
    assert_eq!(set.bucket_of(-1), None);
}

#[test]
fn sort_by_start_is_stable() {
    let mut set = SortedIntervals::<i32> {
        column: "price".to_string(),
        intervals: vec![
            labelled(5, 6, "a"),
            labelled(1, 2, "b"),
            labelled(5, 9, "c"),
            labelled(1, 1, "d"),
            labelled(3, 4, "e"),
        ],
    };
    set.sort_intervals(None::<fn(&Interval<i32>, &Interval<i32>) -> Ordering>);
    assert_eq!(labels(&set), vec!["b", "d", "e", "a", "c"]);
    assert_eq!(set.column, "price");
}

#[test]
fn sort_with_an_ordering_of_the_caller() {
    let mut set = SortedIntervals::<i32> {
        column: "price".to_string(),
        intervals: vec![
            labelled(5, 6, "a"),
            labelled(1, 2, "b"),
            labelled(5, 9, "c"),
            labelled(3, 4, "e"),
        ],
    };
    set.sort_intervals(Some(|a: &Interval<i32>, b: &Interval<i32>| b.end.cmp(&a.end)));
    assert_eq!(labels(&set), vec!["c", "a", "e", "b"]);
    set.sort_intervals(Some(|a: &Interval<i32>, b: &Interval<i32>| {
        a.category.cmp(&b.category)
    }));
    assert_eq!(labels(&set), vec!["a", "b", "c", "e"]);
}

#[test]
fn intervals_of_other_scalars() {
    let mut set = SortedIntervals::<u64>::new("mileage".to_string());
    for (start, end) in [(100u64, 200u64), (0, 100), (200, u64::MAX)] {
        set.add_interval(Interval {
            column: "mileage".to_string(),
            start,
            end,
            category: start.to_string(),
            index: 0,
        })
        .unwrap();
    }
    assert_eq!(set.values(), vec![0, 100, 200, u64::MAX]);
    assert_eq!(set.bucket_of(150), Some(1));
}

#[test]
fn error_messages() {
    assert_eq!(
        DistributionError::InvalidArgument.message(),
        "Number of bins must be at least 2"
    );
    assert_eq!(DistributionError::InvalidInterval.message(), "Invalid interval");
    assert_eq!(DistributionError::Overlap.message(), "Overlap between intervals");
    assert_eq!(DistributionError::EmptyIntervalSet.message(), "Intervals are empty");
    assert_eq!(
        DistributionError::AggregationFailure.message(),
        "Error calculating data"
    );
}
