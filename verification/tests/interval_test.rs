use data_statistics::intervals::{Interval, SortedIntervals};

fn interval(start: i32, end: i32) -> Interval<i32> {
    Interval {
        column: "test".to_string(),
        start,
        end,
        category: "test".to_string(),
        index: 0,
    }
}

#[test]
fn test_add_interval() {
    let mut intervals = SortedIntervals::<i32> {
        column: "test".to_string(),
        intervals: vec![],
    };
    let ok = intervals.add_interval(interval(1, 2));
    assert!(ok.is_ok());
    assert_eq!(intervals.intervals.len(), 1);
    let ok = intervals.add_interval(interval(3, 4));
    assert!(ok.is_ok());
    assert_eq!(intervals.intervals.len(), 2);
    let ok = intervals.add_interval(interval(2, 3));
    assert!(ok.is_ok());
    assert_eq!(intervals.intervals.len(), 3);
    let result = intervals.add_interval(interval(1, 2));
    assert!(result.is_err());
    let ok = intervals.add_interval(interval(10, 15));
    assert!(ok.is_ok());
    assert_eq!(intervals.intervals.len(), 4);
    let ok = intervals.add_interval(interval(5, 10));
    assert!(ok.is_ok());
    assert_eq!(intervals.intervals.len(), 5);
    let mut counter = 0;
    for i in intervals.intervals.iter() {
        assert!(i.start <= i.end);
        assert_eq!(i.column, "test");
        assert_eq!(i.index, counter);
        counter += 1;
    }
    assert_eq!(intervals.values(), vec![1, 2, 3, 4, 5, 10, 15]);
}

#[test]
fn test_add_overlapping_intervals() {
    let mut intervals = SortedIntervals::<i32> {
        column: "test".to_string(),
        intervals: vec![],
    };
    let ok = intervals.add_interval(interval(1, 2));
    assert!(ok.is_ok());
    assert_eq!(intervals.intervals.len(), 1);
    let ok = intervals.add_interval(interval(2, 3));
    assert!(ok.is_ok());
    assert_eq!(intervals.intervals.len(), 2);
    let ok = intervals.add_interval(interval(4, 5));
    assert!(ok.is_ok());
    assert_eq!(intervals.intervals.len(), 3);
    let result = intervals.add_interval(interval(1, 2));
    assert!(result.is_err());
    let ok = intervals.add_interval(interval(3, 4));
    assert!(ok.is_ok());
    assert_eq!(intervals.intervals.len(), 4);
    let ok = intervals.add_interval(interval(5, 10));
    assert!(ok.is_ok());
    assert_eq!(intervals.intervals.len(), 5);
    let mut counter = 0;
    for i in intervals.intervals.iter() {
        assert!(i.start <= i.end);
        assert_eq!(i.column, "test");
        assert_eq!(i.index, counter);
        counter += 1;
    }
    assert_eq!(intervals.values(), vec![1, 2, 3, 4, 5, 10]);
}
