use musical_typer::{Duration, DurationInvalid, Timestamp};

#[test]
fn duration_needs_its_start_before_its_end() {
    let a = Timestamp::from_millis(1000);
    let b = Timestamp::from_millis(3000);
    let d = Duration::new(a, b).unwrap();
    assert_eq!(d.start(), a);
    assert_eq!(d.end(), b);
    assert_eq!(d.length_millis(), 2000);
    assert!(d.start() < d.end());
}

#[test]
fn duration_of_no_length_is_refused() {
    let a = Timestamp::from_millis(1000);
    assert_eq!(Duration::new(a, a), Err(DurationInvalid));
}

#[test]
fn duration_that_runs_back_is_refused() {
    let a = Timestamp::from_millis(1000);
    let b = Timestamp::from_millis(999);
    assert_eq!(Duration::new(a, b), Err(DurationInvalid));
    assert_eq!(Duration::new(Timestamp::from_millis(u64::MAX), Timestamp::new()), Err(DurationInvalid));
}

#[test]
fn duration_contains_its_start_and_not_its_end() {
    let d = Duration::new(Timestamp::from_millis(10), Timestamp::from_millis(20)).unwrap();
    assert!(d.contains(Timestamp::from_millis(10)));
    assert!(d.contains(Timestamp::from_millis(19)));
    assert!(!d.contains(Timestamp::from_millis(20)));
    assert!(!d.contains(Timestamp::from_millis(9)));
}

#[test]
fn timestamp_is_made_of_minutes_seconds_and_millis() {
    let t = Timestamp::from_parts(2, 3, 450).unwrap();
    assert_eq!(t.as_millis(), 123_450);
    assert_eq!(t.minutes(), 2);
    assert_eq!(t.seconds(), 3);
    assert_eq!(t.subsec_millis(), 450);
    assert_eq!(Timestamp::new().as_millis(), 0);
}

#[test]
fn timestamp_out_of_range_is_none() {
    assert_eq!(Timestamp::from_parts(u64::MAX, 0, 0), None);
    assert_eq!(Timestamp::from_parts(0, u64::MAX, 0), None);
    assert_eq!(Timestamp::from_parts(0, 0, u64::MAX), Some(Timestamp::from_millis(u64::MAX)));
    assert_eq!(Timestamp::from_parts(0, 1, u64::MAX), None);
}

#[test]
fn one_second_later_stops_at_the_end_of_the_range() {
    assert_eq!(Timestamp::from_millis(500).one_second_later().as_millis(), 1500);
    assert_eq!(Timestamp::from_millis(u64::MAX - 1000).one_second_later().as_millis(), u64::MAX);
    assert_eq!(Timestamp::from_millis(u64::MAX - 1).one_second_later().as_millis(), u64::MAX);
}

#[test]
fn timestamps_order_by_their_millis() {
    let a = Timestamp::from_millis(1);
    let b = Timestamp::from_millis(2);
    assert!(a.is_before(&b));
    assert!(!b.is_before(&a));
    assert!(!a.is_before(&a));
}
