use task_reminder::instant::{Timestamp, MAX_SECS, MIN_SECS};

fn at(secs: i64, nanos: u32) -> Timestamp {
    Timestamp::new(secs, nanos).expect("instant on the calendar")
}

#[test]
fn new_keeps_seconds_and_nanoseconds() {
    let t = at(1_700_000_000, 123_456_789);
    assert_eq!(t.secs(), 1_700_000_000);
    assert_eq!(t.subsec_nanos(), 123_456_789);
    let before_epoch = at(-5, 250);
    assert_eq!(before_epoch.secs(), -5);
    assert_eq!(before_epoch.subsec_nanos(), 250);
}

#[test]
fn new_rejects_a_full_second_of_nanoseconds() {
    assert!(Timestamp::new(0, 999_999_999).is_some());
    assert!(Timestamp::new(0, 1_000_000_000).is_none());
    assert!(Timestamp::new(0, u32::MAX).is_none());
}

#[test]
fn new_rejects_instants_off_the_calendar() {
    assert!(Timestamp::new(MIN_SECS, 0).is_some());
    assert!(Timestamp::new(MIN_SECS - 1, 0).is_none());
    assert!(Timestamp::new(MAX_SECS, 999_999_999).is_some());
    assert!(Timestamp::new(MAX_SECS + 1, 0).is_none());
    assert!(Timestamp::new(i64::MAX, 0).is_none());
    assert!(Timestamp::new(i64::MIN, 0).is_none());
}

#[test]
fn calendar_bounds_are_those_of_chrono() {
    assert_eq!(chrono::DateTime::<chrono::Utc>::MIN_UTC.timestamp(), MIN_SECS);
    assert_eq!(chrono::DateTime::<chrono::Utc>::MAX_UTC.timestamp(), MAX_SECS);
    assert!(chrono::DateTime::from_timestamp(MIN_SECS, 0).is_some());
    assert!(chrono::DateTime::from_timestamp(MIN_SECS - 1, 999_999_999).is_none());
    assert!(chrono::DateTime::from_timestamp(MAX_SECS, 999_999_999).is_some());
    assert!(chrono::DateTime::from_timestamp(MAX_SECS + 1, 0).is_none());
}

#[test]
fn is_after_orders_by_seconds_then_nanoseconds() {
    assert!(at(10, 0).is_after(&at(9, 999_999_999)));
    assert!(at(10, 2).is_after(&at(10, 1)));
    assert!(!at(10, 1).is_after(&at(10, 1)));
    assert!(!at(10, 1).is_after(&at(10, 2)));
    assert!(!at(-3, 0).is_after(&at(-2, 0)));
    assert!(at(-2, 0).is_after(&at(-3, 999_999_999)));
}

#[test]
fn plus_minutes_moves_by_whole_minutes() {
    let t = at(1_000, 5);
    let later = t.plus_minutes(3).expect("on the calendar");
    assert_eq!((later.secs(), later.subsec_nanos()), (1_180, 5));
    let earlier = t.plus_minutes(-20).expect("on the calendar");
    assert_eq!((earlier.secs(), earlier.subsec_nanos()), (-200, 5));
    let same = t.plus_minutes(0).expect("on the calendar");
    assert_eq!((same.secs(), same.subsec_nanos()), (1_000, 5));
}

#[test]
fn plus_minutes_stops_at_the_end_of_the_calendar() {
    let last = at(MAX_SECS - 60, 999_999_999).plus_minutes(1).expect("last minute");
    assert_eq!((last.secs(), last.subsec_nanos()), (MAX_SECS, 999_999_999));
    assert!(at(MAX_SECS - 59, 0).plus_minutes(1).is_none());
    assert!(at(MAX_SECS, 0).plus_minutes(1).is_none());
    let first = at(MIN_SECS + 60, 0).plus_minutes(-1).expect("first minute");
    assert_eq!((first.secs(), first.subsec_nanos()), (MIN_SECS, 0));
    assert!(at(MIN_SECS + 59, 999_999_999).plus_minutes(-1).is_none());
    assert!(at(MIN_SECS, 0).plus_minutes(-1).is_none());
}

#[test]
fn plus_minutes_spans_the_whole_calendar() {
    let minutes = (MAX_SECS - MIN_SECS) / 60;
    let t = at(MIN_SECS, 7).plus_minutes(minutes).expect("on the calendar");
    assert_eq!((t.secs(), t.subsec_nanos()), (MIN_SECS + minutes * 60, 7));
    let back = t.plus_minutes(-minutes).expect("on the calendar");
    assert_eq!((back.secs(), back.subsec_nanos()), (MIN_SECS, 7));
}

#[test]
fn plus_minutes_refuses_spans_beyond_any_calendar() {
    let t = at(0, 0);
    assert!(t.plus_minutes(i64::MAX).is_none());
    assert!(t.plus_minutes(i64::MIN).is_none());
    assert!(t.plus_minutes(153_722_867_280_912).is_none());
    assert!(t.plus_minutes(-153_722_867_280_913).is_none());
}

#[test]
fn until_measures_the_wait() {
    let w = at(100, 900_000_000).until(&at(103, 100_000_000)).expect("ahead");
    assert_eq!((w.secs(), w.subsec_nanos()), (2, 200_000_000));
    let w = at(-10, 0).until(&at(10, 1)).expect("ahead");
    assert_eq!((w.secs(), w.subsec_nanos()), (20, 1));
}

#[test]
fn until_is_zero_for_the_same_instant() {
    let w = at(42, 42).until(&at(42, 42)).expect("now");
    assert_eq!((w.secs(), w.subsec_nanos()), (0, 0));
}

#[test]
fn until_is_none_for_a_passed_instant() {
    assert!(at(42, 43).until(&at(42, 42)).is_none());
    assert!(at(43, 0).until(&at(42, 999_999_999)).is_none());
}

#[test]
fn until_spans_the_whole_calendar() {
    let w = at(MIN_SECS, 0).until(&at(MAX_SECS, 999_999_999)).expect("ahead");
    assert_eq!(w.secs(), (MAX_SECS - MIN_SECS) as u64);
    assert_eq!(w.subsec_nanos(), 999_999_999);
}
