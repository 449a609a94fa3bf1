use steelseries_sync::time::{timestamp_name, UtcTime};

#[test]
fn test_now_is_a_calendar_instant() {
    let t = UtcTime::now();
    assert!((1..=12).contains(&t.month));
    assert!((1..=31).contains(&t.day));
    assert!(t.hour <= 23);
    assert!(t.minute <= 59);
    assert!(t.second <= 59);
    assert!(t.year >= 2024);
}

#[test]
fn test_timestamp_name_format() {
    let t = UtcTime { year: 2024, month: 5, day: 6, hour: 7, minute: 8, second: 9 };
    assert_eq!(timestamp_name(&t), "2024-05-06T07-08-09");
    let t2 = UtcTime { year: 987, month: 12, day: 31, hour: 23, minute: 0, second: 59 };
    assert_eq!(timestamp_name(&t2), "0987-12-31T23-00-59");
}

#[test]
fn test_instant_ordering() {
    let a = UtcTime { year: 2024, month: 5, day: 6, hour: 7, minute: 8, second: 9 };
    let b = UtcTime { year: 2024, month: 5, day: 6, hour: 7, minute: 8, second: 10 };
    let c = UtcTime { year: 2025, month: 1, day: 1, hour: 0, minute: 0, second: 0 };
    assert!(a.lt(&b));
    assert!(b.lt(&c));
    assert!(a.lt(&c));
    assert!(!c.lt(&a));
    assert!(a.le(&a));
    assert!(!a.lt(&a));
}
