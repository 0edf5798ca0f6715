use trading_backend::timestamp::{days_in_month_of, parse_datetime, Timestamp};

fn ts(year: u16, month: u8, day: u8, hour: u8, minute: u8, second: u8) -> Timestamp {
    Timestamp { year, month, day, hour, minute, second }
}

#[test]
fn parse_valid_datetime() {
    let t = parse_datetime("2024-05-20 09:30:00").unwrap();
    assert_eq!(t, ts(2024, 5, 20, 9, 30, 0));
}

#[test]
fn parse_valid_extremes() {
    assert_eq!(
        parse_datetime("0000-01-01 00:00:00").unwrap(),
        ts(0, 1, 1, 0, 0, 0)
    );
    assert_eq!(
        parse_datetime("9999-12-31 23:59:59").unwrap(),
        ts(9999, 12, 31, 23, 59, 59)
    );
}

#[test]
fn parse_rejects_out_of_range_fields() {
    assert!(parse_datetime("2024-13-40 99:99:99").is_none());
    assert!(parse_datetime("2024-00-20 09:30:00").is_none());
    assert!(parse_datetime("2024-05-00 09:30:00").is_none());
    assert!(parse_datetime("2024-05-32 09:30:00").is_none());
    assert!(parse_datetime("2024-05-20 24:00:00").is_none());
    assert!(parse_datetime("2024-05-20 09:60:00").is_none());
    assert!(parse_datetime("2024-05-20 09:30:60").is_none());
}

#[test]
fn parse_rejects_bad_shape() {
    assert!(parse_datetime("").is_none());
    assert!(parse_datetime("2024-05-20").is_none());
    assert!(parse_datetime("2024-05-20 09:30:00 ").is_none());
    assert!(parse_datetime("2024/05/20 09:30:00").is_none());
    assert!(parse_datetime("2024-05-20T09:30:00").is_none());
    assert!(parse_datetime("2024-05-20 09.30.00").is_none());
    assert!(parse_datetime("20x4-05-20 09:30:00").is_none());
    assert!(parse_datetime("not a date, nope :(").is_none());
}

#[test]
fn parse_observes_leap_years() {
    assert_eq!(
        parse_datetime("2024-02-29 12:00:00").unwrap(),
        ts(2024, 2, 29, 12, 0, 0)
    );
    assert!(parse_datetime("2023-02-29 12:00:00").is_none());
    assert!(parse_datetime("2024-02-30 12:00:00").is_none());
    assert!(parse_datetime("1900-02-29 12:00:00").is_none());
    assert_eq!(
        parse_datetime("2000-02-29 12:00:00").unwrap(),
        ts(2000, 2, 29, 12, 0, 0)
    );
}

#[test]
fn parse_observes_month_lengths() {
    assert!(parse_datetime("2024-04-31 00:00:00").is_none());
    assert_eq!(
        parse_datetime("2024-04-30 00:00:00").unwrap(),
        ts(2024, 4, 30, 0, 0, 0)
    );
    assert_eq!(
        parse_datetime("2024-01-31 00:00:00").unwrap(),
        ts(2024, 1, 31, 0, 0, 0)
    );
}

#[test]
fn month_lengths() {
    assert_eq!(days_in_month_of(2023, 2), 28);
    assert_eq!(days_in_month_of(2024, 2), 29);
    assert_eq!(days_in_month_of(2024, 4), 30);
    assert_eq!(days_in_month_of(2024, 12), 31);
}

#[test]
fn key_orders_timestamps() {
    let a = ts(2024, 5, 20, 9, 30, 0);
    let b = ts(2024, 5, 20, 9, 30, 1);
    let c = ts(2024, 5, 21, 0, 0, 0);
    let d = ts(2025, 1, 1, 0, 0, 0);
    assert!(a.key_u64() < b.key_u64());
    assert!(b.key_u64() < c.key_u64());
    assert!(c.key_u64() < d.key_u64());
    assert!(a.le(&a));
    assert!(a.le(&b));
    assert!(!b.le(&a));
}
