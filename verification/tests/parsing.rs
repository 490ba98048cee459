use clinic_backend::parse::{parse_date, parse_datetime, parse_month, parse_u32};
use clinic_backend::time::{Date, DateTime};

#[test]
fn parses_plain_numbers() {
    assert_eq!(parse_u32("0"), Some(0));
    assert_eq!(parse_u32("123"), Some(123));
    assert_eq!(parse_u32("+7"), Some(7));
    assert_eq!(parse_u32("4294967295"), Some(u32::MAX));
}

#[test]
fn rejects_bad_numbers() {
    assert_eq!(parse_u32(""), None);
    assert_eq!(parse_u32("+"), None);
    assert_eq!(parse_u32("12a"), None);
    assert_eq!(parse_u32("-3"), None);
    assert_eq!(parse_u32("4294967296"), None);
    assert_eq!(parse_u32("99999999999999999999"), None);
}

#[test]
fn parses_dates() {
    assert_eq!(
        parse_date("2021-01-10"),
        Some(Date { year: 2021, month: 1, day: 10 })
    );
    assert_eq!(
        parse_date("2020-02-29"),
        Some(Date { year: 2020, month: 2, day: 29 })
    );
    assert_eq!(
        parse_date("0000-01-01"),
        Some(Date { year: 0, month: 1, day: 1 })
    );
}

#[test]
fn rejects_bad_dates() {
    assert_eq!(parse_date("2021-02-29"), None);
    assert_eq!(parse_date("2021-13-01"), None);
    assert_eq!(parse_date("2021-00-10"), None);
    assert_eq!(parse_date("2021-04-31"), None);
    assert_eq!(parse_date("2021-1-1"), None);
    assert_eq!(parse_date("2021/01/10"), None);
    assert_eq!(parse_date("garbage"), None);
    assert_eq!(parse_date(""), None);
}

#[test]
fn parses_months() {
    assert_eq!(parse_month("2021-01"), Some((2021, 1)));
    assert_eq!(parse_month("1999-12"), Some((1999, 12)));
}

#[test]
fn rejects_bad_months() {
    assert_eq!(parse_month("2021-13"), None);
    assert_eq!(parse_month("2021-00"), None);
    assert_eq!(parse_month("2021-1"), None);
    assert_eq!(parse_month("2021-01-10"), None);
}

#[test]
fn parses_timestamps() {
    assert_eq!(
        parse_datetime("2023-10-01T10:00:00"),
        Some(DateTime {
            date: Date { year: 2023, month: 10, day: 1 },
            sec: 10 * 3600,
        })
    );
    assert_eq!(
        parse_datetime("2023-10-01T23:59:59"),
        Some(DateTime {
            date: Date { year: 2023, month: 10, day: 1 },
            sec: 23 * 3600 + 59 * 60 + 59,
        })
    );
}

#[test]
fn rejects_bad_timestamps() {
    assert_eq!(parse_datetime("2023-10-01T24:00:00"), None);
    assert_eq!(parse_datetime("2023-10-01T10:60:00"), None);
    assert_eq!(parse_datetime("2023-10-01T10:00:61"), None);
    assert_eq!(parse_datetime("2023-10-01 10:00:00"), None);
    assert_eq!(parse_datetime("2023-02-30T10:00:00"), None);
    assert_eq!(parse_datetime("2023-10-01T10:00"), None);
}

#[test]
fn daytime_addition_rolls_over_midnight() {
    let late = parse_datetime("2023-10-01T23:30:00").unwrap();
    assert_eq!(late.add_secs(7200), Some(parse_datetime("2023-10-02T01:30:00").unwrap()));
    let noon = parse_datetime("2023-10-01T12:00:00").unwrap();
    assert_eq!(noon.add_secs(1800), Some(parse_datetime("2023-10-01T12:30:00").unwrap()));
    let last = parse_datetime("9999-12-31T23:30:00").unwrap();
    assert_eq!(last.add_secs(7200), None);
}

#[test]
fn timestamps_order_by_date_then_daytime() {
    let a = parse_datetime("2023-10-01T10:00:00").unwrap();
    let b = parse_datetime("2023-10-01T11:00:00").unwrap();
    let c = parse_datetime("2023-10-02T09:00:00").unwrap();
    assert!(a.lt(b));
    assert!(b.lt(c));
    assert!(a.lt(c));
    assert!(!b.lt(a));
    assert!(!a.lt(a));
}
