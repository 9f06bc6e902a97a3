//! The original test suite of the timestamp library, exercised against the
//! real local timezone and clock.

use chrono::{Datelike, TimeZone, Timelike};
use quant1x_std::Timestamp;

/// The instant as a `chrono` date-time in the local timezone.
fn to_dt(ts: &Timestamp) -> chrono::DateTime<chrono::Local> {
    chrono::Local.timestamp_millis_opt(ts.value()).single().unwrap()
}

#[test]
fn it_works() {
    let result = quant1x_std::add(2, 2);
    assert_eq!(result, 4);
}

#[test]
fn test_timestamp_integration() {
    let ts = Timestamp::now();
    assert!(ts.value() > 0);

    let formatted = ts.to_string();
    assert!(!formatted.is_empty());
}

#[test]
fn test_timestamp_creation() {
    let ts = Timestamp::new(1640995200000);
    assert_eq!(ts.value(), 1640995200000);
}

#[test]
fn test_timestamp_now() {
    let ts = Timestamp::now();
    assert!(ts.value() > 0);
}

#[test]
fn test_timestamp_zero() {
    let ts = Timestamp::zero();
    assert_eq!(ts.value(), 0);
    assert!(ts.is_empty());
}

#[test]
fn test_timestamp_from_date() {
    let ts = Timestamp::from_date(2022, 1, 1, 0, 0, 0, 0).unwrap();
    let (year, month, day) = ts.extract();
    assert_eq!(year, 2022);
    assert_eq!(month, 1);
    assert_eq!(day, 1);
}

#[test]
fn test_timestamp_parse() {
    let ts = Timestamp::parse("2022-06-15 14:30:45").unwrap();
    let (year, month, day) = ts.extract();
    assert_eq!(year, 2022);
    assert_eq!(month, 6);
    assert_eq!(day, 15);
}

#[test]
fn test_timestamp_parse_comprehensive() {
    // Full date-time layout.
    let ts1 = Timestamp::parse("2022-06-15 14:30:45").unwrap();
    let (year, month, day) = ts1.extract();
    assert_eq!(year, 2022);
    assert_eq!(month, 6);
    assert_eq!(day, 15);

    // Date-only layout.
    let ts2 = Timestamp::parse("2022-06-15").unwrap();
    let (year, month, day) = ts2.extract();
    assert_eq!(year, 2022);
    assert_eq!(month, 6);
    assert_eq!(day, 15);

    // Compact date layout.
    let ts3 = Timestamp::parse("20220615").unwrap();
    let (year, month, day) = ts3.extract();
    assert_eq!(year, 2022);
    assert_eq!(month, 6);
    assert_eq!(day, 15);

    // Slash-separated layout.
    let ts4 = Timestamp::parse("2022/06/15 14:30:45").unwrap();
    let (year, month, day) = ts4.extract();
    assert_eq!(year, 2022);
    assert_eq!(month, 6);
    assert_eq!(day, 15);
}

#[test]
fn test_timestamp_parse_time_comprehensive() {
    // Pure time layouts anchor to today's local date.
    let now = chrono::Local::now();
    let today_year = now.year();
    let today_month = now.month();
    let today_day = now.day();

    let ts1 = Timestamp::parse_time("14:30:45").unwrap();
    let dt1 = to_dt(&ts1);
    assert_eq!(dt1.hour(), 14);
    assert_eq!(dt1.minute(), 30);
    assert_eq!(dt1.second(), 45);
    // It should carry today's date.
    assert_eq!(dt1.year(), today_year);
    assert_eq!(dt1.month(), today_month);
    assert_eq!(dt1.day(), today_day);

    // Compact time layout.
    let ts2 = Timestamp::parse_time("143045").unwrap();
    let dt2 = to_dt(&ts2);
    assert_eq!(dt2.hour(), 14);
    assert_eq!(dt2.minute(), 30);
    assert_eq!(dt2.second(), 45);

    // Full date-time layouts are accepted for compatibility.
    let ts3 = Timestamp::parse_time("2022-06-15 14:30:45").unwrap();
    let (year, month, day) = ts3.extract();
    assert_eq!(year, 2022);
    assert_eq!(month, 6);
    assert_eq!(day, 15);
    let dt3 = to_dt(&ts3);
    assert_eq!(dt3.hour(), 14);
    assert_eq!(dt3.minute(), 30);
    assert_eq!(dt3.second(), 45);

    // Date-only layout, for compatibility.
    let ts4 = Timestamp::parse_time("2022-06-15").unwrap();
    let (year, month, day) = ts4.extract();
    assert_eq!(year, 2022);
    assert_eq!(month, 6);
    assert_eq!(day, 15);

    // Compact date layout, for compatibility.
    let ts5 = Timestamp::parse_time("20220615").unwrap();
    let (year, month, day) = ts5.extract();
    assert_eq!(year, 2022);
    assert_eq!(month, 6);
    assert_eq!(day, 15);
}

#[test]
fn test_parse_flexibility_and_tolerance() {
    println!("=== 测试 parse() 的灵活性 ===");

    let test_cases_parse = vec![
        ("2022-06-15", "仅日期"),
        ("2022-06-15 14:30:45", "完整日期时间"),
        ("20220615", "紧凑日期"),
        ("2022/06/15", "斜杠日期"),
        ("2022/06/15 14:30:45", "斜杠日期时间"),
    ];

    for (input, desc) in test_cases_parse {
        match Timestamp::parse(input) {
            Ok(ts) => {
                println!("✓ parse('{}') [{}] -> {}", input, desc, ts.to_string());
                let (year, month, day) = ts.extract();
                assert_eq!(year, 2022);
                assert_eq!(month, 6);
                assert_eq!(day, 15);
            }
            Err(e) => panic!("❌ parse('{}') [{}] failed: {}", input, desc, e.input),
        }
    }

    println!("\n=== 测试 parse_time() 的灵活性 ===");

    let test_cases_parse_time = vec![
        ("14:30:45", "纯时间 - 应配合今天"),
        ("143045", "紧凑时间 - 应配合今天"),
        ("14:30", "时分 - 应配合今天"),
        ("2022-06-15 14:30:45", "完整日期时间 - 兼容性"),
        ("2022-06-15", "仅日期 - 兼容性"),
        ("20220615", "紧凑日期 - 兼容性"),
    ];

    for (input, desc) in test_cases_parse_time {
        match Timestamp::parse_time(input) {
            Ok(ts) => {
                println!("✓ parse_time('{}') [{}] -> {}", input, desc, ts.to_string());
                let dt = to_dt(&ts);

                if input.starts_with("2022") {
                    let (year, month, day) = ts.extract();
                    assert_eq!(year, 2022);
                    assert_eq!(month, 6);
                    assert_eq!(day, 15);
                } else {
                    // Pure time inputs should carry today's date.
                    let now = chrono::Local::now();
                    assert_eq!(dt.year(), now.year());
                    assert_eq!(dt.month(), now.month());
                    assert_eq!(dt.day(), now.day());
                }

                if input.contains(":") || input.len() == 6 {
                    if input.contains("14") {
                        assert_eq!(dt.hour(), 14);
                    }
                    if input.contains("30") {
                        assert_eq!(dt.minute(), 30);
                    }
                }
            }
            Err(e) => panic!("❌ parse_time('{}') [{}] failed: {}", input, desc, e.input),
        }
    }

    println!("\n=== 测试用户使用场景 ===");

    let time_only = Timestamp::parse_time("14:30:45").unwrap();
    println!("用户场景1 - 只关注时间: parse_time('14:30:45') -> {}", time_only.to_string());

    let full_datetime = Timestamp::parse_time("2022-06-15 14:30:45").unwrap();
    println!(
        "用户场景2 - 完整日期时间给parse_time: parse_time('2022-06-15 14:30:45') -> {}",
        full_datetime.to_string()
    );

    assert_eq!(to_dt(&time_only).hour(), 14);
    assert_eq!(to_dt(&time_only).minute(), 30);
    assert_eq!(to_dt(&time_only).second(), 45);

    assert_eq!(to_dt(&full_datetime).hour(), 14);
    assert_eq!(to_dt(&full_datetime).minute(), 30);
    assert_eq!(to_dt(&full_datetime).second(), 45);

    println!("✓ 所有用户场景测试通过！");
}

#[test]
fn test_timestamp_formatting() {
    let ts = Timestamp::from_date(2022, 6, 15, 14, 30, 45, 123).unwrap();
    assert_eq!(ts.only_date(), "2022-06-15");
    assert_eq!(ts.only_time(), "14:30:45");
    assert_eq!(ts.yyyymmdd(), 20220615);
}

#[test]
fn test_timestamp_operations() {
    let ts = Timestamp::from_date(2022, 6, 15, 14, 30, 45, 123).unwrap();

    // Today at nine o'clock.
    let nine_am = ts.today(9, 0, 0, 0).unwrap();
    assert_eq!(nine_am.only_time(), "09:00:00");

    // Shifted by two hours.
    let offset = ts.offset(2, 0, 0, 0);
    assert_eq!(offset.only_time(), "16:30:45");
}

#[test]
fn test_timestamp_comparison() {
    let ts1 = Timestamp::new(1000);
    let ts2 = Timestamp::new(2000);

    assert!(ts1 < ts2);
    assert!(ts2 > ts1);
    assert_eq!(ts1, ts1);
    assert_ne!(ts1, ts2);
}

#[test]
fn test_same_date() {
    let ts1 = Timestamp::from_date(2022, 6, 15, 8, 0, 0, 0).unwrap();
    let ts2 = Timestamp::from_date(2022, 6, 15, 20, 0, 0, 0).unwrap();
    let ts3 = Timestamp::from_date(2022, 6, 16, 8, 0, 0, 0).unwrap();

    assert!(ts1.is_same_date(&ts2));
    assert!(!ts1.is_same_date(&ts3));
}
