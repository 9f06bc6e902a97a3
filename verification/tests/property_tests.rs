//! Scenario tests for the documented properties of the timestamp library:
//! construction round trips, arithmetic composition, truncation, rounding,
//! formatting and the format/parse round trip.

use quant1x_std::Timestamp;

#[test]
fn construction_round_trip() {
    assert_eq!(Timestamp::new(0).value(), 0);
    assert_eq!(Timestamp::new(-1).value(), -1);
    assert_eq!(Timestamp::new(i64::MAX).value(), i64::MAX);
    assert_eq!(Timestamp::new(i64::MIN).value(), i64::MIN);
    assert_eq!(Timestamp::new(123456789).unix_millis(), 123456789);
    assert_eq!(Timestamp::from(456_i64).value(), 456);
    assert_eq!(i64::from(Timestamp::new(789)), 789);
}

#[test]
fn emptiness_is_exactly_zero() {
    assert!(Timestamp::zero().is_empty());
    assert!(!Timestamp::new(1).is_empty());
    assert!(!Timestamp::new(-1).is_empty());
}

#[test]
fn from_calendar_extracts_back() {
    let cases = [
        (2022, 6, 15),
        (2020, 2, 29),
        (2000, 2, 29),
        (1970, 1, 1),
        (1999, 12, 31),
    ];
    for &(y, m, d) in cases.iter() {
        let ts = Timestamp::from_date(y, m, d, 12, 0, 0, 0).unwrap();
        assert_eq!(ts.extract(), (y, m, d));
    }
}

#[test]
fn invalid_calendar_fields_are_rejected() {
    assert!(Timestamp::from_date(2022, 13, 1, 0, 0, 0, 0).is_none());
    assert!(Timestamp::from_date(2022, 0, 1, 0, 0, 0, 0).is_none());
    assert!(Timestamp::from_date(2022, 6, 31, 0, 0, 0, 0).is_none());
    assert!(Timestamp::from_date(2022, 2, 29, 0, 0, 0, 0).is_none());
    assert!(Timestamp::from_date(2021, 2, 29, 0, 0, 0, 0).is_none());
    assert!(Timestamp::from_date(1900, 2, 29, 0, 0, 0, 0).is_none());
    assert!(Timestamp::from_date(2022, 6, 15, 24, 0, 0, 0).is_none());
    assert!(Timestamp::from_date(2022, 6, 15, 0, 60, 0, 0).is_none());
    assert!(Timestamp::from_date(2022, 6, 15, 0, 0, 60, 0).is_none());
    assert!(Timestamp::from_date(2022, 6, 15, 0, 0, 0, 1000).is_none());
    // Leap days of leap years are accepted.
    assert!(Timestamp::from_date(2020, 2, 29, 0, 0, 0, 0).is_some());
}

#[test]
fn millisecond_field_shifts_the_instant() {
    let base = Timestamp::from_date(2022, 6, 15, 14, 30, 45, 0).unwrap();
    let with_ms = Timestamp::from_date(2022, 6, 15, 14, 30, 45, 123).unwrap();
    assert_eq!(with_ms.value() - base.value(), 123);
    let next_hour = Timestamp::from_date(2022, 6, 15, 15, 30, 45, 0).unwrap();
    assert_eq!(next_hour.value() - base.value(), 3_600_000);
}

#[test]
fn offset_composes_additively() {
    let t = Timestamp::new(1655294445123);
    assert_eq!(t.offset(1, 0, 0, 0).offset(1, 0, 0, 0), t.offset(2, 0, 0, 0));
    assert_eq!(
        t.offset(0, 30, 10, 5).offset(2, -30, -10, -5),
        t.offset(2, 0, 0, 0)
    );
    assert_eq!(t.offset(1, 2, 3, 4).value(), t.value() + 3_600_000 + 120_000 + 3_000 + 4);
    assert_eq!(t.offset(-1, 0, 0, 0).value(), t.value() - 3_600_000);
}

#[test]
fn floor_and_ceil_stay_in_the_minute() {
    let ts = Timestamp::from_date(2022, 6, 15, 14, 30, 45, 123).unwrap();
    let floor = ts.floor();
    let ceil = ts.ceil();
    assert_eq!(floor.value(), ts.value() - 45_123);
    assert_eq!(ceil.value(), ts.value() - 45_123 + 59_999);
    assert_eq!(floor.to_string_with_layout("%H:%M:%S%.3f"), "14:30:00.000");
    assert_eq!(ceil.to_string_with_layout("%H:%M:%S%.3f"), "14:30:59.999");
    // A value already at the floor keeps its minute.
    assert_eq!(floor.floor(), floor);
    assert_eq!(floor.ceil(), ceil);
}

#[test]
fn start_of_day_is_local_midnight() {
    let ts = Timestamp::from_date(2022, 6, 15, 14, 30, 45, 123).unwrap();
    let sod = ts.start_of_day();
    assert_eq!(sod.only_time(), "00:00:00");
    assert_eq!(sod.only_date(), "2022-06-15");
    assert!(ts.is_same_date(&sod));
    let expected = Timestamp::from_date(2022, 6, 15, 0, 0, 0, 0).unwrap();
    assert_eq!(sod, expected);
}

#[test]
fn since_counts_from_midnight() {
    let ts = Timestamp::from_date(2022, 6, 15, 14, 30, 45, 123).unwrap();
    let at = ts.since(9, 30, 0, 0);
    assert_eq!(at.only_time(), "09:30:00");
    assert_eq!(at, Timestamp::from_date(2022, 6, 15, 9, 30, 0, 0).unwrap());
}

#[test]
fn pre_market_anchors_at_nine() {
    let pm = Timestamp::pre_market_time(2022, 6, 15).unwrap();
    assert_eq!(pm.only_time(), "09:00:00");
    assert_eq!(pm.only_date(), "2022-06-15");
    let ts = Timestamp::from_date(2022, 6, 15, 14, 30, 45, 123).unwrap();
    assert_eq!(ts.pre_market_time_from_current().unwrap(), pm);
    assert!(Timestamp::pre_market_time(2022, 2, 30).is_none());
}

#[test]
fn formatting_layouts() {
    let ts = Timestamp::from_date(2022, 6, 15, 14, 30, 45, 123).unwrap();
    assert_eq!(ts.to_string(), "2022-06-15 14:30:45.123");
    assert_eq!(ts.cache_date(), "20220615");
    assert_eq!(ts.to_string_with_layout("%Y-%m-%d %H:%M:%S%.3f"), "2022-06-15 14:30:45.123");
    assert_eq!(ts.to_string_with_layout("%d/%m/%Y"), "15/06/2022");
    assert_eq!(ts.to_string_with_layout("%H:%M:%S%.f"), "14:30:45.123");
    assert_eq!(ts.to_string_as_time_in_seconds("%H:%M:%S"), "14:30:45");
    assert_eq!(ts.to_string_as_time_in_seconds("%H:%M:%S%.3f"), "14:30:45.000");
    let half = Timestamp::from_date(2022, 6, 15, 14, 30, 45, 500).unwrap();
    assert_eq!(half.to_string_with_layout("%H:%M:%S%.f"), "14:30:45.5");
    let whole = Timestamp::from_date(2022, 6, 15, 14, 30, 45, 0).unwrap();
    assert_eq!(whole.to_string_with_layout("%H:%M:%S%.f"), "14:30:45");
    assert_eq!(whole.to_string_with_layout("100%% sure"), "100% sure");
}

#[test]
fn format_parse_round_trip() {
    let cases = [
        Timestamp::from_date(2022, 6, 15, 14, 30, 45, 123).unwrap(),
        Timestamp::from_date(1970, 1, 1, 0, 0, 0, 0).unwrap(),
        Timestamp::from_date(1999, 12, 31, 23, 59, 59, 999).unwrap(),
        Timestamp::from_date(2020, 2, 29, 9, 0, 0, 1).unwrap(),
    ];
    for ts in cases.iter() {
        let s = ts.to_string();
        let back = Timestamp::parse(&s).unwrap();
        assert_eq!(back.value(), ts.value(), "round trip through {}", s);
    }
}

#[test]
fn parse_layout_family() {
    // The millisecond fraction is honoured.
    let with_ms = Timestamp::parse("2022-06-15 14:30:45.123").unwrap();
    let without = Timestamp::parse("2022-06-15 14:30:45").unwrap();
    assert_eq!(with_ms.value() - without.value(), 123);
    // A short fraction is padded on the right.
    let tenth = Timestamp::parse("2022-06-15 14:30:45.5").unwrap();
    assert_eq!(tenth.value() - without.value(), 500);
    // US ordering and time-first ordering.
    let us = Timestamp::parse("06/15/2022 14:30:45").unwrap();
    assert_eq!(us.value(), without.value());
    let tf = Timestamp::parse("14:30:45 15-06-2022").unwrap();
    assert_eq!(tf.value(), without.value());
    // Compact date-time, and the ISO forms (their offsets are read as
    // required syntax, the fields as local time).
    let compact = Timestamp::parse("20220615 143045").unwrap();
    assert_eq!(compact.value(), without.value());
    let iso_z = Timestamp::parse("2022-06-15T14:30:45Z").unwrap();
    assert_eq!(iso_z.value(), without.value());
    let iso_off = Timestamp::parse("2022-06-15T14:30:45+0800").unwrap();
    assert_eq!(iso_off.value(), without.value());
    // Date-only forms are local midnight.
    let midnight = Timestamp::from_date(2022, 6, 15, 0, 0, 0, 0).unwrap();
    assert_eq!(Timestamp::parse("2022-06-15").unwrap(), midnight);
    assert_eq!(Timestamp::parse("2022/06/15").unwrap(), midnight);
    assert_eq!(Timestamp::parse("20220615").unwrap(), midnight);
}

#[test]
fn parse_rejects_unparseable_input() {
    let cases = ["", "not a date", "2022-6-15", "2022-13-01", "20220231", "999999", "14:30:61", "2022-06-15 25:00:00"];
    for s in cases.iter() {
        match Timestamp::parse(s) {
            Ok(v) => panic!("parse('{}') unexpectedly yielded {}", s, v.value()),
            Err(e) => assert_eq!(e.input, *s),
        }
    }
    match Timestamp::parse_time("99:99:99") {
        Ok(v) => panic!("parse_time unexpectedly yielded {}", v.value()),
        Err(e) => assert_eq!(e.input, "99:99:99"),
    }
}

#[test]
fn parse_time_layouts() {
    let hm = Timestamp::parse_time("14:30").unwrap();
    assert_eq!(hm.only_time(), "14:30:00");
    let compact4 = Timestamp::parse_time("1430").unwrap();
    assert_eq!(compact4.value(), hm.value());
    let with_frac = Timestamp::parse_time("14:30:45.250").unwrap();
    let plain = Timestamp::parse_time("14:30:45").unwrap();
    assert_eq!(with_frac.value() - plain.value(), 250);
    // From-string delegates to parse.
    let fs = Timestamp::from_string("2022-06-15 14:30:45").unwrap();
    assert_eq!(fs.extract(), (2022, 6, 15));
}

#[test]
fn comparison_is_the_integer_order() {
    let a = Timestamp::new(-5);
    let b = Timestamp::new(0);
    let c = Timestamp::new(7);
    assert!(a < b && b < c && a < c);
    assert!(c > b && b > a);
    assert!(a <= a && a >= a && a == a);
    assert_ne!(a, b);
    assert_eq!(a.max(b), b);
    assert_eq!(a.min(b), a);
}

#[test]
fn same_date_across_midnight() {
    // Less than 24 hours apart, but on adjacent calendar days.
    let late = Timestamp::from_date(2022, 6, 15, 23, 30, 0, 0).unwrap();
    let early = Timestamp::from_date(2022, 6, 16, 0, 30, 0, 0).unwrap();
    assert!(early.value() - late.value() < 24 * 3_600_000);
    assert!(!late.is_same_date(&early));
    assert!(late.is_same_date(&late));
}

#[test]
fn yyyymmdd_encodes_the_date() {
    let ts = Timestamp::from_date(1999, 1, 5, 3, 4, 5, 6).unwrap();
    assert_eq!(ts.yyyymmdd(), 19990105);
    assert_eq!(Timestamp::from_date(2022, 6, 15, 0, 0, 0, 0).unwrap().yyyymmdd(), 20220615);
}

#[test]
fn out_of_range_values_read_as_the_epoch() {
    // The first and last representable milliseconds still decompose to
    // real far-away dates, while anything beyond reads as the Unix epoch.
    let epoch_date = Timestamp::zero().extract();
    let lo = Timestamp::new(-8334601228800000);
    let hi = Timestamp::new(8210266876799999);
    assert!(lo.extract().0 <= -262142);
    assert!(hi.extract().0 >= 262141);
    assert_eq!(Timestamp::new(-8334601228800001).extract(), epoch_date);
    assert_eq!(Timestamp::new(8210266876800000).extract(), epoch_date);
    assert_eq!(Timestamp::new(i64::MIN).extract(), epoch_date);
    assert_eq!(Timestamp::new(i64::MAX).extract(), epoch_date);
}

#[test]
fn midnight_is_todays_start() {
    let m = Timestamp::midnight();
    assert_eq!(m.only_time(), "00:00:00");
    assert!(m.is_same_date(&Timestamp::now()));
}
