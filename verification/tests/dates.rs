//! Date arguments.

use awslogs::time::{parse_datetime, parse_datetime_at, parse_datetime_with, Clock, SystemClock};
use awslogs::AwsLogsError;
use chrono::{NaiveDateTime, TimeZone, Utc};

struct FixedClock(i64);

impl Clock for FixedClock {
    fn utcnow(&self) -> i64 {
        self.0
    }
}

fn iso2epoch(s: &str) -> i64 {
    let ndt = NaiveDateTime::parse_from_str(s, "%Y-%m-%d %H:%M:%S").unwrap();
    ndt.and_utc().timestamp() * 1000
}

#[test]
fn parses_relative_and_absolute_dates() {
    let clock = FixedClock(
        Utc.with_ymd_and_hms(2015, 1, 1, 3, 0, 0)
            .unwrap()
            .timestamp_millis(),
    );

    assert_eq!(parse_datetime_with(Some(""), &clock).unwrap(), None);
    assert_eq!(parse_datetime_with(None, &clock).unwrap(), None);

    let plan: &[(&str, &str)] = &[
        ("2015-01-01 02:59:00", "1m"),
        ("2015-01-01 02:59:00", "1m ago"),
        ("2015-01-01 02:59:00", "1minute"),
        ("2015-01-01 02:59:00", "1minute ago"),
        ("2015-01-01 02:59:00", "1minutes"),
        ("2015-01-01 02:59:00", "1minutes ago"),
        ("2015-01-01 02:00:00", "1h"),
        ("2015-01-01 02:00:00", "1h ago"),
        ("2015-01-01 02:00:00", "1hour"),
        ("2015-01-01 02:00:00", "1hour ago"),
        ("2015-01-01 02:00:00", "1hours"),
        ("2015-01-01 02:00:00", "1hours ago"),
        ("2014-12-31 03:00:00", "1d"),
        ("2014-12-31 03:00:00", "1d ago"),
        ("2014-12-31 03:00:00", "1day"),
        ("2014-12-31 03:00:00", "1day ago"),
        ("2014-12-31 03:00:00", "1days"),
        ("2014-12-31 03:00:00", "1days ago"),
        ("2014-12-25 03:00:00", "1w"),
        ("2014-12-25 03:00:00", "1w ago"),
        ("2014-12-25 03:00:00", "1week"),
        ("2014-12-25 03:00:00", "1week ago"),
        ("2014-12-25 03:00:00", "1weeks"),
        ("2014-12-25 03:00:00", "1weeks ago"),
        ("2013-01-01 00:00:00", "1/1/2013"),
        ("2012-01-01 12:34:00", "1/1/2012 12:34"),
        ("2011-01-01 12:34:56", "1/1/2011 12:34:56"),
        ("2016-08-31 02:23:25", "2016-08-31T02:23:25.000Z"),
        ("2016-08-31 18:23:25", "2016-08-31 10:23:25 UTC-8"),
    ];
    for (expected, input) in plan {
        assert_eq!(
            parse_datetime_with(Some(input), &clock).unwrap(),
            Some(iso2epoch(expected)),
            "input={input}"
        );
    }

    assert!(matches!(
        parse_datetime_with(Some("???"), &clock),
        Err(AwsLogsError::UnknownDate(_))
    ));
}

/// The milliseconds of a date that is read at noon on 2015-01-01.
fn at_noon(s: &str) -> Option<i64> {
    let noon = iso2epoch("2015-01-01 12:00:00");
    match parse_datetime_at(Some(s), noon) {
        Ok(t) => t,
        Err(AwsLogsError::UnknownDate(raw)) => {
            assert_eq!(raw, s);
            None
        }
        Err(e) => panic!("{e:?}"),
    }
}

fn epoch(s: &str) -> Option<i64> {
    Some(iso2epoch(s))
}

#[test]
fn reads_numbers_and_units() {
    assert_eq!(at_noon("90m"), epoch("2015-01-01 10:30:00"));
    assert_eq!(at_noon("2 h"), epoch("2015-01-01 10:00:00"));
    assert_eq!(at_noon("2\th"), epoch("2015-01-01 10:00:00"));
    assert_eq!(at_noon("2 hours ago"), epoch("2015-01-01 10:00:00"));
    assert_eq!(at_noon("0m"), epoch("2015-01-01 12:00:00"));
    assert_eq!(at_noon("52w"), epoch("2014-01-02 12:00:00"));
    // One whitespace character at most, and the number first.
    assert_eq!(at_noon("2  h"), None);
    assert_eq!(at_noon(" 2h"), None);
    assert_eq!(at_noon("h"), None);
    assert_eq!(at_noon("-2h"), None);
    assert_eq!(at_noon("2"), None);
    assert_eq!(at_noon("2x"), None);
}

#[test]
fn ignores_what_follows_a_relative_date() {
    for rest in ["", "inutes", " ago", "m", "!", " or so", "\u{1f44d}"] {
        let s = format!("5m{rest}");
        assert_eq!(at_noon(&s), epoch("2015-01-01 11:55:00"), "{s}");
    }
}

#[test]
fn drops_what_is_below_a_second() {
    assert_eq!(
        parse_datetime_at(Some("1m"), 1_000_123).unwrap(),
        Some(940_000)
    );
    // Towards the epoch, on both sides of it.
    assert_eq!(parse_datetime_at(Some("1m"), 500).unwrap(), Some(-59_000));
    assert_eq!(
        parse_datetime_at(Some("1m"), -500).unwrap(),
        Some(-60_000)
    );
    assert_eq!(
        at_noon("2016-08-31T02:23:25.999Z"),
        epoch("2016-08-31 02:23:25")
    );
}

#[test]
fn moves_with_the_clock() {
    let a = parse_datetime_with(Some("5m"), &FixedClock(1_000_000_000)).unwrap();
    let b = parse_datetime_with(Some("5m"), &FixedClock(1_000_060_000)).unwrap();
    assert_eq!(a, Some(999_700_000));
    assert_eq!(b, Some(999_760_000));
    let fixed = "2016-08-31 02:23:25";
    assert_eq!(
        parse_datetime_with(Some(fixed), &FixedClock(0)).unwrap(),
        parse_datetime_with(Some(fixed), &FixedClock(1 << 40)).unwrap()
    );
}

#[test]
fn reads_the_clock_of_the_machine() {
    let before = SystemClock.utcnow();
    let read = parse_datetime(Some("1h")).unwrap().unwrap();
    let after = SystemClock.utcnow();
    assert!(before > 1_500_000_000_000);
    assert!(before - 3_600_000 - 1000 < read && read <= after - 3_600_000);
    assert_eq!(read % 1000, 0);
    assert_eq!(parse_datetime(None).unwrap(), None);
    assert_eq!(
        parse_datetime(Some("1/1/2013")).unwrap(),
        epoch("2013-01-01 00:00:00")
    );
}

#[test]
fn refuses_relative_dates_out_of_range() {
    let clock = FixedClock(0);
    for s in [
        "999999999999w",
        "99999999999999999999999999m",
        "\u{0663}m",
    ] {
        match parse_datetime_with(Some(s), &clock) {
            Err(AwsLogsError::UnknownDate(raw)) => assert_eq!(raw, s),
            other => panic!("{s}: {other:?}"),
        }
    }
    assert_eq!(
        parse_datetime_with(Some("13000000w"), &clock).unwrap(),
        Some(-13_000_000 * 604_800_000)
    );
}

#[test]
fn reads_zones() {
    assert_eq!(
        at_noon("2016-08-31 10:23:25 UTC+05:30"),
        epoch("2016-08-31 04:53:25")
    );
    assert_eq!(
        at_noon("2016-08-31 10:23:25 UTC+0530"),
        epoch("2016-08-31 04:53:25")
    );
    assert_eq!(
        at_noon("2016-08-31T10:23:25   UTC-8"),
        epoch("2016-08-31 18:23:25")
    );
    assert_eq!(at_noon("2016-08-31 10:23 UTC+1"), epoch("2016-08-31 09:23:00"));
    assert_eq!(
        at_noon("2016-08-31T10:23:25 UTC-03:30"),
        epoch("2016-08-31 13:53:25")
    );
    // Western minutes count only with western hours.
    assert_eq!(
        at_noon("2016-08-31 10:23:25 UTC-00:30"),
        epoch("2016-08-31 09:53:25")
    );
    assert_eq!(
        at_noon("2016-08-31 10:23:25 UTC-01:30"),
        epoch("2016-08-31 11:53:25")
    );
    assert_eq!(at_noon("2016-08-31 10:23:25 UTC+24"), None);
    assert_eq!(at_noon("2016-08-31 10:23:25UTC+1"), None);
    assert_eq!(at_noon("2016-08-31 10:23:25 UTC"), None);
    assert_eq!(at_noon("2016-08-31 UTC+1"), None);
    assert_eq!(
        at_noon("2016-08-31T10:23:25+02:00"),
        epoch("2016-08-31 08:23:25")
    );
    assert_eq!(
        at_noon("Wed, 31 Aug 2016 10:23:25 +0200"),
        epoch("2016-08-31 08:23:25")
    );
}

#[test]
fn reads_dates_without_zone() {
    assert_eq!(at_noon("2016-08-31"), epoch("2016-08-31 00:00:00"));
    assert_eq!(at_noon("2016-08-31 10:23"), epoch("2016-08-31 10:23:00"));
    assert_eq!(at_noon("2016-08-31 10:23:25"), epoch("2016-08-31 10:23:25"));
    assert_eq!(at_noon("2016-08-31T10:23:25"), epoch("2016-08-31 10:23:25"));
    assert_eq!(
        at_noon("2016-08-31T10:23:25.5"),
        epoch("2016-08-31 10:23:25")
    );
    assert_eq!(at_noon("2016-02-30"), None);
    assert_eq!(at_noon("0001-01-01"), epoch("0001-01-01 00:00:00"));
    assert_eq!(at_noon("9999-12-31T23:59:59"), epoch("9999-12-31 23:59:59"));
    assert_eq!(at_noon("0000-02-29 00:01"), epoch("0000-02-29 00:01:00"));
}

#[test]
fn refuses_texts_without_a_digit() {
    for s in ["???", "now", "-", "yesterday at noon", "T:Z", "UTC+", "//", "m", " ", "\u{1f44d}"] {
        assert_eq!(at_noon(s), None, "{s}");
    }
}

#[test]
fn reads_dates_with_the_day_first() {
    assert_eq!(at_noon("31/12/1999"), epoch("1999-12-31 00:00:00"));
    assert_eq!(at_noon("29/2/2016 1:02"), epoch("2016-02-29 01:02:00"));
    assert_eq!(at_noon("1/1/2012  12:34:56"), epoch("2012-01-01 12:34:56"));
    assert_eq!(at_noon("1/1/0001"), epoch("0001-01-01 00:00:00"));
    assert_eq!(at_noon("29/2/2015"), None);
    assert_eq!(at_noon("1/13/2015"), None);
    assert_eq!(at_noon("0/1/2015"), None);
    assert_eq!(at_noon("1/1/15"), None);
    assert_eq!(at_noon("1/1/2015 24:00"), None);
    assert_eq!(at_noon("1/1/2015 12:60"), None);
    assert_eq!(at_noon("1/1/2015 12:3"), None);
    assert_eq!(at_noon("1/1/2015 12:34:5"), None);
    assert_eq!(at_noon("1/1/2015 12:34 "), None);
    assert_eq!(at_noon("001/1/2015"), None);
    assert_eq!(at_noon("1/1/2015 12:34 UTC-8"), None);
    assert_eq!(at_noon("1/1/2015T12:34"), None);
}
