//! Dates and instants of the proleptic Gregorian calendar, in UTC.

use chrono::{Datelike, TimeZone, Timelike};
use vstd::prelude::*;

use crate::text;
use crate::time;

verus! {

/// The first year that an instant can lie in.
pub const MIN_YEAR: i32 = -262143;

/// The last year that an instant can lie in.
pub const MAX_YEAR: i32 = 262142;

/// The first instant, in seconds since the epoch.
pub const MIN_SECONDS: i64 = -8_334_601_228_800;

/// The last instant, in seconds since the epoch.
pub const MAX_SECONDS: i64 = 8_210_266_876_799;

/// 1970-01-01, counted from 0001-01-01 as day 1.
pub const EPOCH_DAY: i64 = 719_163;

pub open spec fn leap_year(year: int) -> bool {
    year % 4 == 0 && (year % 100 != 0 || year % 400 == 0)
}

pub open spec fn days_in_month(year: int, month: int) -> int {
    if month == 2 {
        if leap_year(year) {
            29
        } else {
            28
        }
    } else if month == 4 || month == 6 || month == 9 || month == 11 {
        30
    } else {
        31
    }
}

/// The year, month and day name a day of the calendar.
pub open spec fn valid_date(year: int, month: int, day: int) -> bool {
    1 <= month <= 12 && 1 <= day <= days_in_month(year, month)
}

/// The number of the day in its year, January 1 being 1.
pub open spec fn day_of_year(year: int, month: int, day: int) -> int
    decreases month,
{
    if month <= 1 {
        day
    } else {
        days_in_month(year, month - 1) + day_of_year(year, month - 1, day)
    }
}

/// The number of the day, January 1 of the year 1 being 1.
pub open spec fn days_from_ce(year: int, month: int, day: int) -> int {
    365 * (year - 1) + (year - 1) / 4 - (year - 1) / 100 + (year - 1) / 400 + day_of_year(
        year,
        month,
        day,
    )
}

/// The hour, minute and second name a second of the day.
pub open spec fn valid_time(hour: int, minute: int, second: int) -> bool {
    0 <= hour < 24 && 0 <= minute < 60 && 0 <= second < 60
}

/// The seconds from 1970-01-01 00:00:00 to the second named.
pub open spec fn epoch_seconds(
    year: int,
    month: int,
    day: int,
    hour: int,
    minute: int,
    second: int,
) -> int {
    (days_from_ce(year, month, day) - EPOCH_DAY) * 86400 + hour * 3600 + minute * 60 + second
}

/// An instant by its calendar date and time of day.
pub ghost struct Civil {
    pub year: int,
    pub month: int,
    pub day: int,
    pub hour: int,
    pub minute: int,
    pub second: int,
    pub millis: int,
}

impl Civil {
    /// The fields name a millisecond of the supported range.
    pub open spec fn valid(self) -> bool {
        &&& MIN_YEAR <= self.year <= MAX_YEAR
        &&& valid_date(self.year, self.month, self.day)
        &&& valid_time(self.hour, self.minute, self.second)
        &&& 0 <= self.millis < 1000
    }

    /// The whole seconds since the epoch.
    pub open spec fn seconds(self) -> int {
        epoch_seconds(self.year, self.month, self.day, self.hour, self.minute, self.second)
    }
}

/// A year in four digits, with its sign and all its digits where four do not hold it.
pub open spec fn year_text(year: int) -> Seq<char> {
    if 0 <= year <= 9999 {
        text::padded_text(year as nat, 4)
    } else {
        let magnitude = (if year < 0 {
            -year
        } else {
            year
        }) as nat;
        (if year < 0 {
            "-"@
        } else {
            "+"@
        }) + if magnitude <= 9999 {
            text::padded_text(magnitude, 4)
        } else {
            text::decimal_text(magnitude)
        }
    }
}

/// An instant as `YYYY-MM-DDTHH:MM:SS.mmmZ`.
pub open spec fn civil_text(c: Civil) -> Seq<char> {
    year_text(c.year) + "-"@ + text::padded_text(c.month as nat, 2) + "-"@ + text::padded_text(
        c.day as nat,
        2,
    ) + "T"@ + text::padded_text(c.hour as nat, 2) + ":"@ + text::padded_text(c.minute as nat, 2)
        + ":"@ + text::padded_text(c.second as nat, 2) + "."@ + text::padded_text(
        c.millis as nat,
        3,
    ) + "Z"@
}

/// A day, as `YYYY-MM-DD`.
pub open spec fn day_text(c: Civil) -> Seq<char> {
    year_text(c.year) + "-"@ + text::padded_text(c.month as nat, 2) + "-"@ + text::padded_text(
        c.day as nat,
        2,
    )
}

/// A minute of the day, as `HH:MM`.
pub open spec fn clock_text(c: Civil) -> Seq<char> {
    text::padded_text(c.hour as nat, 2) + ":"@ + text::padded_text(c.minute as nat, 2)
}

/// A minute without zone, as `YYYY-MM-DD HH:MM`.
pub open spec fn minute_text(c: Civil) -> Seq<char> {
    day_text(c) + " "@ + clock_text(c)
}

/// A second without zone, as `YYYY-MM-DD HH:MM:SS`.
pub open spec fn local_text(c: Civil) -> Seq<char> {
    minute_text(c) + ":"@ + text::padded_text(c.second as nat, 2)
}

/// A second without zone, as `YYYY-MM-DDTHH:MM:SS`.
pub open spec fn iso_text(c: Civil) -> Seq<char> {
    day_text(c) + "T"@ + clock_text(c) + ":"@ + text::padded_text(c.second as nat, 2)
}

/// No ASCII digit stands in the text.
pub open spec fn digitless(s: Seq<char>) -> bool {
    forall|i: int| 0 <= i < s.len() ==> !text::is_ascii_digit(#[trigger] s[i])
}

/// The text begins with one or two digits and a slash.
pub open spec fn opens_with_day(s: Seq<char>) -> bool {
    ||| (s.len() > 1 && text::is_ascii_digit(s[0]) && s[1] == '/')
    ||| (s.len() > 2 && text::is_ascii_digit(s[0]) && text::is_ascii_digit(s[1]) && s[2] == '/')
}

/// The text begins with four digits and a minus sign.
pub open spec fn opens_with_year(s: Seq<char>) -> bool {
    &&& s.len() > 4
    &&& text::is_ascii_digit(s[0])
    &&& text::is_ascii_digit(s[1])
    &&& text::is_ascii_digit(s[2])
    &&& text::is_ascii_digit(s[3])
    &&& s[4] == '-'
}

/// A day in the years 0 to 9999 has a fixed width, with digits and signs in their places.
pub proof fn lemma_day_text(c: Civil)
    requires
        0 <= c.year <= 9999,
    ensures
        day_text(c).len() == 10,
        opens_with_year(day_text(c)),
        day_text(c)[7] == '-',
        forall|i: int|
            #![trigger day_text(c)[i]]
            0 <= i < 10 && i != 4 && i != 7 ==> text::is_ascii_digit(day_text(c)[i]),
{
    reveal_strlit("-");
    let year = text::padded_text(c.year as nat, 4);
    let month = text::padded_text(c.month as nat, 2);
    let day = text::padded_text(c.day as nat, 2);
    text::lemma_padded_text(c.year as nat, 4);
    text::lemma_padded_text(c.month as nat, 2);
    text::lemma_padded_text(c.day as nat, 2);
    let s = day_text(c);
    assert forall|i: int|
        #![trigger s[i]]
        0 <= i < 10 && i != 4 && i != 7 implies text::is_ascii_digit(s[i]) by {
        if i < 4 {
            assert(s[i] == year[i]);
        } else if i < 7 {
            assert(s[i] == month[i - 5]);
        } else {
            assert(s[i] == day[i - 8]);
        }
    }
}

/// A minute of the day has a fixed width, with digits around a colon.
pub proof fn lemma_clock_text(c: Civil)
    ensures
        clock_text(c).len() == 5,
        clock_text(c)[2] == ':',
        forall|i: int|
            #![trigger clock_text(c)[i]]
            0 <= i < 5 && i != 2 ==> text::is_ascii_digit(clock_text(c)[i]),
{
    reveal_strlit(":");
    let hour = text::padded_text(c.hour as nat, 2);
    let minute = text::padded_text(c.minute as nat, 2);
    text::lemma_padded_text(c.hour as nat, 2);
    text::lemma_padded_text(c.minute as nat, 2);
    let s = clock_text(c);
    assert forall|i: int|
        #![trigger s[i]]
        0 <= i < 5 && i != 2 implies text::is_ascii_digit(s[i]) by {
        if i < 2 {
            assert(s[i] == hour[i]);
        } else {
            assert(s[i] == minute[i - 3]);
        }
    }
}

/// In a year, an earlier month has the smaller day numbers.
proof fn lemma_month_order(year: int, m1: int, d1: int, m2: int, d2: int)
    requires
        valid_date(year, m1, d1),
        valid_date(year, m2, d2),
        m1 < m2,
    ensures
        day_of_year(year, m1, d1) < day_of_year(year, m2, d2),
    decreases m2 - m1,
{
    lemma_day_offset(year, m2 - 1, d2, days_in_month(year, m2 - 1));
    if m2 - 1 > m1 {
        lemma_month_order(year, m1, d1, m2 - 1, days_in_month(year, m2 - 1));
    } else {
        lemma_day_offset(year, m1, d1, days_in_month(year, m1));
    }
}

/// In a month, day numbers differ as the days do.
proof fn lemma_day_offset(year: int, month: int, d1: int, d2: int)
    ensures
        day_of_year(year, month, d1) - day_of_year(year, month, d2) == d1 - d2,
    decreases month,
{
    if month > 1 {
        lemma_day_offset(year, month - 1, d1, d2);
    }
}

/// A year has 365 days, or 366.
proof fn lemma_day_of_year_bounds(year: int, month: int, day: int)
    requires
        valid_date(year, month, day),
    ensures
        1 <= day_of_year(year, month, day) <= if leap_year(year) {
            366int
        } else {
            365
        },
{
    reveal_with_fuel(day_of_year, 13);
}

/// An earlier year has the smaller day numbers.
proof fn lemma_year_order(y1: int, m1: int, d1: int, y2: int, m2: int, d2: int)
    requires
        valid_date(y1, m1, d1),
        valid_date(y2, m2, d2),
        y1 < y2,
    ensures
        days_from_ce(y1, m1, d1) < days_from_ce(y2, m2, d2),
{
    lemma_day_of_year_bounds(y1, m1, d1);
    lemma_day_of_year_bounds(y2, m2, d2);
}

/// A day number has one calendar date.
pub proof fn lemma_date_unique(y1: int, m1: int, d1: int, y2: int, m2: int, d2: int)
    requires
        valid_date(y1, m1, d1),
        valid_date(y2, m2, d2),
        days_from_ce(y1, m1, d1) == days_from_ce(y2, m2, d2),
    ensures
        y1 == y2,
        m1 == m2,
        d1 == d2,
{
    if y1 < y2 {
        lemma_year_order(y1, m1, d1, y2, m2, d2);
    } else if y2 < y1 {
        lemma_year_order(y2, m2, d2, y1, m1, d1);
    } else if m1 < m2 {
        lemma_month_order(y1, m1, d1, m2, d2);
    } else if m2 < m1 {
        lemma_month_order(y1, m2, d2, m1, d1);
    } else {
        lemma_day_offset(y1, m1, d1, d2);
    }
}

/// A second has one calendar date and time of day.
pub proof fn lemma_civil_unique(a: Civil, b: Civil)
    requires
        a.valid(),
        b.valid(),
        a.seconds() == b.seconds(),
        a.millis == b.millis,
    ensures
        a == b,
{
    let da = days_from_ce(a.year, a.month, a.day);
    let db = days_from_ce(b.year, b.month, b.day);
    assert(da == db && a.hour == b.hour && a.minute == b.minute && a.second == b.second);
    lemma_date_unique(a.year, a.month, a.day, b.year, b.month, b.day);
}

/// The day after a day is a day, and has the next number.
proof fn lemma_next_day(year: int, month: int, day: int) -> (res: (int, int, int))
    requires
        valid_date(year, month, day),
    ensures
        valid_date(res.0, res.1, res.2),
        days_from_ce(res.0, res.1, res.2) == days_from_ce(year, month, day) + 1,
{
    if day < days_in_month(year, month) {
        lemma_day_offset(year, month, day, day + 1);
        (year, month, day + 1)
    } else if month < 12 {
        lemma_day_offset(year, month, day, 1);
        (year, month + 1, 1)
    } else {
        reveal_with_fuel(day_of_year, 13);
        (year + 1, 1, 1)
    }
}

/// The day before a day is a day, and has the number before.
proof fn lemma_previous_day(year: int, month: int, day: int) -> (res: (int, int, int))
    requires
        valid_date(year, month, day),
    ensures
        valid_date(res.0, res.1, res.2),
        days_from_ce(res.0, res.1, res.2) == days_from_ce(year, month, day) - 1,
{
    if day > 1 {
        lemma_day_offset(year, month, day, day - 1);
        (year, month, day - 1)
    } else if month > 1 {
        lemma_day_offset(year, month - 1, 1, days_in_month(year, month - 1));
        (year, month - 1, days_in_month(year, month - 1))
    } else {
        reveal_with_fuel(day_of_year, 13);
        (year - 1, 12, 31)
    }
}

/// Every day number has a calendar date.
proof fn lemma_day_has_date(n: int) -> (res: (int, int, int))
    ensures
        valid_date(res.0, res.1, res.2),
        days_from_ce(res.0, res.1, res.2) == n,
    decreases
            if n >= 1 {
                n - 1
            } else {
                1 - n
            },
{
    if n == 1 {
        (1, 1, 1)
    } else if n > 1 {
        let (y, m, d) = lemma_day_has_date(n - 1);
        lemma_next_day(y, m, d)
    } else {
        let (y, m, d) = lemma_day_has_date(n + 1);
        lemma_previous_day(y, m, d)
    }
}

/// Every second of the supported range has a calendar date and time of day.
pub proof fn lemma_date_of(seconds: int, millis: int) -> (res: Civil)
    requires
        MIN_SECONDS <= seconds <= MAX_SECONDS,
        0 <= millis < 1000,
    ensures
        res.valid(),
        res.seconds() == seconds,
        res.millis == millis,
{
    let n = seconds / 86400 + EPOCH_DAY;
    let below = seconds % 86400;
    let (year, month, day) = lemma_day_has_date(n);
    reveal_with_fuel(day_of_year, 13);
    assert(epoch_seconds(MIN_YEAR as int, 1, 1, 0, 0, 0) == MIN_SECONDS);
    assert(epoch_seconds(MAX_YEAR as int, 12, 31, 23, 59, 59) == MAX_SECONDS);
    if year < MIN_YEAR {
        lemma_year_order(year, month, day, MIN_YEAR as int, 1, 1);
    }
    if year > MAX_YEAR {
        lemma_year_order(MAX_YEAR as int, 12, 31, year, month, day);
    }
    Civil {
        year,
        month,
        day,
        hour: below / 3600,
        minute: below % 3600 / 60,
        second: below % 60,
        millis,
    }
}

/// The parts of a timestamp in the years 0 to 9999.
pub proof fn lemma_civil_text_parts(c: Civil)
    requires
        c.valid(),
        0 <= c.year <= 9999,
    ensures
        civil_text(c).len() == 24,
        civil_text(c).subrange(0, 4) == text::padded_text(c.year as nat, 4),
        civil_text(c).subrange(5, 7) == text::padded_text(c.month as nat, 2),
        civil_text(c).subrange(8, 10) == text::padded_text(c.day as nat, 2),
        civil_text(c).subrange(11, 13) == text::padded_text(c.hour as nat, 2),
        civil_text(c).subrange(14, 16) == text::padded_text(c.minute as nat, 2),
        civil_text(c).subrange(17, 19) == text::padded_text(c.second as nat, 2),
        civil_text(c).subrange(20, 23) == text::padded_text(c.millis as nat, 3),
        civil_text(c)[4] == '-' && civil_text(c)[7] == '-',
        civil_text(c)[10] == 'T',
        civil_text(c)[13] == ':' && civil_text(c)[16] == ':',
        civil_text(c)[19] == '.' && civil_text(c)[23] == 'Z',
{
    reveal_strlit("-");
    reveal_strlit("T");
    reveal_strlit(":");
    reveal_strlit(".");
    reveal_strlit("Z");
    text::lemma_padded_text(c.year as nat, 4);
    text::lemma_padded_text(c.month as nat, 2);
    text::lemma_padded_text(c.day as nat, 2);
    text::lemma_padded_text(c.hour as nat, 2);
    text::lemma_padded_text(c.minute as nat, 2);
    text::lemma_padded_text(c.second as nat, 2);
    text::lemma_padded_text(c.millis as nat, 3);
    let s = civil_text(c);
    assert(s.subrange(0, 4) == text::padded_text(c.year as nat, 4));
    assert(s.subrange(5, 7) == text::padded_text(c.month as nat, 2));
    assert(s.subrange(8, 10) == text::padded_text(c.day as nat, 2));
    assert(s.subrange(11, 13) == text::padded_text(c.hour as nat, 2));
    assert(s.subrange(14, 16) == text::padded_text(c.minute as nat, 2));
    assert(s.subrange(17, 19) == text::padded_text(c.second as nat, 2));
    assert(s.subrange(20, 23) == text::padded_text(c.millis as nat, 3));
}

/// A timestamp in the years 0 to 9999 has a fixed width.
pub proof fn lemma_civil_text_width(c: Civil)
    requires
        c.valid(),
        0 <= c.year <= 9999,
    ensures
        civil_text(c).len() == 24,
{
    lemma_civil_text_parts(c);
}

/// A timestamp in the years 0 to 9999 names one instant.
pub proof fn lemma_civil_text_unique(a: Civil, b: Civil)
    requires
        a.valid(),
        b.valid(),
        0 <= a.year <= 9999,
        0 <= b.year <= 9999,
        civil_text(a) == civil_text(b),
    ensures
        a == b,
{
    lemma_civil_text_parts(a);
    lemma_civil_text_parts(b);
    assert(text::ten_to(2) == 100 && text::ten_to(3) == 1000 && text::ten_to(4) == 10000) by {
        reveal_with_fuel(text::ten_to, 5);
    }
    text::lemma_padded_unique(a.year as nat, b.year as nat, 4);
    text::lemma_padded_unique(a.month as nat, b.month as nat, 2);
    text::lemma_padded_unique(a.day as nat, b.day as nat, 2);
    text::lemma_padded_unique(a.hour as nat, b.hour as nat, 2);
    text::lemma_padded_unique(a.minute as nat, b.minute as nat, 2);
    text::lemma_padded_unique(a.second as nat, b.second as nat, 2);
    text::lemma_padded_unique(a.millis as nat, b.millis as nat, 3);
}

/// Calls `chrono::NaiveDate::from_ymd_opt` and counts the date's days with
/// `chrono::Datelike::num_days_from_ce`. There is a date exactly where the three numbers name
/// a day of the calendar in a supported year.
#[verifier::external_body]
pub(crate) fn day_number(year: i32, month: u32, day: u32) -> (res: Option<i32>)
    ensures
        res is Some == (MIN_YEAR <= year && year <= MAX_YEAR && valid_date(
            year as int,
            month as int,
            day as int,
        )),
        res matches Some(n) ==> n == days_from_ce(year as int, month as int, day as int),
{
    chrono::NaiveDate::from_ymd_opt(year, month, day).map(|d| d.num_days_from_ce())
}

/// Calls `chrono::NaiveTime::from_hms_opt` and counts the time's seconds with
/// `chrono::Timelike::num_seconds_from_midnight`. There is a time exactly where the three
/// numbers name a second of the day.
#[verifier::external_body]
pub(crate) fn second_of_day(hour: u32, minute: u32, second: u32) -> (res: Option<u32>)
    ensures
        res is Some == valid_time(hour as int, minute as int, second as int),
        res matches Some(n) ==> n == hour * 3600 + minute * 60 + second,
{
    chrono::NaiveTime::from_hms_opt(hour, minute, second).map(|t| t.num_seconds_from_midnight())
}

/// Calls `chrono::TimeZone::timestamp_opt` on `chrono::Utc`, and `chrono::DateTime::format` with
/// `%Y-%m-%dT%H:%M:%S%.3fZ` on the instant. There is an instant exactly where the seconds lie in
/// the supported range, and the text spells its calendar date and time of day in UTC, a year
/// outside 0 to 9999 with its sign.
#[verifier::external_body]
pub(crate) fn format_instant(seconds: i64, nanos: u32) -> (res: Option<String>)
    requires
        nanos < 1_000_000_000,
    ensures
        res is Some == (MIN_SECONDS <= seconds && seconds <= MAX_SECONDS),
        res matches Some(t) ==> exists|c: Civil|
            c.valid() && c.seconds() == seconds && c.millis == nanos / 1_000_000 && t@
                == #[trigger] civil_text(c),
{
    chrono::Utc.timestamp_opt(seconds, nanos).single().map(
        |t| t.format("%Y-%m-%dT%H:%M:%S%.3fZ").to_string(),
    )
}

/// The instant that `chrono::DateTime::parse_from_rfc3339` reads from a text, in seconds since
/// the epoch.
pub uninterp spec fn rfc3339_seconds(text: Seq<char>) -> Option<i64>;

/// The instant that `chrono::DateTime::parse_from_rfc2822` reads from a text, in seconds since
/// the epoch.
pub uninterp spec fn rfc2822_seconds(text: Seq<char>) -> Option<i64>;

/// The date and time that `chrono::NaiveDateTime::parse_from_str` reads from a text by a
/// format, in seconds since the epoch.
pub uninterp spec fn datetime_seconds(text: Seq<char>, format: Seq<char>) -> Option<i64>;

/// The date that `chrono::NaiveDate::parse_from_str` reads from a text by a format, as a day
/// number.
pub uninterp spec fn date_days(text: Seq<char>, format: Seq<char>) -> Option<i32>;

/// Calls `chrono::DateTime::parse_from_rfc3339` and takes the instant's seconds. An instant
/// lies in the supported range, and the text `YYYY-MM-DDTHH:MM:SS.mmmZ` of valid fields in the
/// years 0 to 9999 names those fields' second. Nothing is read from a text of fewer than twenty
/// characters, one without a digit, one that holds a `U`, or one that begins with one or two digits
/// and a slash.
#[verifier::external_body]
pub(crate) fn parse_rfc3339(text: &str) -> (res: Option<i64>)
    ensures
        res == rfc3339_seconds(text@),
        res matches Some(t) ==> MIN_SECONDS <= t && t <= MAX_SECONDS,
        forall|c: Civil|
            c.valid() && 0 <= c.year && c.year <= 9999 && text@ == #[trigger] civil_text(c) ==> res
                is Some && res->0 == c.seconds(),
        text@.len() < 20 ==> res is None,
        digitless(text@) ==> res is None,
        text@.contains('U') ==> res is None,
        opens_with_day(text@) ==> res is None,
{
    chrono::DateTime::parse_from_rfc3339(text).ok().map(|t| t.timestamp())
}

/// Calls `chrono::DateTime::parse_from_rfc2822` and takes the instant's seconds. An instant
/// lies in the supported range. Nothing is read from a text without a digit, nor from one that
/// begins with one or two digits and a slash, or with four digits and a minus sign: a day has one
/// or two digits, and whitespace behind it.
#[verifier::external_body]
pub(crate) fn parse_rfc2822(text: &str) -> (res: Option<i64>)
    ensures
        res == rfc2822_seconds(text@),
        res matches Some(t) ==> MIN_SECONDS <= t && t <= MAX_SECONDS,
        digitless(text@) ==> res is None,
        opens_with_day(text@) ==> res is None,
        opens_with_year(text@) ==> res is None,
{
    chrono::DateTime::parse_from_rfc2822(text).ok().map(|t| t.timestamp())
}

/// Calls `chrono::NaiveDateTime::parse_from_str` and takes the seconds from the epoch, the
/// text being read as UTC. The result lies in the supported range.
///
/// Of valid fields in the years 0 to 9999, the text `YYYY-MM-DD HH:MM:SS` names the fields' second
/// by `%Y-%m-%d %H:%M:%S`, `YYYY-MM-DDTHH:MM:SS` by `%Y-%m-%dT%H:%M:%S`, with `%.f` behind it or
/// not, and `YYYY-MM-DD HH:MM` the minute's first second by `%Y-%m-%d %H:%M`, but nothing by the
/// format that wants seconds too.
///
/// Each format begins with a year and a minus sign, so nothing is read from a text without a digit,
/// nor from one that begins with one or two digits and a slash. The `T`, the `Z` and the colons of
/// a format have to stand in the text, and no format without a `T` takes one. A date alone is no
/// date and time.
#[verifier::external_body]
pub(crate) fn parse_datetime_format(text: &str, format: &str) -> (res: Option<i64>)
    requires
        time::is_date_format(format@),
    ensures
        res == datetime_seconds(text@, format@),
        res matches Some(t) ==> MIN_SECONDS <= t && t <= MAX_SECONDS,
        forall|c: Civil|
            c.valid() && 0 <= c.year && c.year <= 9999 && format@ == "%Y-%m-%d %H:%M:%S"@ && text@
                == #[trigger] local_text(c) ==> res is Some && res->0 == c.seconds(),
        forall|c: Civil|
            c.valid() && 0 <= c.year && c.year <= 9999 && (format@ == "%Y-%m-%dT%H:%M:%S"@
                || format@ == "%Y-%m-%dT%H:%M:%S%.f"@) && text@ == #[trigger] iso_text(c) ==> res
                is Some && res->0 == c.seconds(),
        forall|c: Civil|
            c.valid() && 0 <= c.year && c.year <= 9999 && c.second == 0 && format@
                == "%Y-%m-%d %H:%M"@ && text@ == #[trigger] minute_text(c) ==> res is Some && res->0
                == c.seconds(),
        forall|c: Civil|
            c.valid() && 0 <= c.year && c.year <= 9999 && format@ == "%Y-%m-%d %H:%M:%S"@ && text@
                == #[trigger] minute_text(c) ==> res is None,
        digitless(text@) ==> res is None,
        opens_with_day(text@) ==> res is None,
        format@.contains('T') != text@.contains('T') ==> res is None,
        format@.contains('Z') && !text@.contains('Z') ==> res is None,
        format@.contains(':') && !text@.contains(':') ==> res is None,
        format@ == "%Y-%m-%d"@ ==> res is None,
{
    chrono::NaiveDateTime::parse_from_str(text, format).ok().map(|t| t.and_utc().timestamp())
}

/// Calls `chrono::NaiveDate::parse_from_str` and counts the date's days with
/// `chrono::Datelike::num_days_from_ce`. The midnight that begins the day lies in the supported
/// range.
///
/// Of valid fields in the years 0 to 9999, the text `YYYY-MM-DD` names the fields' day by
/// `%Y-%m-%d`, and `YYYY-MM-DD HH:MM` nothing by the format that wants seconds too. Nothing is read
/// from a text without a digit, nor from one that begins with one or two digits and a slash. The
/// `T`, the `Z` and the colons of a format have to stand in the text, and no format without a `T`
/// takes one.
#[verifier::external_body]
pub(crate) fn parse_date_format(text: &str, format: &str) -> (res: Option<i32>)
    requires
        time::is_date_format(format@),
    ensures
        res == date_days(text@, format@),
        res matches Some(n) ==> MIN_SECONDS <= (n - EPOCH_DAY) * 86400 && (n - EPOCH_DAY) * 86400
            <= MAX_SECONDS,
        forall|c: Civil|
            c.valid() && 0 <= c.year && c.year <= 9999 && format@ == "%Y-%m-%d"@ && text@
                == #[trigger] day_text(c) ==> res is Some && res->0 == days_from_ce(
                c.year,
                c.month,
                c.day,
            ),
        forall|c: Civil|
            c.valid() && 0 <= c.year && c.year <= 9999 && format@ == "%Y-%m-%d %H:%M:%S"@ && text@
                == #[trigger] minute_text(c) ==> res is None,
        digitless(text@) ==> res is None,
        opens_with_day(text@) ==> res is None,
        format@.contains('T') != text@.contains('T') ==> res is None,
        format@.contains('Z') && !text@.contains('Z') ==> res is None,
        format@.contains(':') && !text@.contains(':') ==> res is None,
{
    chrono::NaiveDate::parse_from_str(text, format).ok().map(|d| d.num_days_from_ce())
}

/// Calls `chrono::Utc::now` and takes the milliseconds since the epoch. The system clock is
/// read at or after the epoch, inside the supported range; nothing else is known of it.
#[verifier::external_body]
pub(crate) fn system_millis() -> (res: i64)
    ensures
        0 <= res && res <= MAX_SECONDS * 1000 + 999,
{
    chrono::Utc::now().timestamp_millis()
}

// ── laws ────────────────────────────────────────────────────────────────────
/// Thirty days hath September, April, June and November; February has 28, and 29 in each fourth
/// year but three of four centuries; all the rest have 31.
pub proof fn law_months(year: int, month: int, day: int)
    ensures
        valid_date(year, month, day) <==> 1 <= month <= 12 && 1 <= day && (day <= 28 || (day == 29
            && (month != 2 || (year % 4 == 0 && (year % 100 != 0 || year % 400 == 0)))) || (day == 30
            && month != 2) || (day == 31 && month != 2 && month != 4 && month != 6 && month != 9
            && month != 11)),
{
}

/// Days are counted one by one, over the ends of months and years, from the first of January 1970
/// on: that day begins at the epoch, and each day 86400 seconds after the one before.
pub proof fn law_days_are_counted(year: int, month: int, day: int)
    requires
        valid_date(year, month, day),
    ensures
        epoch_seconds(1970, 1, 1, 0, 0, 0) == 0,
        valid_date(year, month, day + 1) ==> epoch_seconds(year, month, day + 1, 0, 0, 0)
            == epoch_seconds(year, month, day, 0, 0, 0) + 86400,
        !valid_date(year, month, day + 1) && month < 12 ==> epoch_seconds(
            year,
            month + 1,
            1,
            0,
            0,
            0,
        ) == epoch_seconds(year, month, day, 0, 0, 0) + 86400,
        !valid_date(year, month, day + 1) && month == 12 ==> epoch_seconds(year + 1, 1, 1, 0, 0, 0)
            == epoch_seconds(year, month, day, 0, 0, 0) + 86400,
        days_from_ce(1, 1, 1) == 1,
        epoch_seconds(year, month, day, 0, 0, 0) == (days_from_ce(year, month, day) - 719_163)
            * 86400,
{
    assert(days_from_ce(1970, 1, 1) == 719_163);
    assert(days_from_ce(1, 1, 1) == 1);
    if valid_date(year, month, day + 1) {
        lemma_day_offset(year, month, day, day + 1);
    } else if month < 12 {
        lemma_day_offset(year, month, day, 1);
    } else {
        assert(day == 31 && month == 12);
        assert(day_of_year(year, 12, 31) == if leap_year(year) {
            366int
        } else {
            365
        }) by {
            reveal_with_fuel(day_of_year, 13);
        }
        lemma_new_year(year);
    }
}

/// The day after the last of a year is the first of the next.
proof fn lemma_new_year(year: int)
    requires
        day_of_year(year, 12, 31) == if leap_year(year) {
            366int
        } else {
            365
        },
    ensures
        days_from_ce(year + 1, 1, 1) == days_from_ce(year, 12, 31) + 1,
{
}

/// A time of day lies so many hours, minutes and seconds after the midnight that begins its day.
pub proof fn law_times_of_day(
    year: int,
    month: int,
    day: int,
    hour: int,
    minute: int,
    second: int,
)
    ensures
        epoch_seconds(year, month, day, hour, minute, second) == epoch_seconds(
            year,
            month,
            day,
            0,
            0,
            0,
        ) + hour * 3600 + minute * 60 + second,
        valid_time(hour, minute, second) <==> 0 <= hour <= 23 && 0 <= minute <= 59 && 0 <= second
            <= 59,
{
}

/// An instant has the second that its fields name.
pub proof fn law_fields_name_seconds(c: Civil)
    ensures
        c.seconds() == epoch_seconds(c.year, c.month, c.day, c.hour, c.minute, c.second),
        c.valid() ==> valid_date(c.year, c.month, c.day) && valid_time(c.hour, c.minute, c.second)
            && 0 <= c.millis <= 999,
{
}

/// A year outside 0 to 9999 is written with its sign, and with at least four digits.
pub proof fn law_far_years(year: int)
    ensures
        0 <= year <= 9999 ==> year_text(year) == text::padded_text(year as nat, 4),
        year > 9999 ==> year_text(year) == "+"@ + text::decimal_text(year as nat),
        -9999 <= year < 0 ==> year_text(year) == "-"@ + text::padded_text((-year) as nat, 4),
        year < -9999 ==> year_text(year) == "-"@ + text::decimal_text((-year) as nat),
{
}

} // verus!
