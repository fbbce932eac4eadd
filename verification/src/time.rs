//! Date arguments.
//!
//! A date is either relative (`2m`, `2 minutes`, `2 minutes ago`, `2h`, `2d`, `2w`) or absolute
//! (`1/1/2015 12:34`, `2016-08-31T02:23:25.000Z`, `2016-08-31 10:23:25 UTC-8`). The result is
//! always in milliseconds since the epoch, UTC.

use vstd::prelude::*;

use crate::calendar;
use crate::calendar::{EPOCH_DAY, MAX_SECONDS, MIN_SECONDS};
use crate::exceptions::AwsLogsError;
use crate::pattern;
use crate::text;

verus! {

/// Source of the present time.
pub trait Clock: Send + Sync {
    /// The present time, in milliseconds since the epoch.
    fn utcnow(&self) -> i64;
}

/// The clock of the machine.
pub struct SystemClock;

impl Clock for SystemClock {
    fn utcnow(&self) -> (now: i64)
        ensures
            clock_shows(now),
    {
        calendar::system_millis()
    }
}

// ── numbers in a text ───────────────────────────────────────────────────────
/// Every character of `s` is an ASCII digit.
pub open spec fn ascii_digits(s: Seq<char>) -> bool {
    forall|i: int| 0 <= i < s.len() ==> text::is_ascii_digit(#[trigger] s[i])
}

/// The number that ASCII digits spell in decimal.
pub open spec fn digits_value(s: Seq<char>) -> int
    decreases s.len(),
{
    if s.len() == 0 {
        0
    } else {
        digits_value(s.drop_last()) * 10 + text::digit_value(s.last())
    }
}

proof fn lemma_digits_value_grows(s: Seq<char>, k: int)
    requires
        ascii_digits(s),
        0 <= k <= s.len(),
    ensures
        0 <= digits_value(s.take(k)) <= digits_value(s),
    decreases s.len(),
{
    if k == s.len() {
        assert(s.take(k) == s);
        if s.len() > 0 {
            lemma_digits_value_grows(s.drop_last(), k - 1);
            assert(s.drop_last().take(k - 1) == s.drop_last());
            assert(text::is_ascii_digit(s[s.len() - 1]));
        }
    } else {
        lemma_digits_value_grows(s.drop_last(), k);
        assert(s.drop_last().take(k) == s.take(k));
        assert(text::is_ascii_digit(s[s.len() - 1]));
    }
}

/// The number that `chars[from..to]` spells, where all of it is ASCII digits and the number is
/// at most `limit`.
fn number(chars: &Vec<char>, from: usize, to: usize, limit: u64) -> (res: Option<u64>)
    requires
        from <= to <= chars@.len(),
        limit <= 1_000_000_000_000_000_000,
    ensures
        res is Some == (ascii_digits(chars@.subrange(from as int, to as int)) && digits_value(
            chars@.subrange(from as int, to as int),
        ) <= limit),
        res matches Some(v) ==> v == digits_value(chars@.subrange(from as int, to as int)),
{
    let ghost all = chars@.subrange(from as int, to as int);
    let mut value: u64 = 0;
    let mut i: usize = from;
    while i < to
        invariant
            from <= i <= to <= chars@.len(),
            limit <= 1_000_000_000_000_000_000,
            all == chars@.subrange(from as int, to as int),
            ascii_digits(all.take(i - from)),
            value == digits_value(all.take(i - from)),
            value <= limit,
        decreases to - i,
    {
        let c = chars[i];
        let ghost k = i - from;
        assert(all[k] == c);
        assert(all.take(k + 1).drop_last() == all.take(k));
        assert(all.take(k + 1).last() == c);
        if !('0' <= c && c <= '9') {
            assert(!text::is_ascii_digit(all[k]));
            return None;
        }
        assert forall|j: int| 0 <= j < all.take(k + 1).len() implies text::is_ascii_digit(
            #[trigger] all.take(k + 1)[j],
        ) by {
            if j < k {
                assert(all.take(k)[j] == all.take(k + 1)[j]);
            }
        }
        let d: u64 = c as u64 - 48;
        value = value * 10 + d;
        assert(value == digits_value(all.take(k + 1)));
        if value > limit {
            proof {
                if ascii_digits(all) {
                    lemma_digits_value_grows(all, k + 1);
                }
            }
            return None;
        }
        i += 1;
    }
    assert(all.take(i - from) == all);
    Some(value)
}

// ── relative dates ──────────────────────────────────────────────────────────
/// How many decimal digits stand in `s` from position `at` on.
pub open spec fn decimal_run(s: Seq<char>, at: int) -> int
    decreases s.len() - at,
{
    if 0 <= at < s.len() && pattern::is_decimal(s[at]) {
        1 + decimal_run(s, at + 1)
    } else {
        0
    }
}

/// The seconds of a unit, by the unit's first letter.
pub open spec fn unit_seconds(c: char) -> Option<int> {
    if c == 'm' {
        Some(60)
    } else if c == 'h' {
        Some(3600)
    } else if c == 'd' {
        Some(86400)
    } else if c == 'w' {
        Some(604800)
    } else {
        None
    }
}

/// A relative date: digits, at most one whitespace character, and a unit. What follows the
/// unit's first letter plays no part. Gives the digits and the seconds of the unit.
pub open spec fn relative_form(s: Seq<char>) -> Option<(Seq<char>, int)> {
    let n = decimal_run(s, 0);
    let k = if n < s.len() && text::is_space(s[n]) {
        n + 1
    } else {
        n
    };
    if n > 0 && k < s.len() && unit_seconds(s[k]) is Some {
        Some((s.take(n), unit_seconds(s[k])->0))
    } else {
        None
    }
}

/// The milliseconds name an instant of the supported range.
pub open spec fn instant_fits(millis: int) -> bool {
    MIN_SECONDS * 1000 <= millis <= MAX_SECONDS * 1000 + 999
}

/// `millis` with the part below a second dropped, towards the epoch.
pub open spec fn whole_seconds(millis: int) -> int {
    if millis >= 0 {
        millis / 1000 * 1000
    } else {
        -((-millis) / 1000 * 1000)
    }
}

/// The instant that lies the given number of units before `now`.
pub open spec fn relative_instant(digits: Seq<char>, unit: int, now: int) -> int {
    now - digits_value(digits) * unit * 1000
}

/// The digits are a number, and it leads from `now` to an instant of the supported range.
pub open spec fn relative_fits(digits: Seq<char>, unit: int, now: int) -> bool {
    &&& ascii_digits(digits)
    &&& instant_fits(now)
    &&& instant_fits(relative_instant(digits, unit, now))
}

/// A date that can be read at `now`: one that is not relative, or a relative one that leads to
/// an instant of the supported range.
pub open spec fn readable(s: Seq<char>, now: int) -> bool {
    relative_form(s) matches Some((digits, unit)) ==> relative_fits(digits, unit, now)
}

/// A run of digits goes on while there are digits, and ends before anything else.
proof fn lemma_decimal_run(s: Seq<char>, at: int, n: int)
    requires
        0 <= at <= at + n <= s.len(),
        forall|i: int| at <= i < at + n ==> pattern::is_decimal(#[trigger] s[i]),
        at + n < s.len() ==> !pattern::is_decimal(s[at + n]),
    ensures
        decimal_run(s, at) == n,
    decreases n,
{
    if n > 0 {
        assert(pattern::is_decimal(s[at]));
        lemma_decimal_run(s, at + 1, n - 1);
    }
}

/// What a run of digits is.
proof fn lemma_decimal_run_is(s: Seq<char>, at: int)
    requires
        0 <= at <= s.len(),
    ensures
        0 <= decimal_run(s, at) <= s.len() - at,
        forall|i: int|
            at <= i < at + decimal_run(s, at) ==> pattern::is_decimal(#[trigger] s[i]),
        at + decimal_run(s, at) < s.len() ==> !pattern::is_decimal(s[at + decimal_run(s, at)]),
    decreases s.len() - at,
{
    if at < s.len() && pattern::is_decimal(s[at]) {
        lemma_decimal_run_is(s, at + 1);
    }
}

/// A timestamp as it is printed is not a relative date.
proof fn lemma_timestamp_not_relative(c: calendar::Civil)
    requires
        0 <= c.year <= 9999,
    ensures
        calendar::civil_text(c).len() > 0,
        relative_form(calendar::civil_text(c)) is None,
{
    let s = calendar::civil_text(c);
    let year = text::padded_text(c.year as nat, 4);
    text::lemma_padded_text(c.year as nat, 4);
    reveal_strlit("-");
    assert(s.take(4) == year);
    assert forall|i: int| 0 <= i < 4 implies pattern::is_decimal(#[trigger] s[i]) by {
        assert(s[i] == year[i]);
        assert(text::is_ascii_digit(year[i]));
    }
    assert(s[4] == '-');
    lemma_decimal_run(s, 0, 4);
}

fn unit_of(c: char) -> (res: Option<u64>)
    ensures
        res is Some == unit_seconds(c) is Some,
        res matches Some(u) ==> u == unit_seconds(c)->0 && 60 <= u <= 604800,
{
    match c {
        'm' => Some(60),
        'h' => Some(3600),
        'd' => Some(86400),
        'w' => Some(604800),
        _ => None,
    }
}

/// The number of digits and the unit's seconds, where the text is a relative date.
fn relative_parts(chars: &Vec<char>) -> (res: Option<(usize, u64)>)
    ensures
        res is Some == relative_form(chars@) is Some,
        res matches Some((n, unit)) ==> {
            &&& n <= chars@.len()
            &&& relative_form(chars@) == Some((chars@.take(n as int), unit as int))
            &&& 60 <= unit <= 604800
        },
{
    let mut n: usize = 0;
    while n < chars.len() && pattern::decimal_digit(chars[n])
        invariant
            n <= chars@.len(),
            decimal_run(chars@, 0) == n + decimal_run(chars@, n as int),
        decreases chars.len() - n,
    {
        n += 1;
    }
    assert(decimal_run(chars@, 0) == n);
    let mut k: usize = n;
    if n < chars.len() && text::is_whitespace(chars[n]) {
        k = n + 1;
    }
    if n == 0 || k >= chars.len() {
        return None;
    }
    match unit_of(chars[k]) {
        Some(unit) => Some((n, unit)),
        None => None,
    }
}

/// The instant `chars[..n]` units before `now`, where there is one.
fn shift_back(chars: &Vec<char>, n: usize, unit: u64, now: i64) -> (res: Option<i64>)
    requires
        n <= chars@.len(),
        60 <= unit <= 604800,
    ensures
        res is Some == relative_fits(chars@.take(n as int), unit as int, now as int),
        res matches Some(t) ==> t == relative_instant(
            chars@.take(n as int),
            unit as int,
            now as int,
        ),
{
    let ghost digits = chars@.take(n as int);
    assert(chars@.subrange(0, n as int) == digits);
    if now < MIN_SECONDS * 1000 || now > MAX_SECONDS * 1000 + 999 {
        return None;
    }
    match number(chars, 0, n, 1_000_000_000_000) {
        Some(amount) => {
            assert(amount * unit <= 1_000_000_000_000 * 604800) by (nonlinear_arith)
                requires
                    amount <= 1_000_000_000_000,
                    unit <= 604800,
            ;
            let seconds: u64 = amount * unit;
            if seconds > 20_000_000_000_000 {
                return None;
            }
            let t: i64 = now - seconds as i64 * 1000;
            if t < MIN_SECONDS * 1000 {
                None
            } else {
                Some(t)
            }
        },
        None => {
            proof {
                if ascii_digits(digits) {
                    let v = digits_value(digits);
                    assert(v * unit >= 1_000_000_000_000 * 60) by (nonlinear_arith)
                        requires
                            v >= 1_000_000_000_000,
                            unit >= 60,
                    ;
                }
            }
            None
        },
    }
}

fn drop_subsecond(millis: i64) -> (res: i64)
    requires
        instant_fits(millis as int),
    ensures
        res == whole_seconds(millis as int),
{
    if millis >= 0 {
        millis / 1000 * 1000
    } else {
        -((-millis) / 1000 * 1000)
    }
}

// ── texts that chrono reads by a format ─────────────────────────────────────
/// The formats that dates are read by.
pub open spec fn is_date_format(format: Seq<char>) -> bool {
    ||| format == "%Y-%m-%dT%H:%M:%S%.fZ"@
    ||| format == "%Y-%m-%dT%H:%M:%S%.f"@
    ||| format == "%Y-%m-%dT%H:%M:%S"@
    ||| format == "%Y-%m-%d %H:%M:%S"@
    ||| format == "%Y-%m-%d %H:%M"@
    ||| format == "%Y-%m-%d"@
}

/// `a` where there is one, else `b`.
pub open spec fn or_else(a: Option<int>, b: Option<int>) -> Option<int> {
    if a is Some {
        a
    } else {
        b
    }
}

/// The seconds that a text means by a format that has a date and a time.
pub open spec fn seconds_by(s: Seq<char>, format: Seq<char>) -> Option<int> {
    match calendar::datetime_seconds(s, format) {
        Some(t) => Some(t as int),
        None => None,
    }
}

/// The seconds that a text means by a format: those of the date and time, or else those of the
/// midnight that begins the date.
pub open spec fn naive_by(s: Seq<char>, format: Seq<char>) -> Option<int> {
    or_else(
        seconds_by(s, format),
        match calendar::date_days(s, format) {
            Some(n) => Some((n - EPOCH_DAY) * 86400),
            None => None,
        },
    )
}

/// A date and time without zone, read as UTC: the first format that fits decides.
pub open spec fn naive_seconds(s: Seq<char>) -> Option<int> {
    or_else(
        naive_by(s, "%Y-%m-%dT%H:%M:%S%.fZ"@),
        or_else(
            naive_by(s, "%Y-%m-%dT%H:%M:%S%.f"@),
            or_else(
                naive_by(s, "%Y-%m-%dT%H:%M:%S"@),
                or_else(
                    naive_by(s, "%Y-%m-%d %H:%M:%S"@),
                    or_else(naive_by(s, "%Y-%m-%d %H:%M"@), naive_by(s, "%Y-%m-%d"@)),
                ),
            ),
        ),
    )
}

/// Seconds that name an instant of the supported range.
pub open spec fn second_fits(seconds: int) -> bool {
    MIN_SECONDS <= seconds <= MAX_SECONDS
}

/// `res` holds exactly the number that `want` is.
pub open spec fn gives(res: Option<i64>, want: Option<int>) -> bool {
    match res {
        Some(t) => want == Some(t as int),
        None => want is None,
    }
}

/// `s` is a date and time of day without a zone, of the fields of `c`: `YYYY-MM-DD HH:MM:SS`,
/// `YYYY-MM-DDTHH:MM:SS` or `YYYY-MM-DD HH:MM`.
pub open spec fn is_local(c: calendar::Civil, s: Seq<char>) -> bool {
    &&& c.valid()
    &&& 0 <= c.year <= 9999
    &&& {
        ||| s == calendar::local_text(c)
        ||| s == calendar::iso_text(c)
        ||| c.second == 0 && s == calendar::minute_text(c)
    }
}

/// `s` is a date without a time of day, `YYYY-MM-DD`, and `c` the midnight that begins it.
pub open spec fn is_day(c: calendar::Civil, s: Seq<char>) -> bool {
    &&& c.valid()
    &&& 0 <= c.year <= 9999
    &&& c.hour == 0 && c.minute == 0 && c.second == 0
    &&& s == calendar::day_text(c)
}

/// A date without zone is too short for a timestamp, begins with a year, and has no sign behind
/// its month.
#[verifier::spinoff_prover]
proof fn lemma_naive(c: calendar::Civil, s: Seq<char>)
    requires
        is_local(c, s) || is_day(c, s),
    ensures
        10 <= s.len() < 20,
        calendar::opens_with_year(s),
        text::is_ascii_digit(s.last()),
        forall|i: int| 0 <= i < s.len() ==> s[i] != '\n' && s[i] != 'Z',
        s.contains('T') == (s == calendar::iso_text(c)),
        is_day(c, s) ==> !s.contains(':'),
        zone_form(s) is None,
        relative_form(s) is None,
{
    reveal_strlit(" ");
    reveal_strlit("T");
    reveal_strlit(":");
    let day = calendar::day_text(c);
    let clock = calendar::clock_text(c);
    let second = text::padded_text(c.second as nat, 2);
    calendar::lemma_day_text(c);
    calendar::lemma_clock_text(c);
    text::lemma_padded_text(c.second as nat, 2);
    assert forall|i: int| 0 <= i < s.len() implies {
        let x = #[trigger] s[i];
        ||| text::is_ascii_digit(x)
        ||| (i == 4 || i == 7) && x == '-'
        ||| i == 10 && x == (if s == calendar::iso_text(c) {
            'T'
        } else {
            ' '
        })
        ||| (i == 13 || i == 16) && x == ':'
    } by {
        if i < 10 {
            assert(s[i] == day[i]);
        } else if 10 < i < 16 {
            assert(s[i] == clock[i - 11]);
        } else if 16 < i {
            assert(s[i] == second[i - 17]);
        }
    }
    assert(s[0] == day[0] && s[1] == day[1] && s[2] == day[2] && s[3] == day[3] && s[4] == day[4]);
    assert(s[7] == day[7]);
    if s == calendar::iso_text(c) {
        assert(s[10] == 'T');
    }
    assert forall|i: int| 7 < i < s.len() implies s[i] != '+' && s[i] != '-' by {}
    lemma_last_sign(s, 7);
    lemma_year_not_relative(s);
}

/// The last sign is the one behind which there is none.
proof fn lemma_last_sign(s: Seq<char>, p: int)
    requires
        0 <= p < s.len(),
        s[p] == '+' || s[p] == '-',
        forall|i: int| p < i < s.len() ==> s[i] != '+' && s[i] != '-',
    ensures
        last_sign(s) == p,
    decreases s.len(),
{
    if p < s.len() - 1 {
        lemma_last_sign(s.drop_last(), p);
    }
}

/// A text that begins with a year is not a relative date.
proof fn lemma_year_not_relative(s: Seq<char>)
    requires
        calendar::opens_with_year(s),
    ensures
        relative_form(s) is None,
{
    assert forall|i: int| 0 <= i < 4 implies pattern::is_decimal(#[trigger] s[i]) by {
        assert(i == 0 || i == 1 || i == 2 || i == 3);
    }
    lemma_decimal_run(s, 0, 4);
}

/// A text that begins with a day is not a relative date.
proof fn lemma_day_not_relative(s: Seq<char>)
    requires
        calendar::opens_with_day(s),
    ensures
        relative_form(s) is None,
{
    if s[1] == '/' {
        lemma_decimal_run(s, 0, 1);
    } else {
        lemma_decimal_run(s, 0, 2);
    }
}

/// The local part of a date with a zone begins as the date does.
proof fn lemma_zone_stem(s: Seq<char>, p: int)
    requires
        4 <= p < s.len(),
        s[p - 3] == 'U',
    ensures
        calendar::opens_with_day(s) ==> calendar::opens_with_day(
            text::trimmed_end(s.take(p - 3)),
        ),
        calendar::opens_with_year(text::trimmed_end(s.take(p - 3))) ==> calendar::opens_with_year(
            s,
        ),
        calendar::digitless(s) ==> calendar::digitless(text::trimmed_end(s.take(p - 3))),
        s.contains('U'),
{
    let head = s.take(p - 3);
    text::lemma_trimmed_end(head);
    let stem = text::trimmed_end(head);
    assert(forall|i: int| 0 <= i < stem.len() ==> stem[i] == s[i]);
    if calendar::opens_with_day(s) {
        let n = if s[1] == '/' {
            1int
        } else {
            2
        };
        assert(s[n] == '/' && n < p - 3);
        assert(!text::is_space('/'));
        if stem.len() <= n {
            assert(text::is_space(head[n]));
        }
    }
}

/// What stands in the formats.
proof fn lemma_formats()
    ensures
        "%Y-%m-%dT%H:%M:%S%.fZ"@.contains('T'),
        "%Y-%m-%dT%H:%M:%S%.fZ"@.contains('Z'),
        "%Y-%m-%dT%H:%M:%S%.fZ"@.contains(':'),
        "%Y-%m-%dT%H:%M:%S%.f"@.contains('T'),
        "%Y-%m-%dT%H:%M:%S%.f"@.contains(':'),
        "%Y-%m-%dT%H:%M:%S"@.contains('T'),
        "%Y-%m-%dT%H:%M:%S"@.contains(':'),
        !"%Y-%m-%d %H:%M:%S"@.contains('T'),
        "%Y-%m-%d %H:%M:%S"@.contains(':'),
        "%Y-%m-%d %H:%M"@.contains(':'),
{
    reveal_strlit("%Y-%m-%dT%H:%M:%S%.fZ");
    reveal_strlit("%Y-%m-%dT%H:%M:%S%.f");
    reveal_strlit("%Y-%m-%dT%H:%M:%S");
    reveal_strlit("%Y-%m-%d %H:%M:%S");
    reveal_strlit("%Y-%m-%d %H:%M");
    assert("%Y-%m-%dT%H:%M:%S%.fZ"@[8] == 'T');
    assert("%Y-%m-%dT%H:%M:%S%.fZ"@[11] == ':');
    assert("%Y-%m-%dT%H:%M:%S%.fZ"@[20] == 'Z');
    assert("%Y-%m-%dT%H:%M:%S%.f"@[8] == 'T');
    assert("%Y-%m-%dT%H:%M:%S%.f"@[11] == ':');
    assert("%Y-%m-%dT%H:%M:%S"@[8] == 'T');
    assert("%Y-%m-%dT%H:%M:%S"@[11] == ':');
    assert("%Y-%m-%d %H:%M:%S"@[11] == ':');
    assert("%Y-%m-%d %H:%M"@[11] == ':');
}

fn read_by(raw: &str, format: &str) -> (res: Option<i64>)
    requires
        is_date_format(format@),
    ensures
        gives(res, naive_by(raw@, format@)),
        res matches Some(t) ==> second_fits(t as int),
        calendar::digitless(raw@) || calendar::opens_with_day(raw@) ==> res is None,
        format@.contains('T') != raw@.contains('T') ==> res is None,
        format@.contains('Z') && !raw@.contains('Z') ==> res is None,
        format@.contains(':') && !raw@.contains(':') ==> res is None,
        forall|c: calendar::Civil|
            c.valid() && 0 <= c.year <= 9999 && format@ == "%Y-%m-%d %H:%M:%S"@ && raw@
                == #[trigger] calendar::local_text(c) ==> res is Some && res->0 == c.seconds(),
        forall|c: calendar::Civil|
            c.valid() && 0 <= c.year <= 9999 && format@ == "%Y-%m-%dT%H:%M:%S%.f"@ && raw@
                == #[trigger] calendar::iso_text(c) ==> res is Some && res->0 == c.seconds(),
        forall|c: calendar::Civil|
            c.valid() && 0 <= c.year <= 9999 && raw@ == #[trigger] calendar::minute_text(c) ==> {
                &&& format@ == "%Y-%m-%d %H:%M:%S"@ ==> res is None
                &&& format@ == "%Y-%m-%d %H:%M"@ && c.second == 0 ==> res is Some && res->0
                    == c.seconds()
            },
        forall|c: calendar::Civil| #[trigger]
            is_day(c, raw@) && format@ == "%Y-%m-%d"@ ==> res is Some && res->0 == c.seconds(),
{
    match calendar::parse_datetime_format(raw, format) {
        Some(t) => Some(t),
        None => match calendar::parse_date_format(raw, format) {
            Some(n) => Some((n as i64 - EPOCH_DAY) * 86400),
            None => None,
        },
    }
}

fn read_naive(raw: &str) -> (res: Option<i64>)
    ensures
        gives(res, naive_seconds(raw@)),
        res matches Some(t) ==> second_fits(t as int),
        calendar::digitless(raw@) || calendar::opens_with_day(raw@) ==> res is None,
        forall|c: calendar::Civil| #[trigger]
            is_local(c, raw@) ==> res is Some && res->0 == c.seconds(),
        forall|c: calendar::Civil| #[trigger]
            is_day(c, raw@) ==> res is Some && res->0 == c.seconds(),
{
    proof {
        lemma_formats();
        assert forall|c: calendar::Civil| #[trigger] is_local(c, raw@) implies !raw@.contains('Z')
            && raw@.contains('T') == (raw@ == calendar::iso_text(c)) by {
            lemma_naive(c, raw@);
        }
        assert forall|c: calendar::Civil| #[trigger] is_day(c, raw@) implies !raw@.contains(':') by {
            lemma_naive(c, raw@);
        }
    }
    if let Some(t) = read_by(raw, "%Y-%m-%dT%H:%M:%S%.fZ") {
        return Some(t);
    }
    if let Some(t) = read_by(raw, "%Y-%m-%dT%H:%M:%S%.f") {
        return Some(t);
    }
    if let Some(t) = read_by(raw, "%Y-%m-%dT%H:%M:%S") {
        return Some(t);
    }
    if let Some(t) = read_by(raw, "%Y-%m-%d %H:%M:%S") {
        return Some(t);
    }
    if let Some(t) = read_by(raw, "%Y-%m-%d %H:%M") {
        return Some(t);
    }
    read_by(raw, "%Y-%m-%d")
}

// ── `2016-08-31 10:23:25 UTC-8` ─────────────────────────────────────────────
/// The position of the last plus or minus sign, or -1.
pub open spec fn last_sign(s: Seq<char>) -> int
    decreases s.len(),
{
    if s.len() == 0 {
        -1
    } else if s.last() == '+' || s.last() == '-' {
        s.len() - 1
    } else {
        last_sign(s.drop_last())
    }
}

/// Every character of `s` is a decimal digit.
pub open spec fn decimals(s: Seq<char>) -> bool {
    forall|i: int| 0 <= i < s.len() ==> pattern::is_decimal(#[trigger] s[i])
}

/// The digits of the hours and of the minutes of an offset: one or two digits for the hours,
/// then two for the minutes or none, with or without a colon between.
pub open spec fn offset_digits(t: Seq<char>) -> Option<(Seq<char>, Seq<char>)> {
    let n = t.len() as int;
    if 1 <= n <= 2 && decimals(t) {
        Some((t, Seq::empty()))
    } else if 3 <= n <= 4 && decimals(t) {
        Some((t.take(n - 2), t.skip(n - 2)))
    } else if 4 <= n <= 5 && t[n - 3] == ':' && decimals(t.take(n - 3)) && decimals(t.skip(n - 2)) {
        Some((t.take(n - 3), t.skip(n - 2)))
    } else {
        None
    }
}

/// The offset from UTC in seconds: less than a day, and taken as an eastern one where the
/// hours are zero. Hours in other than ASCII digits are no offset; such minutes are none.
pub open spec fn offset_seconds(negative: bool, hours: Seq<char>, minutes: Seq<char>) -> Option<
    int,
> {
    let h = digits_value(hours);
    let m = if ascii_digits(minutes) {
        digits_value(minutes)
    } else {
        0
    };
    let magnitude = h * 3600 + m * 60;
    if ascii_digits(hours) && magnitude < 86400 {
        Some(
            if negative && h > 0 {
                -magnitude
            } else {
                magnitude
            },
        )
    } else {
        None
    }
}

/// A text that ends in whitespace, `UTC` and an offset: what stands before that whitespace, on
/// one line, and the offset in seconds.
pub open spec fn zone_form(s: Seq<char>) -> Option<(Seq<char>, int)> {
    let p = last_sign(s);
    let head = s.take(p - 3);
    let stem = text::trimmed_end(head);
    match offset_digits(s.skip(p + 1)) {
        Some((hours, minutes)) => if p >= 4 && s[p - 3] == 'U' && s[p - 2] == 'T' && s[p - 1] == 'C'
            && stem.len() < head.len() && !stem.contains('\n') {
            match offset_seconds(s[p] == '-', hours, minutes) {
                Some(offset) => Some((stem, offset)),
                None => None,
            }
        } else {
            None
        },
        None => None,
    }
}

/// The seconds of a local date and time, without the offset taken off: the first format that
/// fits decides.
pub open spec fn local_seconds(s: Seq<char>) -> Option<int> {
    or_else(
        seconds_by(s, "%Y-%m-%d %H:%M:%S"@),
        or_else(seconds_by(s, "%Y-%m-%dT%H:%M:%S"@), seconds_by(s, "%Y-%m-%d %H:%M"@)),
    )
}

/// A local date and time with an offset from UTC.
pub open spec fn zoned_seconds(s: Seq<char>) -> Option<int> {
    match zone_form(s) {
        Some((stem, offset)) => match local_seconds(stem) {
            Some(t) => if second_fits(t - offset) {
                Some(t - offset)
            } else {
                None
            },
            None => None,
        },
        None => None,
    }
}

fn all_decimal(chars: &Vec<char>, from: usize, to: usize) -> (res: bool)
    requires
        from <= to <= chars@.len(),
    ensures
        res == decimals(chars@.subrange(from as int, to as int)),
{
    let mut i: usize = from;
    while i < to
        invariant
            from <= i <= to <= chars@.len(),
            forall|j: int| from <= j < i ==> pattern::is_decimal(#[trigger] chars@[j]),
        decreases to - i,
    {
        if !pattern::decimal_digit(chars[i]) {
            assert(!pattern::is_decimal(chars@.subrange(from as int, to as int)[i - from]));
            return false;
        }
        i += 1;
    }
    true
}

/// The ends of the hours and the start of the minutes in `chars[at..]`.
fn split_offset(chars: &Vec<char>, at: usize) -> (res: Option<(usize, usize)>)
    requires
        at <= chars@.len(),
    ensures
        res is Some == offset_digits(chars@.skip(at as int)) is Some,
        res matches Some((h, m)) ==> {
            &&& at < h <= m <= chars@.len()
            &&& h - at <= 2
            &&& chars@.len() - m <= 2
            &&& offset_digits(chars@.skip(at as int)) == Some(
                (
                    chars@.subrange(at as int, h as int),
                    chars@.subrange(m as int, chars@.len() as int),
                ),
            )
        },
{
    let len = chars.len();
    let n: usize = len - at;
    let ghost t = chars@.skip(at as int);
    assert(t == chars@.subrange(at as int, len as int));
    if n == 0 || n > 5 {
        return None;
    }
    if n <= 4 && all_decimal(chars, at, len) {
        if n <= 2 {
            assert(chars@.subrange(len as int, len as int) == Seq::<char>::empty());
            return Some((len, len));
        }
        assert(t.take(n - 2) == chars@.subrange(at as int, len - 2));
        assert(t.skip(n - 2) == chars@.subrange(len - 2, len as int));
        return Some((len - 2, len - 2));
    }
    if n >= 4 {
        assert(t.take(n - 3) == chars@.subrange(at as int, len - 3));
        assert(t.skip(n - 2) == chars@.subrange(len - 2, len as int));
        if chars[len - 3] == ':' && all_decimal(chars, at, len - 3) && all_decimal(
            chars,
            len - 2,
            len,
        ) {
            return Some((len - 3, len - 2));
        }
    }
    None
}

proof fn lemma_small_digits(s: Seq<char>)
    requires
        s.len() <= 4,
        ascii_digits(s),
    ensures
        0 <= digits_value(s) <= 9999,
        s.len() <= 2 ==> digits_value(s) <= 99,
{
    reveal_with_fuel(digits_value, 5);
    assert forall|i: int| 0 <= i < s.len() implies 0 <= text::digit_value(#[trigger] s[i]) <= 9 by {
        assert(text::is_ascii_digit(s[i]));
    }
    if s.len() > 0 {
        let a = s.drop_last();
        assert(s.last() == s[s.len() - 1]);
        if a.len() > 0 {
            let b = a.drop_last();
            assert(a.last() == s[s.len() - 2]);
            if b.len() > 0 {
                let c = b.drop_last();
                assert(b.last() == s[s.len() - 3]);
                if c.len() > 0 {
                    assert(c.last() == s[s.len() - 4]);
                }
            }
        }
    }
}

fn read_offset(chars: &Vec<char>, p: usize, h: usize, m: usize) -> (res: Option<i64>)
    requires
        p < h <= m <= chars@.len(),
        h - p <= 3,
        chars@.len() - m <= 2,
    ensures
        gives(
            res,
            offset_seconds(
                chars@[p as int] == '-',
                chars@.subrange(p + 1, h as int),
                chars@.subrange(m as int, chars@.len() as int),
            ),
        ),
        res matches Some(t) ==> -86400 < t < 86400,
{
    let ghost hs = chars@.subrange(p + 1, h as int);
    let ghost ms = chars@.subrange(m as int, chars@.len() as int);
    proof {
        if ascii_digits(hs) {
            lemma_small_digits(hs);
        }
        if ascii_digits(ms) {
            lemma_small_digits(ms);
        }
    }
    match number(chars, p + 1, h, 99) {
        Some(hours) => {
            let minutes = match number(chars, m, chars.len(), 99) {
                Some(v) => v,
                None => 0,
            };
            let magnitude: i64 = hours as i64 * 3600 + minutes as i64 * 60;
            if magnitude >= 86400 {
                None
            } else if chars[p] == '-' && hours > 0 {
                Some(-magnitude)
            } else {
                Some(magnitude)
            }
        },
        None => None,
    }
}

fn read_local(stem: &str) -> (res: Option<i64>)
    ensures
        gives(res, local_seconds(stem@)),
        res matches Some(t) ==> second_fits(t as int),
        calendar::digitless(stem@) || calendar::opens_with_day(stem@) ==> res is None,
        forall|c: calendar::Civil| #[trigger]
            is_local(c, stem@) ==> res is Some && res->0 == c.seconds(),
{
    proof {
        lemma_formats();
        assert forall|c: calendar::Civil| #[trigger] is_local(c, stem@) implies stem@.contains('T')
            == (stem@ == calendar::iso_text(c)) by {
            lemma_naive(c, stem@);
        }
    }
    if let Some(t) = calendar::parse_datetime_format(stem, "%Y-%m-%d %H:%M:%S") {
        return Some(t);
    }
    if let Some(t) = calendar::parse_datetime_format(stem, "%Y-%m-%dT%H:%M:%S") {
        return Some(t);
    }
    calendar::parse_datetime_format(stem, "%Y-%m-%d %H:%M")
}

fn has_newline(s: &str) -> (res: bool)
    ensures
        res == s@.contains('\n'),
{
    let chars = text::chars_of(s);
    let mut i: usize = 0;
    while i < chars.len()
        invariant
            i <= chars@.len(),
            chars@ == s@,
            forall|j: int| 0 <= j < i ==> chars@[j] != '\n',
        decreases chars.len() - i,
    {
        if chars[i] == '\n' {
            assert(s@[i as int] == '\n');
            return true;
        }
        i += 1;
    }
    false
}

/// `s` is a date and time of day of the fields of `c`, behind which a zone stands that is `offset`
/// seconds ahead of UTC.
pub open spec fn is_zoned(c: calendar::Civil, offset: int, s: Seq<char>) -> bool {
    zone_form(s) matches Some((stem, o)) && is_local(c, stem) && o == offset
}

/// The seconds of the years 0 to 9999.
proof fn lemma_seconds_of_small_years(c: calendar::Civil)
    requires
        c.valid(),
        0 <= c.year <= 9999,
    ensures
        -62_167_219_200 <= c.seconds() <= 253_402_300_799,
{
    reveal_with_fuel(calendar::day_of_year, 13);
}

/// Reads a local date and time with an offset, such as `2016-08-31 10:23:25 UTC-8`.
fn parse_with_utc_offset(raw: &str) -> (res: Option<i64>)
    ensures
        gives(res, zoned_seconds(raw@)),
        res matches Some(t) ==> second_fits(t as int),
        calendar::digitless(raw@) || calendar::opens_with_day(raw@) ==> res is None,
        zone_form(raw@) is None ==> res is None,
        forall|c: calendar::Civil, offset: int| #[trigger]
            is_zoned(c, offset, raw@) ==> res is Some && res->0 == c.seconds() - offset,
{
    let chars = text::chars_of(raw);
    let mut end: usize = chars.len();
    assert(raw@.take(end as int) == raw@);
    while end > 0 && chars[end - 1] != '+' && chars[end - 1] != '-'
        invariant
            end <= chars@.len(),
            chars@ == raw@,
            last_sign(raw@.take(end as int)) == last_sign(raw@),
        decreases end,
    {
        assert(raw@.take(end as int).drop_last() == raw@.take(end - 1));
        end -= 1;
    }
    if end < 5 {
        return None;
    }
    let p: usize = end - 1;
    assert(last_sign(raw@) == p);
    match split_offset(&chars, p + 1) {
        Some((h, m)) => {
            if chars[p - 3] != 'U' || chars[p - 2] != 'T' || chars[p - 1] != 'C' {
                return None;
            }
            let head = raw.substring_char(0, p - 3);
            assert(head@ == raw@.take(p - 3));
            let stem = text::trim_end(head);
            if stem.unicode_len() == head.unicode_len() || has_newline(stem) {
                proof {
                    text::lemma_trimmed_end(head@);
                }
                return None;
            }
            proof {
                text::lemma_trimmed_end(head@);
                lemma_zone_stem(raw@, p as int);
                assert forall|c: calendar::Civil, offset: int| #[trigger]
                    is_zoned(c, offset, raw@) implies is_local(c, stem@) && -62_167_219_200
                    <= c.seconds() <= 253_402_300_799 by {
                    lemma_seconds_of_small_years(c);
                }
            }
            match read_offset(&chars, p, h, m) {
                Some(offset) => match read_local(stem) {
                    Some(t) => {
                        let utc = t - offset;
                        if utc < MIN_SECONDS || utc > MAX_SECONDS {
                            None
                        } else {
                            Some(utc)
                        }
                    },
                    None => None,
                },
                None => None,
            }
        },
        None => None,
    }
}

// ── `D/M/YYYY [H:MM[:SS]]` ──────────────────────────────────────────────────
/// How many ASCII digits stand in `s` from position `at` on.
pub open spec fn digit_run(s: Seq<char>, at: int) -> int
    decreases s.len() - at,
{
    if 0 <= at < s.len() && text::is_ascii_digit(s[at]) {
        1 + digit_run(s, at + 1)
    } else {
        0
    }
}

/// How many whitespace characters stand in `s` from position `at` on.
pub open spec fn space_run(s: Seq<char>, at: int) -> int
    decreases s.len() - at,
{
    if 0 <= at < s.len() && text::is_space(s[at]) {
        1 + space_run(s, at + 1)
    } else {
        0
    }
}

/// The number at position `at`, if it has from `lo` to `hi` digits, and the position behind it.
pub open spec fn field(s: Seq<char>, at: int, lo: int, hi: int) -> Option<(int, int)> {
    let n = digit_run(s, at);
    if lo <= n <= hi {
        Some((digits_value(s.subrange(at, at + n)), at + n))
    } else {
        None
    }
}

/// `c` stands in `s` at position `at`.
pub open spec fn stands(s: Seq<char>, at: int, c: char) -> bool {
    0 <= at < s.len() && s[at] == c
}

/// A date `D/M/YYYY` at the start of `s`: day, month, year and the position behind it.
pub open spec fn slash_date(s: Seq<char>) -> Option<(int, int, int, int)> {
    match field(s, 0, 1, 2) {
        Some((day, a)) if stands(s, a, '/') => match field(s, a + 1, 1, 2) {
            Some((month, b)) if stands(s, b, '/') => match field(s, b + 1, 4, 4) {
                Some((year, c)) => Some((day, month, year, c)),
                None => None,
            },
            _ => None,
        },
        _ => None,
    }
}

/// A time `H:MM` or `H:MM:SS` from position `at` to the end of `s`.
pub open spec fn colon_time(s: Seq<char>, at: int) -> Option<(int, int, int)> {
    match field(s, at, 1, 2) {
        Some((hour, a)) if stands(s, a, ':') => match field(s, a + 1, 2, 2) {
            Some((minute, b)) => if b == s.len() {
                Some((hour, minute, 0))
            } else if stands(s, b, ':') {
                match field(s, b + 1, 2, 2) {
                    Some((second, c)) if c == s.len() => Some((hour, minute, second)),
                    _ => None,
                }
            } else {
                None
            },
            None => None,
        },
        _ => None,
    }
}

/// The time of day behind a date that ends at `at`: midnight where nothing follows, else a
/// time behind whitespace.
pub open spec fn time_behind(s: Seq<char>, at: int) -> Option<(int, int, int)> {
    if at == s.len() {
        Some((0, 0, 0))
    } else if space_run(s, at) >= 1 {
        colon_time(s, at + space_run(s, at))
    } else {
        None
    }
}

/// A date with the day first, and a time of day or none, read as UTC.
pub open spec fn dmy_seconds(s: Seq<char>) -> Option<int> {
    match slash_date(s) {
        Some((day, month, year, end)) => match time_behind(s, end) {
            Some((hour, minute, second)) => if calendar::valid_date(year, month, day)
                && calendar::valid_time(hour, minute, second) {
                Some(calendar::epoch_seconds(year, month, day, hour, minute, second))
            } else {
                None
            },
            None => None,
        },
        None => None,
    }
}

proof fn lemma_digit_run(s: Seq<char>, at: int)
    requires
        0 <= at <= s.len(),
    ensures
        0 <= digit_run(s, at) <= s.len() - at,
        ascii_digits(s.subrange(at, at + digit_run(s, at))),
    decreases s.len() - at,
{
    if at < s.len() && text::is_ascii_digit(s[at]) {
        lemma_digit_run(s, at + 1);
        let whole = s.subrange(at, at + digit_run(s, at));
        let rest = s.subrange(at + 1, at + 1 + digit_run(s, at + 1));
        assert forall|i: int| 0 <= i < whole.len() implies text::is_ascii_digit(
            #[trigger] whole[i],
        ) by {
            if i > 0 {
                assert(whole[i] == rest[i - 1]);
            }
        }
    }
}

fn read_field(chars: &Vec<char>, at: usize, lo: usize, hi: usize) -> (res: Option<(u64, usize)>)
    requires
        at <= chars@.len(),
        hi <= 4,
    ensures
        match res {
            Some((v, end)) => {
                &&& field(chars@, at as int, lo as int, hi as int) == Some((v as int, end as int))
                &&& v <= 9999
                &&& end <= chars@.len()
            },
            None => field(chars@, at as int, lo as int, hi as int) is None,
        },
{
    let mut n: usize = 0;
    while n <= hi && at + n < chars.len() && '0' <= chars[at + n] && chars[at + n] <= '9'
        invariant
            n <= hi + 1,
            hi <= 4,
            at + n <= chars.len(),
            digit_run(chars@, at as int) == n + digit_run(chars@, at + n),
        decreases hi + 1 - n,
    {
        n += 1;
    }
    proof {
        lemma_digit_run(chars@, at as int);
        lemma_digit_run(chars@, at + n);
    }
    if n < lo || n > hi {
        return None;
    }
    proof {
        lemma_small_digits(chars@.subrange(at as int, at + n));
    }
    match number(chars, at, at + n, 9999) {
        Some(v) => Some((v, at + n)),
        None => None,
    }
}

fn has_char(chars: &Vec<char>, at: usize, c: char) -> (res: bool)
    ensures
        res == stands(chars@, at as int, c),
{
    at < chars.len() && chars[at] == c
}

fn read_slash_date(chars: &Vec<char>) -> (res: Option<(u64, u64, u64, usize)>)
    ensures
        match res {
            Some((day, month, year, end)) => {
                &&& slash_date(chars@) == Some((day as int, month as int, year as int, end as int))
                &&& day <= 9999 && month <= 9999 && year <= 9999
                &&& end <= chars@.len()
            },
            None => slash_date(chars@) is None,
        },
{
    let (day, a) = match read_field(chars, 0, 1, 2) {
        Some(x) => x,
        None => return None,
    };
    if !has_char(chars, a, '/') {
        return None;
    }
    let (month, b) = match read_field(chars, a + 1, 1, 2) {
        Some(x) => x,
        None => return None,
    };
    if !has_char(chars, b, '/') {
        return None;
    }
    match read_field(chars, b + 1, 4, 4) {
        Some((year, c)) => Some((day, month, year, c)),
        None => None,
    }
}

fn read_colon_time(chars: &Vec<char>, at: usize) -> (res: Option<(u64, u64, u64)>)
    requires
        at <= chars@.len(),
    ensures
        match res {
            Some((hour, minute, second)) => {
                &&& colon_time(chars@, at as int) == Some(
                    (hour as int, minute as int, second as int),
                )
                &&& hour <= 9999 && minute <= 9999 && second <= 9999
            },
            None => colon_time(chars@, at as int) is None,
        },
{
    let (hour, a) = match read_field(chars, at, 1, 2) {
        Some(x) => x,
        None => return None,
    };
    if !has_char(chars, a, ':') {
        return None;
    }
    assert(a < chars.len());
    let (minute, b) = match read_field(chars, a + 1, 2, 2) {
        Some(x) => x,
        None => return None,
    };
    if b == chars.len() {
        return Some((hour, minute, 0));
    }
    if !has_char(chars, b, ':') {
        return None;
    }
    match read_field(chars, b + 1, 2, 2) {
        Some((second, c)) => {
            if c == chars.len() {
                Some((hour, minute, second))
            } else {
                None
            }
        },
        None => None,
    }
}

fn read_time_behind(chars: &Vec<char>, at: usize) -> (res: Option<(u64, u64, u64)>)
    requires
        at <= chars@.len(),
    ensures
        match res {
            Some((hour, minute, second)) => {
                &&& time_behind(chars@, at as int) == Some(
                    (hour as int, minute as int, second as int),
                )
                &&& hour <= 9999 && minute <= 9999 && second <= 9999
            },
            None => time_behind(chars@, at as int) is None,
        },
{
    if at == chars.len() {
        return Some((0, 0, 0));
    }
    let mut n: usize = at;
    while n < chars.len() && text::is_whitespace(chars[n])
        invariant
            at <= n <= chars@.len(),
            space_run(chars@, at as int) == n - at + space_run(chars@, n as int),
        decreases chars.len() - n,
    {
        n += 1;
    }
    assert(space_run(chars@, n as int) == 0);
    if n == at {
        return None;
    }
    read_colon_time(chars, n)
}

/// Reads a date with the day first, such as `1/1/2015 12:34`.
fn parse_dmy(raw: &str) -> (res: Option<i64>)
    ensures
        gives(res, dmy_seconds(raw@)),
        res matches Some(t) ==> second_fits(t as int),
{
    let chars = text::chars_of(raw);
    let (day, month, year, end) = match read_slash_date(&chars) {
        Some(x) => x,
        None => return None,
    };
    let (hour, minute, second) = match read_time_behind(&chars, end) {
        Some(x) => x,
        None => return None,
    };
    let days = match calendar::day_number(year as i32, month as u32, day as u32) {
        Some(n) => n,
        None => return None,
    };
    let seconds = match calendar::second_of_day(hour as u32, minute as u32, second as u32) {
        Some(n) => n,
        None => return None,
    };
    proof {
        lemma_days_of_small_years(year as int, month as int, day as int);
    }
    Some((days as i64 - EPOCH_DAY) * 86400 + seconds as i64)
}

proof fn lemma_days_of_small_years(year: int, month: int, day: int)
    requires
        0 <= year <= 9999,
        calendar::valid_date(year, month, day),
    ensures
        -400 <= calendar::days_from_ce(year, month, day) <= 4_000_000,
{
    reveal_with_fuel(calendar::day_of_year, 13);
}

// ── any date ────────────────────────────────────────────────────────────────
/// The seconds that an absolute date means; the first way of reading it that succeeds decides.
pub open spec fn absolute_seconds(s: Seq<char>) -> Option<int> {
    or_else(
        match calendar::rfc3339_seconds(s) {
            Some(t) => Some(t as int),
            None => None,
        },
        or_else(
            match calendar::rfc2822_seconds(s) {
                Some(t) => Some(t as int),
                None => None,
            },
            or_else(zoned_seconds(s), or_else(naive_seconds(s), dmy_seconds(s))),
        ),
    )
}

/// The milliseconds that a date means at `now`.
pub open spec fn date_millis(s: Seq<char>, now: int) -> Option<int> {
    match relative_form(s) {
        Some((digits, unit)) => Some(whole_seconds(relative_instant(digits, unit, now))),
        None => match absolute_seconds(s) {
            Some(t) => Some(t * 1000),
            None => None,
        },
    }
}

/// What reading a date argument at `now` gives: nothing for no text, the milliseconds for a
/// date, and the error that names the text for anything else.
pub open spec fn date_outcome(
    s: Option<Seq<char>>,
    now: int,
    res: Result<Option<i64>, AwsLogsError>,
) -> bool {
    match s {
        None => res == Ok::<Option<i64>, AwsLogsError>(None),
        Some(t) => if t.len() == 0 {
            res == Ok::<Option<i64>, AwsLogsError>(None)
        } else {
            match date_millis(t, now) {
                Some(m) => res matches Ok(Some(v)) && v == m,
                None => unknown_date(t, res),
            }
        },
    }
}

/// The error that names the date that could not be read.
pub open spec fn unknown_date(s: Seq<char>, res: Result<Option<i64>, AwsLogsError>) -> bool {
    res matches Err(AwsLogsError::UnknownDate(raw)) && raw@ == s
}

/// The text of a date argument.
pub open spec fn argument(s: Option<&str>) -> Option<Seq<char>> {
    match s {
        Some(t) => Some(t@),
        None => None,
    }
}

/// `s` is the timestamp `YYYY-MM-DDTHH:MM:SS.mmmZ` of the instant `c`.
pub open spec fn is_timestamp(c: calendar::Civil, s: Seq<char>) -> bool {
    c.valid() && 0 <= c.year <= 9999 && s == calendar::civil_text(c)
}

/// `s` is a timestamp, and reading it gives its second.
pub open spec fn reads_timestamp(
    c: calendar::Civil,
    s: Option<Seq<char>>,
    res: Result<Option<i64>, AwsLogsError>,
) -> bool {
    s matches Some(t) && is_timestamp(c, t) ==> (res matches Ok(Some(m)) && m == c.seconds() * 1000)
}

/// `s` is a date without zone, with or without a time of day, and reading it as UTC gives its
/// second.
pub open spec fn reads_local(
    c: calendar::Civil,
    s: Option<Seq<char>>,
    res: Result<Option<i64>, AwsLogsError>,
) -> bool {
    s matches Some(t) && (is_local(c, t) || is_day(c, t)) ==> (res matches Ok(Some(m)) && m
        == c.seconds() * 1000)
}

/// `s` is a date and time with a zone, and reading it gives its second in UTC.
pub open spec fn reads_zoned(
    c: calendar::Civil,
    offset: int,
    s: Option<Seq<char>>,
    res: Result<Option<i64>, AwsLogsError>,
) -> bool {
    s matches Some(t) && is_zoned(c, offset, t) ==> (res matches Ok(Some(m)) && m == (c.seconds()
        - offset) * 1000)
}

/// `s` begins with a day, and is read with the day first or not at all.
pub open spec fn reads_day_first(
    s: Option<Seq<char>>,
    res: Result<Option<i64>, AwsLogsError>,
) -> bool {
    s matches Some(t) && calendar::opens_with_day(t) ==> match dmy_seconds(s->0) {
        Some(x) => res matches Ok(Some(m)) && m == x * 1000,
        None => unknown_date(s->0, res),
    }
}

/// A text without a digit that is not a relative date is no date.
pub open spec fn refuses_words(s: Option<Seq<char>>, res: Result<Option<i64>, AwsLogsError>) -> bool {
    s matches Some(t) && t.len() > 0 && calendar::digitless(t) && relative_form(t) is None
        ==> unknown_date(s->0, res)
}

/// What is known of a date without asking the `chrono` crate: a timestamp, a date and time of day
/// with or without a zone, a date with the day first, and a text without a digit.
pub open spec fn reads_plainly(s: Option<Seq<char>>, res: Result<Option<i64>, AwsLogsError>) -> bool {
    &&& forall|c: calendar::Civil| #[trigger] reads_timestamp(c, s, res)
    &&& forall|c: calendar::Civil| #[trigger] reads_local(c, s, res)
    &&& forall|c: calendar::Civil, offset: int| #[trigger] reads_zoned(c, offset, s, res)
    &&& reads_day_first(s, res)
    &&& refuses_words(s, res)
}

/// Reads an absolute date, in seconds since the epoch.
fn try_parse_absolute(raw: &str) -> (res: Option<i64>)
    ensures
        gives(res, absolute_seconds(raw@)),
        res matches Some(t) ==> second_fits(t as int),
        forall|c: calendar::Civil| #[trigger]
            is_timestamp(c, raw@) ==> res is Some && res->0 == c.seconds(),
        forall|c: calendar::Civil| #[trigger]
            is_local(c, raw@) ==> res is Some && res->0 == c.seconds(),
        forall|c: calendar::Civil, offset: int| #[trigger]
            is_zoned(c, offset, raw@) ==> res is Some && res->0 == c.seconds() - offset,
        forall|c: calendar::Civil| #[trigger]
            is_day(c, raw@) ==> res is Some && res->0 == c.seconds(),
        calendar::opens_with_day(raw@) ==> gives(res, dmy_seconds(raw@)),
        calendar::digitless(raw@) ==> res is None,
{
    proof {
        assert forall|c: calendar::Civil| #[trigger] is_local(c, raw@) implies raw@.len() < 20
            && calendar::opens_with_year(raw@) && zone_form(raw@) is None by {
            lemma_naive(c, raw@);
        }
        assert forall|c: calendar::Civil| #[trigger] is_day(c, raw@) implies raw@.len() < 20
            && calendar::opens_with_year(raw@) && zone_form(raw@) is None by {
            lemma_naive(c, raw@);
        }
        assert forall|c: calendar::Civil, offset: int| #[trigger]
            is_zoned(c, offset, raw@) implies raw@.contains('U') && calendar::opens_with_year(
            raw@,
        ) by {
            lemma_zoned(c, offset, raw@);
        }
    }
    if let Some(t) = calendar::parse_rfc3339(raw) {
        return Some(t);
    }
    if let Some(t) = calendar::parse_rfc2822(raw) {
        return Some(t);
    }
    if let Some(t) = parse_with_utc_offset(raw) {
        return Some(t);
    }
    if let Some(t) = read_naive(raw) {
        return Some(t);
    }
    parse_dmy(raw)
}

/// A date with a zone begins with a year, and holds the `U` of `UTC`.
proof fn lemma_zoned(c: calendar::Civil, offset: int, s: Seq<char>)
    requires
        is_zoned(c, offset, s),
    ensures
        s.contains('U'),
        calendar::opens_with_year(s),
        relative_form(s) is None,
{
    let (stem, _) = zone_form(s)->0;
    lemma_naive(c, stem);
    lemma_last_sign_range(s);
    lemma_zone_stem(s, last_sign(s));
    lemma_year_not_relative(s);
}

proof fn lemma_last_sign_range(s: Seq<char>)
    ensures
        -1 <= last_sign(s) < s.len(),
    decreases s.len(),
{
    if s.len() > 0 {
        lemma_last_sign_range(s.drop_last());
    }
}

fn absolute_outcome(raw: &str) -> (res: Result<Option<i64>, AwsLogsError>)
    requires
        raw@.len() > 0,
        relative_form(raw@) is None,
    ensures
        forall|now: int| date_outcome(Some(raw@), now, res),
        reads_plainly(Some(raw@), res),
{
    match try_parse_absolute(raw) {
        Some(t) => Ok(Some(t * 1000)),
        None => Err(AwsLogsError::UnknownDate(raw.to_string())),
    }
}

/// What is known without asking the `chrono` crate is neither empty nor a relative date.
proof fn lemma_plain_dates_absolute(s: Seq<char>)
    ensures
        forall|c: calendar::Civil| #[trigger]
            is_timestamp(c, s) ==> s.len() > 0 && relative_form(s) is None,
        forall|c: calendar::Civil| #[trigger]
            is_local(c, s) ==> s.len() > 0 && relative_form(s) is None,
        forall|c: calendar::Civil| #[trigger]
            is_day(c, s) ==> s.len() > 0 && relative_form(s) is None,
        forall|c: calendar::Civil, offset: int| #[trigger]
            is_zoned(c, offset, s) ==> s.len() > 0 && relative_form(s) is None,
        calendar::opens_with_day(s) ==> s.len() > 0 && relative_form(s) is None,
{
    assert forall|c: calendar::Civil| #[trigger] is_timestamp(c, s) implies s.len() > 0
        && relative_form(s) is None by {
        lemma_timestamp_not_relative(c);
    }
    assert forall|c: calendar::Civil| #[trigger] is_local(c, s) implies s.len() > 0
        && relative_form(s) is None by {
        lemma_naive(c, s);
    }
    assert forall|c: calendar::Civil| #[trigger] is_day(c, s) implies s.len() > 0 && relative_form(
        s,
    ) is None by {
        lemma_naive(c, s);
    }
    assert forall|c: calendar::Civil, offset: int| #[trigger] is_zoned(c, offset, s) implies s.len()
        > 0 && relative_form(s) is None by {
        lemma_zoned(c, offset, s);
    }
    if calendar::opens_with_day(s) {
        lemma_day_not_relative(s);
    }
}

/// Reads a date argument at the given time, both in milliseconds since the epoch.
pub fn parse_datetime_at(s: Option<&str>, now: i64) -> (res: Result<Option<i64>, AwsLogsError>)
    requires
        s matches Some(raw) ==> readable(raw@, now as int),
    ensures
        date_outcome(argument(s), now as int, res),
        reads_plainly(argument(s), res),
{
    let raw = match s {
        Some(raw) => raw,
        None => return Ok(None),
    };
    proof {
        lemma_plain_dates_absolute(raw@);
    }
    if raw.is_empty() {
        return Ok(None);
    }
    let chars = text::chars_of(raw);
    match relative_parts(&chars) {
        Some((n, unit)) => match shift_back(&chars, n, unit, now) {
            Some(t) => Ok(Some(drop_subsecond(t))),
            None => Err(AwsLogsError::UnknownDate(raw.to_string())),
        },
        None => absolute_outcome(raw),
    }
}

/// What reading a date argument against a clock that shows `now` gives: as
/// [`date_outcome`] says, and the error that names the text where a relative date leads out
/// of the supported range.
pub open spec fn clocked_outcome(
    s: Option<Seq<char>>,
    now: int,
    res: Result<Option<i64>, AwsLogsError>,
) -> bool {
    if s matches Some(t) && !readable(t, now) {
        unknown_date(s->0, res)
    } else {
        date_outcome(s, now, res)
    }
}

/// The argument is a relative date, so that its meaning depends on the time.
pub open spec fn is_relative(s: Option<Seq<char>>) -> bool {
    s matches Some(t) && relative_form(t) is Some
}

/// Reads a date argument against a clock, in milliseconds since the epoch. The clock is asked
/// only for a relative date.
pub fn parse_datetime_with<C: Clock>(s: Option<&str>, clock: &C) -> (res: Result<
    Option<i64>,
    AwsLogsError,
>)
    ensures
        is_relative(argument(s)) ==> exists|now: i64|
            call_ensures(C::utcnow, (clock,), now) && clocked_outcome(
                argument(s),
                now as int,
                res,
            ),
        !is_relative(argument(s)) ==> date_outcome(argument(s), 0, res),
        reads_plainly(argument(s), res),
{
    let raw = match s {
        Some(raw) => raw,
        None => return Ok(None),
    };
    proof {
        lemma_plain_dates_absolute(raw@);
    }
    let chars = text::chars_of(raw);
    match relative_parts(&chars) {
        Some((n, unit)) => {
            let now = clock.utcnow();
            assert(raw@.len() > 0);
            let res = match shift_back(&chars, n, unit, now) {
                Some(_) => parse_datetime_at(s, now),
                None => Err(AwsLogsError::UnknownDate(raw.to_string())),
            };
            assert(clocked_outcome(argument(s), now as int, res));
            res
        },
        None => parse_datetime_at(s, 0),
    }
}

/// A time that the machine's clock can show: from the epoch to the end of the supported range.
pub open spec fn clock_shows(now: i64) -> bool {
    0 <= now <= MAX_SECONDS * 1000 + 999
}

/// What reading a date argument against the machine's clock gives.
pub open spec fn read_today(s: Option<Seq<char>>, res: Result<Option<i64>, AwsLogsError>) -> bool {
    if is_relative(s) {
        exists|now: i64| #[trigger] clock_shows(now) && clocked_outcome(s, now as int, res)
    } else {
        date_outcome(s, 0, res)
    }
}

/// Reads a date argument against the clock of the machine, in milliseconds since the epoch.
pub fn parse_datetime(s: Option<&str>) -> (res: Result<Option<i64>, AwsLogsError>)
    ensures
        read_today(argument(s), res),
        reads_plainly(argument(s), res),
{
    let res = parse_datetime_with(s, &SystemClock);
    proof {
        if is_relative(argument(s)) {
            let now = choose|now: i64|
                call_ensures(SystemClock::utcnow, (&SystemClock,), now) && clocked_outcome(
                    argument(s),
                    now as int,
                    res,
                );
            assert(clock_shows(now));
        }
    }
    res
}

// ── laws ────────────────────────────────────────────────────────────────────
/// A relative date is a number and a unit, directly behind each other or with one whitespace
/// character between; the unit's first letter decides, and whatever follows it is ignored, be
/// it the rest of the unit's name, ` ago` or anything else.
pub proof fn law_relative_dates(digits: Seq<char>, space: char, unit: char, rest: Seq<char>)
    requires
        digits.len() > 0,
        decimals(digits),
        text::is_space(space),
        unit_seconds(unit) is Some,
    ensures
        relative_form(digits + seq![unit] + rest) == Some((digits, unit_seconds(unit)->0)),
        relative_form(digits + seq![space] + seq![unit] + rest) == Some(
            (digits, unit_seconds(unit)->0),
        ),
{
    let n = digits.len() as int;
    let a = digits + seq![unit] + rest;
    assert forall|i: int| 0 <= i < n implies pattern::is_decimal(#[trigger] a[i]) by {
        assert(a[i] == digits[i]);
    }
    assert(a[n] == unit);
    lemma_decimal_run(a, 0, n);
    assert(a.take(n) == digits);
    let b = digits + seq![space] + seq![unit] + rest;
    assert forall|i: int| 0 <= i < n implies pattern::is_decimal(#[trigger] b[i]) by {
        assert(b[i] == digits[i]);
    }
    assert(b[n] == space);
    assert(b[n + 1] == unit);
    lemma_decimal_run(b, 0, n);
    assert(b.take(n) == digits);
}

/// What follows a relative date is ignored.
pub proof fn law_trailing_text_is_ignored(s: Seq<char>, rest: Seq<char>, now: int)
    requires
        relative_form(s) is Some,
    ensures
        relative_form(s + rest) == relative_form(s),
        readable(s + rest, now) == readable(s, now),
        date_millis(s + rest, now) == date_millis(s, now),
{
    let n = decimal_run(s, 0);
    let t = s + rest;
    lemma_decimal_run_is(s, 0);
    assert forall|i: int| 0 <= i < n implies pattern::is_decimal(#[trigger] t[i]) by {
        assert(t[i] == s[i]);
    }
    assert(n < s.len());
    assert(t[n] == s[n]);
    lemma_decimal_run(t, 0, n);
    assert(t.take(n) == s.take(n));
    if text::is_space(s[n]) {
        assert(t[n + 1] == s[n + 1]);
    }
}

/// Dates are whole seconds.
pub proof fn law_dates_are_whole_seconds(s: Seq<char>, now: int)
    ensures
        date_millis(s, now) matches Some(m) ==> m % 1000 == 0,
{
}

/// A relative date lies at most a second off the named distance before the present, and moves
/// on as the present does.
pub proof fn law_relative_dates_follow_the_clock(s: Seq<char>, now: int, later: int)
    requires
        relative_form(s) is Some,
        now <= later,
    ensures
        ({
            let (digits, unit) = relative_form(s)->0;
            &&& date_millis(s, now)->0 - relative_instant(digits, unit, now) < 1000
            &&& relative_instant(digits, unit, now) - date_millis(s, now)->0 < 1000
            &&& date_millis(s, now)->0 <= date_millis(s, later)->0
        }),
{
}

/// A second with the day first, as `DD/MM/YYYY HH:MM:SS`.
pub open spec fn slash_text(c: calendar::Civil) -> Seq<char> {
    slash_day(c) + " "@ + text::padded_text(c.hour as nat, 2) + ":"@ + text::padded_text(
        c.minute as nat,
        2,
    ) + ":"@ + text::padded_text(c.second as nat, 2)
}

/// A day with the day first, as `DD/MM/YYYY`.
pub open spec fn slash_day(c: calendar::Civil) -> Seq<char> {
    text::padded_text(c.day as nat, 2) + "/"@ + text::padded_text(c.month as nat, 2) + "/"@
        + text::padded_text(c.year as nat, 4)
}

/// A number padded to a width is read as that number.
pub proof fn lemma_padded_value(n: nat, width: nat)
    requires
        n < text::ten_to(width),
    ensures
        digits_value(text::padded_text(n, width)) == n,
    decreases width,
{
    if width > 0 {
        lemma_padded_value(n / 10, (width - 1) as nat);
        let s = text::padded_text(n, width);
        assert(s.drop_last() == text::padded_text(n / 10, (width - 1) as nat));
    }
}

/// A number padded to a width, with no digit behind it, is a field of that width.
proof fn lemma_padded_field(s: Seq<char>, at: int, n: nat, width: nat, lo: int, hi: int)
    requires
        0 <= at,
        at + width <= s.len(),
        s.subrange(at, at + width) == text::padded_text(n, width),
        at + width < s.len() ==> !text::is_ascii_digit(s[at + width]),
        n < text::ten_to(width),
        lo <= width <= hi,
    ensures
        field(s, at, lo, hi) == Some((n as int, at + width)),
{
    text::lemma_padded_text(n, width);
    lemma_padded_value(n, width);
    assert forall|i: int| at <= i < at + width implies text::is_ascii_digit(#[trigger] s[i]) by {
        assert(s[i] == s.subrange(at, at + width)[i - at]);
    }
    lemma_digit_run_to(s, at, width as int);
}

proof fn lemma_digit_run_to(s: Seq<char>, at: int, n: int)
    requires
        0 <= at <= at + n <= s.len(),
        forall|i: int| at <= i < at + n ==> text::is_ascii_digit(#[trigger] s[i]),
        at + n < s.len() ==> !text::is_ascii_digit(s[at + n]),
    ensures
        digit_run(s, at) == n,
    decreases n,
{
    if n > 0 {
        lemma_digit_run_to(s, at + 1, n - 1);
    }
}

/// A date with the day first means the day that it names, at the time of day that follows or at
/// midnight, in UTC.
#[verifier::spinoff_prover]
pub proof fn law_dates_with_the_day_first(c: calendar::Civil)
    requires
        c.valid(),
        0 <= c.year <= 9999,
    ensures
        calendar::opens_with_day(slash_text(c)),
        dmy_seconds(slash_text(c)) == Some(c.seconds()),
        calendar::opens_with_day(slash_day(c)),
        dmy_seconds(slash_day(c)) == Some(
            calendar::epoch_seconds(c.year, c.month, c.day, 0, 0, 0),
        ),
{
    reveal_strlit("/");
    reveal_strlit(" ");
    reveal_strlit(":");
    reveal_with_fuel(text::ten_to, 5);
    text::lemma_padded_text(c.year as nat, 4);
    text::lemma_padded_text(c.month as nat, 2);
    text::lemma_padded_text(c.day as nat, 2);
    text::lemma_padded_text(c.hour as nat, 2);
    text::lemma_padded_text(c.minute as nat, 2);
    text::lemma_padded_text(c.second as nat, 2);
    let d = slash_day(c);
    assert(d.subrange(0, 2) == text::padded_text(c.day as nat, 2));
    assert(d.subrange(3, 5) == text::padded_text(c.month as nat, 2));
    assert(d.subrange(6, 10) == text::padded_text(c.year as nat, 4));
    lemma_padded_field(d, 0, c.day as nat, 2, 1, 2);
    lemma_padded_field(d, 3, c.month as nat, 2, 1, 2);
    lemma_padded_field(d, 6, c.year as nat, 4, 4, 4);
    assert(text::is_ascii_digit(d[0]) && text::is_ascii_digit(d[1])) by {
        assert(d[0] == text::padded_text(c.day as nat, 2)[0]);
        assert(d[1] == text::padded_text(c.day as nat, 2)[1]);
    }
    assert(slash_date(d) == Some((c.day, c.month, c.year, 10int)));
    let s = slash_text(c);
    assert(forall|i: int| 0 <= i < 10 ==> s[i] == d[i]);
    assert(s.subrange(0, 2) == text::padded_text(c.day as nat, 2));
    assert(s.subrange(3, 5) == text::padded_text(c.month as nat, 2));
    assert(s.subrange(6, 10) == text::padded_text(c.year as nat, 4));
    assert(s.subrange(11, 13) == text::padded_text(c.hour as nat, 2));
    assert(s.subrange(14, 16) == text::padded_text(c.minute as nat, 2));
    assert(s.subrange(17, 19) == text::padded_text(c.second as nat, 2));
    lemma_padded_field(s, 0, c.day as nat, 2, 1, 2);
    lemma_padded_field(s, 3, c.month as nat, 2, 1, 2);
    lemma_padded_field(s, 6, c.year as nat, 4, 4, 4);
    lemma_padded_field(s, 11, c.hour as nat, 2, 1, 2);
    lemma_padded_field(s, 14, c.minute as nat, 2, 2, 2);
    lemma_padded_field(s, 17, c.second as nat, 2, 2, 2);
    assert(slash_date(s) == Some((c.day, c.month, c.year, 10int)));
    assert(s[11] == text::padded_text(c.hour as nat, 2)[0]);
    assert(space_run(s, 10) == 1) by {
        reveal_with_fuel(space_run, 2);
    }
}

/// A date and time of day with a zone behind it, as ` UTC-HH:MM`.
pub open spec fn zone_text(stem: Seq<char>, sign: char, hours: nat, minutes: nat) -> Seq<char> {
    stem + " UTC"@ + seq![sign] + (text::padded_text(hours, 2) + ":"@ + text::padded_text(
        minutes,
        2,
    ))
}

/// A date and time of day with a zone behind it, as ` UTC-H`.
pub open spec fn short_zone_text(stem: Seq<char>, sign: char, hours: nat) -> Seq<char> {
    stem + " UTC"@ + seq![sign] + text::padded_text(hours, 1)
}

/// The seconds that a zone is ahead of UTC.
pub open spec fn zone_offset(sign: char, hours: nat, minutes: nat) -> int {
    let magnitude = (hours * 3600 + minutes * 60) as int;
    if sign == '-' {
        -magnitude
    } else {
        magnitude
    }
}

/// A date with a zone is taken apart at the whitespace before `UTC` and behind the sign.
#[verifier::spinoff_prover]
proof fn lemma_zone_form(
    stem: Seq<char>,
    sign: char,
    tail: Seq<char>,
    hours: Seq<char>,
    minutes: Seq<char>,
)
    requires
        stem.len() > 0,
        !text::is_space(stem.last()),
        forall|i: int| 0 <= i < stem.len() ==> stem[i] != '\n',
        sign == '+' || sign == '-',
        forall|i: int| 0 <= i < tail.len() ==> tail[i] != '+' && tail[i] != '-',
        offset_digits(tail) == Some((hours, minutes)),
        offset_seconds(sign == '-', hours, minutes) is Some,
    ensures
        zone_form(stem + " UTC"@ + seq![sign] + tail) == Some(
            (stem, offset_seconds(sign == '-', hours, minutes)->0),
        ),
{
    reveal_strlit(" UTC");
    let n = stem.len() as int;
    let s = stem + " UTC"@ + seq![sign] + tail;
    assert(s[n + 1] == 'U' && s[n + 2] == 'T' && s[n + 3] == 'C' && s[n + 4] == sign);
    assert forall|i: int| n + 4 < i < s.len() implies s[i] != '+' && s[i] != '-' by {
        assert(s[i] == tail[i - n - 5]);
    }
    lemma_last_sign(s, n + 4);
    assert(s.skip(n + 5) == tail);
    let head = s.take(n + 1);
    assert(head == stem.push(' '));
    assert(text::trimmed_end(head) == stem) by {
        assert(head.drop_last() == stem);
        assert(text::is_space(head.last()));
        reveal_with_fuel(text::trimmed_end, 3);
    }
}

/// Two digits of hours, a colon and two digits of minutes are an offset.
#[verifier::spinoff_prover]
proof fn lemma_long_offset(sign: char, hours: nat, minutes: nat)
    requires
        hours < 24,
        minutes < 60,
        sign == '-' ==> hours > 0 || minutes == 0,
    ensures
        ({
            let h = text::padded_text(hours, 2);
            let m = text::padded_text(minutes, 2);
            let tail = h + ":"@ + m;
            &&& forall|i: int| 0 <= i < tail.len() ==> tail[i] != '+' && tail[i] != '-'
            &&& offset_digits(tail) == Some((h, m))
            &&& offset_seconds(sign == '-', h, m) == Some(zone_offset(sign, hours, minutes))
        }),
{
    reveal_strlit(":");
    reveal_with_fuel(text::ten_to, 3);
    let h = text::padded_text(hours, 2);
    let m = text::padded_text(minutes, 2);
    text::lemma_padded_text(hours, 2);
    text::lemma_padded_text(minutes, 2);
    lemma_padded_value(hours, 2);
    lemma_padded_value(minutes, 2);
    lemma_decimals(h);
    lemma_decimals(m);
    let tail = h + ":"@ + m;
    assert forall|i: int| 0 <= i < tail.len() implies tail[i] != '+' && tail[i] != '-' by {
        if i < 2 {
            assert(tail[i] == h[i]);
        } else if i > 2 {
            assert(tail[i] == m[i - 3]);
        }
    }
    assert(tail.take(2) == h);
    assert(tail.skip(3) == m);
    assert(tail[2] == ':');
}

/// One digit of hours is an offset.
#[verifier::spinoff_prover]
proof fn lemma_short_offset(sign: char, hours: nat)
    requires
        hours < 10,
    ensures
        ({
            let h = text::padded_text(hours, 1);
            &&& forall|i: int| 0 <= i < h.len() ==> h[i] != '+' && h[i] != '-'
            &&& offset_digits(h) == Some((h, Seq::<char>::empty()))
            &&& offset_seconds(sign == '-', h, Seq::empty()) == Some(zone_offset(sign, hours, 0))
        }),
{
    reveal_with_fuel(text::ten_to, 2);
    let h = text::padded_text(hours, 1);
    text::lemma_padded_text(hours, 1);
    lemma_padded_value(hours, 1);
    lemma_decimals(h);
}

/// A date and time of day with a zone behind it, such as `2016-08-31 10:23:25 UTC-8`, is a local
/// one, and the zone says how far ahead of UTC that is. A western zone of less than an hour is
/// taken as an eastern one.
pub proof fn law_zones_are_offsets(
    c: calendar::Civil,
    stem: Seq<char>,
    sign: char,
    hours: nat,
    minutes: nat,
)
    requires
        is_local(c, stem),
        sign == '+' || sign == '-',
        hours < 24,
        minutes < 60,
        sign == '-' ==> hours > 0 || minutes == 0,
    ensures
        is_zoned(c, zone_offset(sign, hours, minutes), zone_text(stem, sign, hours, minutes)),
        hours < 10 ==> is_zoned(c, zone_offset(sign, hours, 0), short_zone_text(stem, sign, hours)),
{
    lemma_naive(c, stem);
    let h = text::padded_text(hours, 2);
    let m = text::padded_text(minutes, 2);
    lemma_long_offset(sign, hours, minutes);
    lemma_zone_form(stem, sign, h + ":"@ + m, h, m);
    if hours < 10 {
        let short = text::padded_text(hours, 1);
        lemma_short_offset(sign, hours);
        lemma_zone_form(stem, sign, short, short, Seq::empty());
    }
}

/// ASCII digits are decimal digits.
proof fn lemma_decimals(s: Seq<char>)
    requires
        ascii_digits(s),
    ensures
        decimals(s),
{
    assert forall|i: int| 0 <= i < s.len() implies pattern::is_decimal(#[trigger] s[i]) by {
        assert(text::is_ascii_digit(s[i]));
    }
}

/// Whatever the clock of the machine shows, a relative date in ASCII digits can be read as long
/// as it does not lead further back than the supported range does from the epoch.
pub proof fn law_relative_dates_are_readable(s: Seq<char>, now: i64)
    requires
        clock_shows(now),
        relative_form(s) matches Some((digits, unit)) && ascii_digits(digits) && digits_value(
            digits,
        ) * unit <= -MIN_SECONDS,
    ensures
        readable(s, now as int),
{
    let (digits, unit) = relative_form(s)->0;
    lemma_digits_value_grows(digits, digits.len() as int);
    let v = digits_value(digits);
    assert(v * unit >= 0) by (nonlinear_arith)
        requires
            v >= 0,
            unit >= 0,
    ;
}

/// A date that is not relative means the same at any time.
pub proof fn law_absolute_dates_stand(s: Seq<char>, now: int, later: int)
    requires
        relative_form(s) is None,
    ensures
        date_millis(s, now) == date_millis(s, later),
        readable(s, now),
{
}

/// Digits spell a number in decimal: nothing spells zero, and one more digit takes ten times the
/// number before and adds its own value.
pub proof fn law_digits_spell_numbers(s: Seq<char>, c: char)
    requires
        '0' <= c <= '9',
    ensures
        digits_value(Seq::empty()) == 0,
        digits_value(s.push(c)) == 10 * digits_value(s) + (c as int - '0' as int),
        ascii_digits(s.push(c)) == ascii_digits(s),
        ascii_digits(Seq::empty()),
{
    assert(s.push(c).drop_last() == s);
    if ascii_digits(s) {
        assert forall|i: int| 0 <= i < s.push(c).len() implies text::is_ascii_digit(
            #[trigger] s.push(c)[i],
        ) by {
            if i < s.len() {
                assert(s.push(c)[i] == s[i]);
            }
        }
    }
    if ascii_digits(s.push(c)) {
        assert forall|i: int| 0 <= i < s.len() implies text::is_ascii_digit(#[trigger] s[i]) by {
            assert(s.push(c)[i] == s[i]);
        }
    }
}

/// `m` is the millisecond that lies `n` units before `now`, a minute, an hour, a day or a week
/// being the unit by its first letter, with the part below a second dropped.
pub open spec fn lies_back(m: int, n: int, unit: char, now: int) -> bool {
    let seconds = if unit == 'm' {
        n * 60
    } else if unit == 'h' {
        n * 3600
    } else if unit == 'd' {
        n * 86400
    } else {
        n * 604800
    };
    let exact = now - seconds * 1000;
    &&& m % 1000 == 0
    &&& exact >= 0 ==> m <= exact < m + 1000
    &&& exact < 0 ==> m - 1000 < exact <= m
}

/// A relative date of digits that spell `n` and of a unit lies `n` minutes, hours, days or weeks
/// before the present, down to a whole second; and exactly there where the present is a whole
/// second. Whatever follows the unit's first letter plays no part.
pub proof fn law_relative_dates_lie_back(
    digits: Seq<char>,
    gap: Seq<char>,
    unit: char,
    rest: Seq<char>,
    now: int,
    res: Result<Option<i64>, AwsLogsError>,
)
    requires
        digits.len() > 0,
        forall|i: int| 0 <= i < digits.len() ==> '0' <= #[trigger] digits[i] <= '9',
        gap.len() == 0 || gap == seq![' '],
        unit == 'm' || unit == 'h' || unit == 'd' || unit == 'w',
        date_outcome(Some(digits + gap + seq![unit] + rest), now, res),
    ensures
        res matches Ok(Some(m)) && lies_back(m as int, digits_value(digits), unit, now),
        unit == 'm' ==> -1000 < res->Ok_0->0 - (now - digits_value(digits) * 60 * 1000) < 1000,
        unit == 'h' ==> -1000 < res->Ok_0->0 - (now - digits_value(digits) * 3600 * 1000) < 1000,
        unit == 'd' ==> -1000 < res->Ok_0->0 - (now - digits_value(digits) * 86400 * 1000) < 1000,
        unit == 'w' ==> -1000 < res->Ok_0->0 - (now - digits_value(digits) * 604800 * 1000) < 1000,
        now % 1000 == 0 && unit == 'm' ==> res->Ok_0->0 == now - digits_value(digits) * 60 * 1000,
        now % 1000 == 0 && unit == 'h' ==> res->Ok_0->0 == now - digits_value(digits) * 3600 * 1000,
        now % 1000 == 0 && unit == 'd' ==> res->Ok_0->0 == now - digits_value(digits) * 86400
            * 1000,
        now % 1000 == 0 && unit == 'w' ==> res->Ok_0->0 == now - digits_value(digits) * 604800
            * 1000,
{
    let s = digits + gap + seq![unit] + rest;
    lemma_relative_text(digits, gap, unit, rest);
    let n = digits_value(digits);
    assert(relative_instant(digits, unit_seconds(unit)->0, now) == now - n * unit_seconds(unit)->0
        * 1000);
    assert(s.len() > 0);
}

/// What a relative date in ASCII digits consists of.
proof fn lemma_relative_text(digits: Seq<char>, gap: Seq<char>, unit: char, rest: Seq<char>)
    requires
        digits.len() > 0,
        forall|i: int| 0 <= i < digits.len() ==> '0' <= #[trigger] digits[i] <= '9',
        gap.len() == 0 || gap == seq![' '],
        unit == 'm' || unit == 'h' || unit == 'd' || unit == 'w',
    ensures
        relative_form(digits + gap + seq![unit] + rest) == Some((digits, unit_seconds(unit)->0)),
        ascii_digits(digits),
{
    assert forall|i: int| 0 <= i < digits.len() implies text::is_ascii_digit(
        #[trigger] digits[i],
    ) by {}
    lemma_decimals(digits);
    law_relative_dates(digits, ' ', unit, rest);
    if gap.len() == 0 {
        assert(digits + gap + seq![unit] + rest == digits + seq![unit] + rest);
    }
}

/// A relative date can be read exactly where both the present and the instant that it leads to lie
/// between the first and the last instant that there is.
pub proof fn law_relative_dates_in_range(
    digits: Seq<char>,
    gap: Seq<char>,
    unit: char,
    rest: Seq<char>,
    now: int,
)
    requires
        digits.len() > 0,
        forall|i: int| 0 <= i < digits.len() ==> '0' <= #[trigger] digits[i] <= '9',
        gap.len() == 0 || gap == seq![' '],
        unit == 'm' || unit == 'h' || unit == 'd' || unit == 'w',
    ensures
        ({
            let n = digits_value(digits);
            let exact = if unit == 'm' {
                now - n * 60_000
            } else if unit == 'h' {
                now - n * 3_600_000
            } else if unit == 'd' {
                now - n * 86_400_000
            } else {
                now - n * 604_800_000
            };
            readable(digits + gap + seq![unit] + rest, now) <==> -8_334_601_228_800_000 <= now
                <= 8_210_266_876_799_999 && -8_334_601_228_800_000 <= exact
                <= 8_210_266_876_799_999
        }),
{
    lemma_relative_text(digits, gap, unit, rest);
    assert(relative_instant(digits, unit_seconds(unit)->0, now) == now - digits_value(digits)
        * unit_seconds(unit)->0 * 1000);
}

/// One unit more leads back by exactly that unit.
pub proof fn law_one_unit_more(
    fewer: Seq<char>,
    more: Seq<char>,
    unit: char,
    now: int,
    a: Result<Option<i64>, AwsLogsError>,
    b: Result<Option<i64>, AwsLogsError>,
)
    requires
        fewer.len() > 0 && more.len() > 0,
        forall|i: int| 0 <= i < fewer.len() ==> '0' <= #[trigger] fewer[i] <= '9',
        forall|i: int| 0 <= i < more.len() ==> '0' <= #[trigger] more[i] <= '9',
        digits_value(more) == digits_value(fewer) + 1,
        unit == 'm' || unit == 'h' || unit == 'd' || unit == 'w',
        now % 1000 == 0,
        date_outcome(Some(fewer.push(unit)), now, a),
        date_outcome(Some(more.push(unit)), now, b),
    ensures
        a matches Ok(Some(x)) && (b matches Ok(Some(y)) && x - y == if unit == 'm' {
            60_000int
        } else if unit == 'h' {
            3_600_000
        } else if unit == 'd' {
            86_400_000
        } else {
            604_800_000
        }),
{
    let none = Seq::<char>::empty();
    assert(fewer + none + seq![unit] + none == fewer.push(unit));
    assert(more + none + seq![unit] + none == more.push(unit));
    law_relative_dates_lie_back(fewer, none, unit, none, now, a);
    law_relative_dates_lie_back(more, none, unit, none, now, b);
}

/// No argument and an empty one mean nothing. A text that is a date gives its milliseconds, and any
/// other the error that names it. Out of range, the error comes too.
pub proof fn law_outcomes(s: Seq<char>, now: int, res: Result<Option<i64>, AwsLogsError>)
    ensures
        date_outcome(None, now, res) <==> res == Ok::<Option<i64>, AwsLogsError>(None),
        s.len() == 0 ==> (date_outcome(Some(s), now, res) <==> res == Ok::<
            Option<i64>,
            AwsLogsError,
        >(None)),
        s.len() > 0 && relative_form(s) is None && date_outcome(Some(s), now, res) ==> match res {
            Ok(None) => false,
            Ok(Some(m)) => absolute_seconds(s) is Some && m == absolute_seconds(s)->0 * 1000,
            Err(AwsLogsError::UnknownDate(raw)) => raw@ == s && absolute_seconds(s) is None,
            Err(_) => false,
        },
        readable(s, now) && clocked_outcome(Some(s), now, res) ==> date_outcome(Some(s), now, res),
        !readable(s, now) && clocked_outcome(Some(s), now, res) ==> (res matches Err(
            AwsLogsError::UnknownDate(raw),
        ) && raw@ == s),
        clocked_outcome(None, now, res) ==> res == Ok::<Option<i64>, AwsLogsError>(None),
{
}

/// A relative date that is read against the machine's clock lies back from what that clock shows,
/// unless it leads out of range.
pub proof fn law_today(
    digits: Seq<char>,
    gap: Seq<char>,
    unit: char,
    rest: Seq<char>,
    res: Result<Option<i64>, AwsLogsError>,
)
    requires
        digits.len() > 0,
        forall|i: int| 0 <= i < digits.len() ==> '0' <= #[trigger] digits[i] <= '9',
        gap.len() == 0 || gap == seq![' '],
        unit == 'm' || unit == 'h' || unit == 'd' || unit == 'w',
        read_today(Some(digits + gap + seq![unit] + rest), res),
    ensures
        match res {
            Ok(Some(m)) => exists|now: i64|
                0 <= now <= 8_210_266_876_799_999 && #[trigger] lies_back(
                    m as int,
                    digits_value(digits),
                    unit,
                    now as int,
                ),
            Ok(None) => false,
            Err(e) => e matches AwsLogsError::UnknownDate(raw) && raw@ == digits + gap + seq![unit]
                + rest,
        },
{
    let s = digits + gap + seq![unit] + rest;
    lemma_relative_text(digits, gap, unit, rest);
    assert(is_relative(Some(s)));
    let now = choose|now: i64| #[trigger] clock_shows(now) && clocked_outcome(
        Some(s),
        now as int,
        res,
    );
    if readable(s, now as int) {
        law_relative_dates_lie_back(digits, gap, unit, rest, now as int, res);
    }
}

/// A date that is not relative is read the same today as at any time.
pub proof fn law_absolute_dates_today(s: Seq<char>, now: int, res: Result<Option<i64>, AwsLogsError>)
    requires
        relative_form(s) is None,
        read_today(Some(s), res),
    ensures
        date_outcome(Some(s), now, res),
{
}

/// The ways of reading an absolute date are tried in order, and the first that succeeds decides:
/// RFC 3339, RFC 2822, a local time with a zone, the formats without zone from the longest to the
/// shortest, each as date and time before date alone, and last the day first.
pub proof fn law_readings_have_an_order(s: Seq<char>)
    ensures
        calendar::rfc3339_seconds(s) matches Some(t) ==> absolute_seconds(s) == Some(t as int),
        calendar::rfc3339_seconds(s) is None ==> {
            &&& calendar::rfc2822_seconds(s) matches Some(t) ==> absolute_seconds(s) == Some(
                t as int,
            )
            &&& calendar::rfc2822_seconds(s) is None ==> {
                &&& zoned_seconds(s) matches Some(t) ==> absolute_seconds(s) == Some(t)
                &&& zoned_seconds(s) is None ==> {
                    &&& naive_seconds(s) matches Some(t) ==> absolute_seconds(s) == Some(t)
                    &&& naive_seconds(s) is None ==> absolute_seconds(s) == dmy_seconds(s)
                }
            }
        },
{
}

/// A date without zone is read by the first format that fits, and as UTC; a date alone means the
/// midnight that begins it.
pub proof fn law_formats_have_an_order(s: Seq<char>)
    ensures
        ({
            let f1 = "%Y-%m-%dT%H:%M:%S%.fZ"@;
            let f2 = "%Y-%m-%dT%H:%M:%S%.f"@;
            let f3 = "%Y-%m-%dT%H:%M:%S"@;
            let f4 = "%Y-%m-%d %H:%M:%S"@;
            let f5 = "%Y-%m-%d %H:%M"@;
            let f6 = "%Y-%m-%d"@;
            &&& naive_by(s, f1) is Some ==> naive_seconds(s) == naive_by(s, f1)
            &&& naive_by(s, f1) is None ==> {
                &&& naive_by(s, f2) is Some ==> naive_seconds(s) == naive_by(s, f2)
                &&& naive_by(s, f2) is None ==> {
                    &&& naive_by(s, f3) is Some ==> naive_seconds(s) == naive_by(s, f3)
                    &&& naive_by(s, f3) is None ==> {
                        &&& naive_by(s, f4) is Some ==> naive_seconds(s) == naive_by(s, f4)
                        &&& naive_by(s, f4) is None ==> {
                            &&& naive_by(s, f5) is Some ==> naive_seconds(s) == naive_by(s, f5)
                            &&& naive_by(s, f5) is None ==> naive_seconds(s) == naive_by(s, f6)
                        }
                    }
                }
            }
            &&& calendar::datetime_seconds(s, f4) matches Some(t) ==> local_seconds(s) == Some(
                t as int,
            )
            &&& calendar::datetime_seconds(s, f4) is None ==> {
                &&& calendar::datetime_seconds(s, f3) matches Some(t) ==> local_seconds(s) == Some(
                    t as int,
                )
                &&& calendar::datetime_seconds(s, f3) is None ==> match calendar::datetime_seconds(
                    s,
                    f5,
                ) {
                    Some(t) => local_seconds(s) == Some(t as int),
                    None => local_seconds(s) is None,
                }
            }
        }),
        forall|f: Seq<char>|
            #![trigger naive_by(s, f)]
            match calendar::datetime_seconds(s, f) {
                Some(t) => naive_by(s, f) == Some(t as int),
                None => match calendar::date_days(s, f) {
                    Some(n) => naive_by(s, f) == Some((n - 719_163) * 86400),
                    None => naive_by(s, f) is None,
                },
            },
{
}

/// A zone is taken off: where the local part is read as a second, the instant lies as many seconds
/// before it as the zone is ahead of UTC, if there is such an instant.
pub proof fn law_zones_are_taken_off(s: Seq<char>)
    ensures
        zone_form(s) is None ==> zoned_seconds(s) is None,
        zone_form(s) matches Some((stem, offset)) ==> match local_seconds(stem) {
            Some(t) => if -8_334_601_228_800 <= t - offset <= 8_210_266_876_799 {
                zoned_seconds(s) == Some(t - offset)
            } else {
                zoned_seconds(s) is None
            },
            None => zoned_seconds(s) is None,
        },
{
}

/// What a date means that can be told without the `chrono` crate, in milliseconds: a timestamp, a
/// date with or without a time of day, one with a zone, one with the day first; and that a text
/// without a digit means nothing.
pub proof fn law_plain_dates(
    c: calendar::Civil,
    stem: Seq<char>,
    sign: char,
    hours: nat,
    minutes: nat,
    s: Seq<char>,
    res: Result<Option<i64>, AwsLogsError>,
)
    requires
        c.valid(),
        0 <= c.year <= 9999,
        reads_plainly(Some(s), res),
    ensures
        ({
            let second = calendar::epoch_seconds(
                c.year,
                c.month,
                c.day,
                c.hour,
                c.minute,
                c.second,
            );
            let magnitude = hours * 3600 + minutes * 60;
            let written = s == calendar::civil_text(c) || s == calendar::local_text(c) || s
                == calendar::iso_text(c) || (c.second == 0 && s == calendar::minute_text(c)) || (
            c.second == 0 && c.minute == 0 && c.hour == 0 && s == calendar::day_text(c));
            let local = stem == calendar::local_text(c) || stem == calendar::iso_text(c) || (c.second
                == 0 && stem == calendar::minute_text(c));
            let zone = text::padded_text(hours, 2) + ":"@ + text::padded_text(minutes, 2);
            &&& written ==> (res matches Ok(Some(m)) && m == second * 1000)
            &&& local && hours < 24 && minutes < 60 && s == stem + " UTC"@ + seq!['+'] + zone ==> (
            res matches Ok(Some(m)) && m == (second - magnitude) * 1000)
            &&& local && 0 < hours < 24 && minutes < 60 && s == stem + " UTC"@ + seq!['-'] + zone
                ==> (res matches Ok(Some(m)) && m == (second + magnitude) * 1000)
            &&& local && hours < 10 && minutes == 0 && s == stem + " UTC"@ + seq!['+']
                + text::padded_text(hours, 1) ==> (res matches Ok(Some(m)) && m == (second
                - magnitude) * 1000)
            &&& local && hours < 10 && minutes == 0 && s == stem + " UTC"@ + seq!['-']
                + text::padded_text(hours, 1) ==> (res matches Ok(Some(m)) && m == (second
                + magnitude) * 1000)
            &&& s == slash_text(c) ==> (res matches Ok(Some(m)) && m == second * 1000)
        }),
        s.len() > 0 && (forall|i: int| 0 <= i < s.len() ==> !('0' <= #[trigger] s[i] <= '9'))
            && relative_form(s) is None ==> (res matches Err(AwsLogsError::UnknownDate(raw)) && raw@
            == s),
{
    assert(reads_timestamp(c, Some(s), res));
    assert(reads_local(c, Some(s), res));
    if is_local(c, stem) {
        if hours < 24 && minutes < 60 {
            law_zones_are_offsets(c, stem, '+', hours, minutes);
            assert(reads_zoned(c, zone_offset('+', hours, minutes), Some(s), res));
            if hours > 0 || minutes == 0 {
                law_zones_are_offsets(c, stem, '-', hours, minutes);
                assert(reads_zoned(c, zone_offset('-', hours, minutes), Some(s), res));
            }
        }
    }
    law_dates_with_the_day_first(c);
    if forall|i: int| 0 <= i < s.len() ==> !('0' <= #[trigger] s[i] <= '9') {
        assert(calendar::digitless(s));
    }
}

/// Dates are written with their numbers in their places, padded with zeros, and with the separators
/// of their form between.
pub proof fn law_written_dates(c: calendar::Civil)
    requires
        c.valid(),
        0 <= c.year <= 9999,
    ensures
        ({
            let day = calendar::day_text(c);
            let clock = calendar::clock_text(c);
            let second = text::padded_text(c.second as nat, 2);
            &&& day.len() == 10 && day[4] == '-' && day[7] == '-'
            &&& digits_value(day.subrange(0, 4)) == c.year
            &&& digits_value(day.subrange(5, 7)) == c.month
            &&& digits_value(day.subrange(8, 10)) == c.day
            &&& clock.len() == 5 && clock[2] == ':'
            &&& digits_value(clock.subrange(0, 2)) == c.hour
            &&& digits_value(clock.subrange(3, 5)) == c.minute
            &&& second.len() == 2 && digits_value(second) == c.second
            &&& calendar::minute_text(c) == day + " "@ + clock
            &&& calendar::local_text(c) == day + " "@ + clock + ":"@ + second
            &&& calendar::iso_text(c) == day + "T"@ + clock + ":"@ + second
            &&& slash_day(c) == text::padded_text(c.day as nat, 2) + "/"@ + text::padded_text(
                c.month as nat,
                2,
            ) + "/"@ + text::padded_text(c.year as nat, 4)
            &&& slash_text(c) == slash_day(c) + " "@ + clock + ":"@ + second
        }),
{
    reveal_with_fuel(text::ten_to, 5);
    calendar::lemma_day_text(c);
    calendar::lemma_clock_text(c);
    let day = calendar::day_text(c);
    let clock = calendar::clock_text(c);
    text::lemma_padded_text(c.year as nat, 4);
    text::lemma_padded_text(c.month as nat, 2);
    text::lemma_padded_text(c.day as nat, 2);
    text::lemma_padded_text(c.hour as nat, 2);
    text::lemma_padded_text(c.minute as nat, 2);
    text::lemma_padded_text(c.second as nat, 2);
    lemma_padded_value(c.year as nat, 4);
    lemma_padded_value(c.month as nat, 2);
    lemma_padded_value(c.day as nat, 2);
    lemma_padded_value(c.hour as nat, 2);
    lemma_padded_value(c.minute as nat, 2);
    lemma_padded_value(c.second as nat, 2);
    reveal_strlit("-");
    reveal_strlit(":");
    assert(day.subrange(0, 4) == text::padded_text(c.year as nat, 4));
    assert(day.subrange(5, 7) == text::padded_text(c.month as nat, 2));
    assert(day.subrange(8, 10) == text::padded_text(c.day as nat, 2));
    assert(clock.subrange(0, 2) == text::padded_text(c.hour as nat, 2));
    assert(clock.subrange(3, 5) == text::padded_text(c.minute as nat, 2));
    assert(slash_text(c) == slash_day(c) + " "@ + clock + ":"@ + text::padded_text(
        c.second as nat,
        2,
    ));
}

/// `s` is made of ASCII digits, from `lo` to `hi` of them.
pub open spec fn is_number(s: Seq<char>, lo: int, hi: int) -> bool {
    lo <= s.len() <= hi && forall|i: int| 0 <= i < s.len() ==> '0' <= #[trigger] s[i] <= '9'
}

/// A date with the day first is read by its three numbers, the day and the month in one digit or
/// two and the year in four: where they name a day of the calendar it means the midnight that
/// begins it, and nothing where they do not.
#[verifier::spinoff_prover]
pub proof fn law_day_first(day: Seq<char>, month: Seq<char>, year: Seq<char>)
    requires
        is_number(day, 1, 2),
        is_number(month, 1, 2),
        is_number(year, 4, 4),
    ensures
        ({
            let (y, m, d) = (digits_value(year), digits_value(month), digits_value(day));
            dmy_seconds(day + "/"@ + month + "/"@ + year) == if calendar::valid_date(y, m, d) {
                Some(calendar::epoch_seconds(y, m, d, 0, 0, 0))
            } else {
                None
            }
        }),
{
    let s = day + "/"@ + month + "/"@ + year;
    assert(s == day + "/"@ + month + "/"@ + year + Seq::<char>::empty());
    lemma_slash_date(day, month, year, Seq::empty());
}

/// The three numbers of a date with the day first, whatever follows that is no digit.
#[verifier::spinoff_prover]
proof fn lemma_slash_date(day: Seq<char>, month: Seq<char>, year: Seq<char>, rest: Seq<char>)
    requires
        is_number(day, 1, 2),
        is_number(month, 1, 2),
        is_number(year, 4, 4),
        rest.len() > 0 ==> !text::is_ascii_digit(rest[0]),
    ensures
        slash_date(day + "/"@ + month + "/"@ + year + rest) == Some(
            (
                digits_value(day),
                digits_value(month),
                digits_value(year),
                (day.len() + month.len() + 6) as int,
            ),
        ),
        (day + "/"@ + month + "/"@ + year + rest).len() == day.len() + month.len() + 6 + rest.len(),
{
    reveal_strlit("/");
    let s = day + "/"@ + month + "/"@ + year + rest;
    let a = day.len() as int;
    let b = a + 1 + month.len();
    assert(s.subrange(0, a) == day);
    assert(s.subrange(a + 1, b) == month);
    assert(s.subrange(b + 1, b + 5) == year);
    assert(s[a] == '/' && s[b] == '/');
    if rest.len() > 0 {
        assert(s[b + 5] == rest[0]);
    }
    lemma_number_field(s, 0, day, 1, 2);
    lemma_number_field(s, a + 1, month, 1, 2);
    lemma_number_field(s, b + 1, year, 4, 4);
}

/// Digits with none behind them are a field.
proof fn lemma_number_field(s: Seq<char>, at: int, digits: Seq<char>, lo: int, hi: int)
    requires
        0 <= at,
        at + digits.len() <= s.len(),
        s.subrange(at, at + digits.len()) == digits,
        is_number(digits, lo, hi),
        at + digits.len() < s.len() ==> !text::is_ascii_digit(s[at + digits.len()]),
    ensures
        field(s, at, lo, hi) == Some((digits_value(digits), at + digits.len())),
{
    assert forall|i: int| at <= i < at + digits.len() implies text::is_ascii_digit(
        #[trigger] s[i],
    ) by {
        assert(s[i] == digits[i - at]) by {
            assert(s[i] == s.subrange(at, at + digits.len())[i - at]);
        }
    }
    lemma_digit_run_to(s, at, digits.len() as int);
}

/// Behind a date with the day first and whitespace, a time of day is read by its numbers: hours in
/// one digit or two, minutes and seconds in two, the seconds being zero where they are missing.
#[verifier::spinoff_prover]
pub proof fn law_day_first_with_time(
    day: Seq<char>,
    month: Seq<char>,
    year: Seq<char>,
    hour: Seq<char>,
    minute: Seq<char>,
    second: Seq<char>,
)
    requires
        is_number(day, 1, 2),
        is_number(month, 1, 2),
        is_number(year, 4, 4),
        is_number(hour, 1, 2),
        is_number(minute, 2, 2),
        is_number(second, 2, 2),
    ensures
        ({
            let (y, m, d) = (digits_value(year), digits_value(month), digits_value(day));
            let (h, n, o) = (digits_value(hour), digits_value(minute), digits_value(second));
            let date = day + "/"@ + month + "/"@ + year;
            &&& dmy_seconds(date + (" "@ + hour + ":"@ + minute)) == if calendar::valid_date(
                y,
                m,
                d,
            ) && 0 <= h <= 23 && 0 <= n <= 59 {
                Some(calendar::epoch_seconds(y, m, d, h, n, 0))
            } else {
                None
            }
            &&& dmy_seconds(date + (" "@ + hour + ":"@ + minute + ":"@ + second))
                == if calendar::valid_date(y, m, d) && 0 <= h <= 23 && 0 <= n <= 59 && 0 <= o <= 59 {
                Some(calendar::epoch_seconds(y, m, d, h, n, o))
            } else {
                None
            }
        }),
{
    reveal_strlit(" ");
    reveal_strlit(":");
    let date = day + "/"@ + month + "/"@ + year;
    let short = " "@ + hour + ":"@ + minute;
    let long = " "@ + hour + ":"@ + minute + ":"@ + second;
    lemma_slash_date(day, month, year, short);
    lemma_slash_date(day, month, year, long);
    let p = (day.len() + month.len() + 6) as int;
    let a = p + 1;
    let b = a + hour.len();
    assert(date.len() == p);
    assert(text::is_ascii_digit(hour[0]));
    let s = date + short;
    assert(s[p] == ' ');
    assert(s[a] == hour[0]);
    assert(space_run(s, p) == 1) by {
        reveal_with_fuel(space_run, 2);
    }
    assert(s.subrange(a, b) == hour);
    assert(s[b] == ':');
    assert(s.subrange(b + 1, b + 3) == minute);
    lemma_number_field(s, a, hour, 1, 2);
    lemma_number_field(s, b + 1, minute, 2, 2);
    assert(s.len() == b + 3);
    assert(colon_time(s, a) == Some((digits_value(hour), digits_value(minute), 0int)));
    let t = date + long;
    assert(t[p] == ' ');
    assert(t[a] == hour[0]);
    assert(space_run(t, p) == 1) by {
        reveal_with_fuel(space_run, 2);
    }
    assert(t.subrange(a, b) == hour);
    assert(t[b] == ':');
    assert(t.subrange(b + 1, b + 3) == minute);
    assert(t[b + 3] == ':');
    assert(t.subrange(b + 4, b + 6) == second);
    lemma_number_field(t, a, hour, 1, 2);
    lemma_number_field(t, b + 1, minute, 2, 2);
    lemma_number_field(t, b + 4, second, 2, 2);
    assert(t.len() == b + 6);
    assert(colon_time(t, a) == Some(
        (digits_value(hour), digits_value(minute), digits_value(second)),
    ));
}

/// The hours of a zone have one digit or two, and its minutes two or none, with a colon between or
/// not. Together they are less than a day; a zone of no whole hour counts as an eastern one.
#[verifier::spinoff_prover]
pub proof fn law_zone_spellings(stem: Seq<char>, sign: char, hours: Seq<char>, minutes: Seq<char>)
    requires
        stem.len() > 0,
        !text::is_space(stem.last()),
        forall|i: int| 0 <= i < stem.len() ==> stem[i] != '\n',
        sign == '+' || sign == '-',
        is_number(hours, 1, 2),
        is_number(minutes, 2, 2),
    ensures
        ({
            let head = stem + " UTC"@ + seq![sign];
            let h = digits_value(hours);
            let whole = h * 3600;
            let both = h * 3600 + digits_value(minutes) * 60;
            let signed = |n: int| if sign == '-' && h > 0 {
                -n
            } else {
                n
            };
            &&& zone_form(head + hours) == if whole < 86400 {
                Some((stem, signed(whole)))
            } else {
                None
            }
            &&& zone_form(head + (hours + minutes)) == if both < 86400 {
                Some((stem, signed(both)))
            } else {
                None
            }
            &&& zone_form(head + (hours + ":"@ + minutes)) == if both < 86400 {
                Some((stem, signed(both)))
            } else {
                None
            }
        }),
{
    reveal_strlit(":");
    assert forall|i: int| 0 <= i < hours.len() implies text::is_ascii_digit(
        #[trigger] hours[i],
    ) by {}
    assert forall|i: int| 0 <= i < minutes.len() implies text::is_ascii_digit(
        #[trigger] minutes[i],
    ) by {}
    lemma_decimals(hours);
    lemma_decimals(minutes);
    let none = Seq::<char>::empty();
    let joint = hours + minutes;
    let apart = hours + ":"@ + minutes;
    assert forall|i: int| 0 <= i < joint.len() implies text::is_ascii_digit(
        #[trigger] joint[i],
    ) by {
        if i < hours.len() {
            assert(joint[i] == hours[i]);
        } else {
            assert(joint[i] == minutes[i - hours.len()]);
        }
    }
    lemma_decimals(joint);
    assert(joint.take(joint.len() - 2) == hours);
    assert(joint.skip(joint.len() - 2) == minutes);
    assert(apart[apart.len() - 3] == ':');
    assert(!pattern::is_decimal(':'));
    assert(apart.take(apart.len() - 3) == hours);
    assert(apart.skip(apart.len() - 2) == minutes);
    assert forall|i: int| 0 <= i < apart.len() implies apart[i] != '+' && apart[i] != '-' by {
        if i < hours.len() {
            assert(apart[i] == hours[i]);
        } else if i > hours.len() {
            assert(apart[i] == minutes[i - hours.len() - 1]);
        }
    }
    assert(ascii_digits(none) && digits_value(none) == 0);
    lemma_zone_form_of(stem, sign, hours, hours, none);
    lemma_zone_form_of(stem, sign, joint, hours, minutes);
    lemma_zone_form_of(stem, sign, apart, hours, minutes);
}

/// A date with a zone whose offset is told by its digits.
#[verifier::spinoff_prover]
proof fn lemma_zone_form_of(
    stem: Seq<char>,
    sign: char,
    tail: Seq<char>,
    hours: Seq<char>,
    minutes: Seq<char>,
)
    requires
        stem.len() > 0,
        !text::is_space(stem.last()),
        forall|i: int| 0 <= i < stem.len() ==> stem[i] != '\n',
        sign == '+' || sign == '-',
        forall|i: int| 0 <= i < tail.len() ==> tail[i] != '+' && tail[i] != '-',
        offset_digits(tail) == Some((hours, minutes)),
    ensures
        zone_form(stem + " UTC"@ + seq![sign] + tail) == match offset_seconds(
            sign == '-',
            hours,
            minutes,
        ) {
            Some(offset) => Some((stem, offset)),
            None => None,
        },
{
    if offset_seconds(sign == '-', hours, minutes) is Some {
        lemma_zone_form(stem, sign, tail, hours, minutes);
    } else {
        reveal_strlit(" UTC");
        let n = stem.len() as int;
        let s = stem + " UTC"@ + seq![sign] + tail;
        assert(s[n + 4] == sign);
        assert forall|i: int| n + 4 < i < s.len() implies s[i] != '+' && s[i] != '-' by {
            assert(s[i] == tail[i - n - 5]);
        }
        lemma_last_sign(s, n + 4);
        assert(s.skip(n + 5) == tail);
    }
}

/// A reading holds the number that is wanted and no other, and none only where none is wanted.
pub proof fn law_readings_are_exact(t: i64, want: Option<int>)
    ensures
        gives(Some(t), want) == (want is Some && want->0 == t),
        gives(None, want) == (want is None),
{
}

/// The argument is the text that was given, or none where none was.
pub proof fn law_arguments_are_texts(s: &str)
    ensures
        argument(Some(s)) == Some(s@),
        argument(None) is None,
{
}

} // verus!
