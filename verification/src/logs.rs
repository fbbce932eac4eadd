//! CloudWatch logs: which streams to read, which events to print, and how.

use std::time::Duration;

use vstd::prelude::*;

use crate::calendar;
use crate::calendar::Civil;
use crate::client;
use crate::client::{FilterParams, FilterResponse, LogEvent, StreamMeta};
use crate::exceptions;
use crate::exceptions::AwsLogsError;
use crate::pattern;
use crate::query;
use crate::text;
use crate::time;

verus! {

/// How many streams one `filter_log_events` request may name.
pub const FILTER_LOG_EVENTS_STREAMS_LIMIT: usize = 100;

/// How many events one reply may hold, and so how many printed ids are remembered.
pub const MAX_EVENTS_PER_CALL: usize = 10_000;

/// The stream name that stands for every stream.
pub const ALL_WILDCARD: &'static str = "ALL";

// ── colors ──────────────────────────────────────────────────────────────────
/// A terminal color.
#[derive(Debug, Clone, Copy, PartialEq, Eq, Structural)]
pub enum Color {
    Green,
    Cyan,
    Yellow,
    Blue,
    Red,
}

impl Color {
    /// The number of the color in a terminal's escape sequence.
    pub open spec fn number(self) -> int {
        match self {
            Color::Green => 32,
            Color::Cyan => 36,
            Color::Yellow => 33,
            Color::Blue => 34,
            Color::Red => 31,
        }
    }

    /// The number of the color in a terminal's escape sequence.
    pub fn code(self) -> (res: u8)
        ensures
            res == self.number(),
    {
        match self {
            Color::Green => 32,
            Color::Cyan => 36,
            Color::Yellow => 33,
            Color::Blue => 34,
            Color::Red => 31,
        }
    }
}

/// `text` between the escape sequences that switch a color on and off.
pub open spec fn ansi_text(text: Seq<char>, color: Color) -> Seq<char> {
    "\x1b["@ + text::decimal_text(color.number() as nat) + "m"@ + text + "\x1b[0m"@
}

/// `text` between the escape sequences that switch a color on and off.
pub fn ansi_colored(text: &str, color: Color) -> (res: String)
    ensures
        res@ == ansi_text(text@, color),
{
    let mut out = String::new();
    out.append("\x1b[");
    out.append(text::decimal(color.code() as u64).as_str());
    out.append("m");
    out.append(text);
    out.append("\x1b[0m");
    assert(out@ == ansi_text(text@, color));
    out
}

/// `text`, in a color where colors are enabled.
pub open spec fn painted(text: Seq<char>, color: Color, enabled: bool) -> Seq<char> {
    if enabled {
        ansi_text(text, color)
    } else {
        text
    }
}

/// `text`, in a color where colors are enabled.
pub fn maybe_color(text: &str, color: Color, enabled: bool) -> (res: String)
    ensures
        res@ == painted(text@, color, enabled),
{
    if enabled {
        ansi_colored(text, color)
    } else {
        text.to_string()
    }
}

/// When to print in color.
#[derive(Debug, Clone, Copy, PartialEq, Eq, Structural)]
pub enum ColorPreference {
    /// Where the terminal shows colors.
    Auto,
    Always,
    Never,
}

/// Calls `supports_color::on` for the standard output. The answer depends on the terminal and
/// on the environment, so nothing is stated of it.
#[verifier::external_body]
fn terminal_shows_color() -> bool {
    supports_color::on(supports_color::Stream::Stdout).is_some()
}

impl ColorPreference {
    /// Whether to print in color, given whether the terminal shows colors.
    pub open spec fn enables(self, terminal: bool) -> bool {
        match self {
            ColorPreference::Always => true,
            ColorPreference::Never => false,
            ColorPreference::Auto => terminal,
        }
    }

    /// Whether to print in color, given whether the terminal shows colors.
    pub fn enabled_on(self, terminal: bool) -> (res: bool)
        ensures
            res == self.enables(terminal),
    {
        match self {
            ColorPreference::Always => true,
            ColorPreference::Never => false,
            ColorPreference::Auto => terminal,
        }
    }

    /// Whether to print in color on the standard output. The terminal is asked only where the
    /// preference leaves it open.
    pub fn enabled(self) -> (res: bool)
        ensures
            self is Always ==> res,
            self is Never ==> !res,
            exists|terminal: bool| res == self.enables(terminal),
    {
        let terminal = match self {
            ColorPreference::Auto => terminal_shows_color(),
            _ => false,
        };
        let res = self.enabled_on(terminal);
        assert(res == self.enables(terminal));
        res
    }
}

// ── columns ─────────────────────────────────────────────────────────────────
/// `text` with spaces behind it up to `width` characters.
pub open spec fn left_justified(text: Seq<char>, width: int) -> Seq<char> {
    if text.len() >= width {
        text
    } else {
        text + Seq::new((width - text.len()) as nat, |i: int| ' ')
    }
}

/// `text` with spaces behind it up to `width` characters.
pub fn ljust(text: &str, width: usize) -> (res: String)
    ensures
        res@ == left_justified(text@, width as int),
{
    let count = text.unicode_len();
    let mut out = text.to_string();
    let mut n: usize = count;
    while n < width
        invariant
            count == text@.len(),
            count <= n,
            n <= count || n <= width,
            out@ == text@ + Seq::new((n - count) as nat, |i: int| ' '),
        decreases width - n,
    {
        out.push(' ');
        n += 1;
        assert(out@ == text@ + Seq::new((n - count) as nat, |i: int| ' '));
    }
    assert(out@ == left_justified(text@, width as int));
    out
}

/// `s` without the whitespace at its end.
pub fn rstrip(s: &str) -> (res: &str)
    ensures
        res@ == text::trimmed_end(s@),
{
    text::trim_end(s)
}

// ── timestamps ──────────────────────────────────────────────────────────────
/// `c` is the calendar date and time of day of `millis` milliseconds since the epoch.
pub open spec fn is_civil(c: Civil, millis: int) -> bool {
    c.valid() && c.seconds() == millis / 1000 && c.millis == millis % 1000
}

/// The calendar date and time of day of an instant of the supported range; of the epoch for
/// any other number.
pub open spec fn civil_at(millis: int) -> Civil {
    if time::instant_fits(millis) {
        choose|c: Civil| is_civil(c, millis)
    } else {
        epoch()
    }
}

pub open spec fn epoch() -> Civil {
    Civil { year: 1970, month: 1, day: 1, hour: 0, minute: 0, second: 0, millis: 0 }
}

/// `millis` milliseconds since the epoch as `YYYY-MM-DDTHH:MM:SS.mmmZ`.
pub open spec fn iso_text(millis: int) -> Seq<char> {
    calendar::civil_text(civil_at(millis))
}

/// `millis` milliseconds since the epoch as `YYYY-MM-DDTHH:MM:SS.mmmZ`. A number outside the
/// supported range is shown as the epoch.
pub fn millis_to_iso(millis: i64) -> (res: String)
    ensures
        res@ == iso_text(millis as int),
{
    let seconds: i64 = if millis >= 0 {
        millis / 1000
    } else {
        -((-(millis + 1)) / 1000) - 1
    };
    assert(seconds == millis as int / 1000);
    let below: u32 = (millis as i128 - seconds as i128 * 1000) as u32;
    assert(below == millis as int % 1000);
    match calendar::format_instant(seconds, below * 1_000_000) {
        Some(t) => {
            proof {
                let c = choose|c: Civil|
                    c.valid() && c.seconds() == seconds && c.millis == below && t@
                        == #[trigger] calendar::civil_text(c);
                assert(is_civil(c, millis as int));
                calendar::lemma_civil_unique(c, civil_at(millis as int));
            }
            t
        },
        None => match calendar::format_instant(0, 0) {
            Some(t) => {
                proof {
                    let c = choose|c: Civil|
                        c.valid() && c.seconds() == 0 && c.millis == 0 && t@
                            == #[trigger] calendar::civil_text(c);
                    assert(epoch().seconds() == 0);
                    calendar::lemma_civil_unique(c, epoch());
                }
                t
            },
            None => String::new(),
        },
    }
}

// ── durations ───────────────────────────────────────────────────────────────
/// The whole seconds of a duration, and the nanoseconds below a second.
pub uninterp spec fn duration_parts(d: Duration) -> (u64, u32);

/// `std::time::Duration::from_secs` makes a duration of whole seconds.
pub assume_specification[ Duration::from_secs ](secs: u64) -> (res: Duration)
    ensures
        duration_parts(res) == (secs, 0u32),
;

/// The clone of a `std::time::Duration`, which is `Copy`, is that duration.
pub assume_specification[ <Duration as Clone>::clone ](d: &Duration) -> (res: Duration)
    ensures
        res == *d,
;

// ── configuration ───────────────────────────────────────────────────────────
/// What to read and how to print it.
#[derive(Debug, Clone)]
pub struct AwsLogsConfig {
    // Selection
    pub log_group_name: Option<String>,
    pub log_stream_name: Option<String>,
    pub log_group_prefix: Option<String>,
    pub filter_pattern: Option<String>,
    /// Streams to read by exact name, whatever pattern and window say.
    pub explicit_streams: Option<Vec<String>>,
    // Window, in milliseconds since the epoch
    pub start: Option<i64>,
    pub end: Option<i64>,
    // Watch, and the time between two looks
    pub watch: bool,
    pub watch_interval: Duration,
    // Output
    pub color: ColorPreference,
    pub output_group_enabled: bool,
    pub output_stream_enabled: bool,
    pub output_timestamp_enabled: bool,
    pub output_ingestion_time_enabled: bool,
    /// JMESPath query over messages that are JSON objects
    pub query: Option<String>,
}

impl AwsLogsConfig {
    /// Nothing selected, groups and streams printed, a look every second.
    pub open spec fn is_default(self) -> bool {
        &&& self.log_group_name is None
        &&& self.log_stream_name is None
        &&& self.log_group_prefix is None
        &&& self.filter_pattern is None
        &&& self.explicit_streams is None
        &&& self.start is None
        &&& self.end is None
        &&& !self.watch
        &&& duration_parts(self.watch_interval) == (1u64, 0u32)
        &&& self.color == ColorPreference::Auto
        &&& self.output_group_enabled
        &&& self.output_stream_enabled
        &&& !self.output_timestamp_enabled
        &&& !self.output_ingestion_time_enabled
        &&& self.query is None
    }
}

impl Default for AwsLogsConfig {
    fn default() -> (res: Self)
        ensures
            res.is_default(),
    {
        AwsLogsConfig {
            log_group_name: None,
            log_stream_name: None,
            log_group_prefix: None,
            filter_pattern: None,
            explicit_streams: None,
            start: None,
            end: None,
            watch: false,
            watch_interval: Duration::from_secs(1),
            color: ColorPreference::Auto,
            output_group_enabled: true,
            output_stream_enabled: true,
            output_timestamp_enabled: false,
            output_ingestion_time_enabled: false,
            query: None,
        }
    }
}

// ── streams ─────────────────────────────────────────────────────────────────
/// The first millisecond of a window.
pub open spec fn window_start(start: Option<i64>) -> int {
    match start {
        Some(t) => t as int,
        None => 0,
    }
}

/// The last millisecond of a window.
pub open spec fn window_end(end: Option<i64>) -> int {
    match end {
        Some(t) => t as int,
        None => i64::MAX as int,
    }
}

/// The stream and the window have a moment in common, or the stream's span is not known.
pub open spec fn in_window(meta: StreamMeta, start: Option<i64>, end: Option<i64>) -> bool {
    match (meta.first_event_timestamp, meta.last_ingestion_time) {
        (Some(first), Some(last)) => {
            &&& first <= last
            &&& first <= window_end(end)
            &&& window_start(start) <= last
            &&& window_start(start) <= window_end(end)
        },
        _ => true,
    }
}

/// The names of the streams that have a moment in common with the window, in order.
pub open spec fn windowed(metas: Seq<StreamMeta>, start: Option<i64>, end: Option<i64>) -> Seq<
    Seq<char>,
> {
    metas.filter(|m: StreamMeta| in_window(m, start, end)).map_values(|m: StreamMeta| m.name@)
}

fn overlaps(meta: &StreamMeta, start: Option<i64>, end: Option<i64>) -> (res: bool)
    ensures
        res == in_window(*meta, start, end),
{
    let from = start.unwrap_or(0);
    let to = end.unwrap_or(i64::MAX);
    match (meta.first_event_timestamp, meta.last_ingestion_time) {
        (Some(first), Some(last)) => {
            let begin = if first < from {
                from
            } else {
                first
            };
            let finish = if to < last {
                to
            } else {
                last
            };
            begin <= finish
        },
        _ => true,
    }
}

/// The names of the streams whose span has a moment in common with the window. A stream
/// whose span is not known passes.
pub fn filter_streams_by_window(
    metas: &[StreamMeta],
    start: Option<i64>,
    end: Option<i64>,
) -> (res: Vec<String>)
    ensures
        text::texts(res@) == windowed(metas@, start, end),
{
    let mut out: Vec<String> = Vec::new();
    let mut i: usize = 0;
    let ghost keep = |m: StreamMeta| in_window(m, start, end);
    let ghost name = |m: StreamMeta| m.name@;
    assert(metas@.take(0).filter(keep) == Seq::<StreamMeta>::empty()) by {
        reveal(Seq::filter);
    }
    while i < metas.len()
        invariant
            i <= metas@.len(),
            keep == (|m: StreamMeta| in_window(m, start, end)),
            name == (|m: StreamMeta| m.name@),
            text::texts(out@) == metas@.take(i as int).filter(keep).map_values(name),
        decreases metas.len() - i,
    {
        assert(metas@.take(i + 1).drop_last() == metas@.take(i as int));
        assert(metas@.take(i + 1).filter(keep) == if keep(metas@[i as int]) {
            metas@.take(i as int).filter(keep).push(metas@[i as int])
        } else {
            metas@.take(i as int).filter(keep)
        }) by {
            reveal(Seq::filter);
        }
        let ghost before = out@;
        if overlaps(&metas[i], start, end) {
            out.push(metas[i].name.clone());
            assert(text::texts(out@) == text::texts(before).push(metas@[i as int].name@));
            assert(metas@.take(i as int).filter(keep).push(metas@[i as int]).map_values(name)
                == metas@.take(i as int).filter(keep).map_values(name).push(
                metas@[i as int].name@,
            ));
        }
        i += 1;
    }
    assert(metas@.take(i as int) == metas@);
    out
}

/// The regular expression that a stream pattern is compiled to: anything for the wildcard, else
/// the pattern behind an anchor. In a pattern with alternatives the anchor holds the first of
/// them only; that the others stand at the start of the name too is up to [`matching`].
pub open spec fn stream_regex(pat: Seq<char>) -> Seq<char> {
    if pat == ALL_WILDCARD@ {
        ".*"@
    } else {
        "^"@ + pat
    }
}

/// The regular expression matches at the start of the name.
pub open spec fn matches_at_start(regex: Seq<char>, name: Seq<char>) -> bool {
    pattern::regex_found(regex, name) == Some(0int)
}

/// The names that a regular expression matches at their start, in order.
pub open spec fn matching(names: Seq<Seq<char>>, regex: Seq<char>) -> Seq<Seq<char>> {
    names.filter(|name: Seq<char>| matches_at_start(regex, name))
}

/// The names that begin with a text, in order.
pub open spec fn beginning(names: Seq<Seq<char>>, lead: Seq<char>) -> Seq<Seq<char>> {
    names.filter(|name: Seq<char>| text::occurs_at(name, lead, 0))
}

/// The names that begin with one of several texts, in order.
pub open spec fn beginning_any(names: Seq<Seq<char>>, leads: Seq<Seq<char>>) -> Seq<Seq<char>> {
    names.filter(|name: Seq<char>| pattern::begins_with_any(name, leads))
}

/// What a pattern selects where that can be told without the `regex` crate: all names for the
/// wildcard, for plain text those that begin with it, and for alternatives of plain text those
/// that begin with one of them.
pub open spec fn selects(
    pat: Seq<char>,
    names: Seq<Seq<char>>,
    selected: Seq<Seq<char>>,
) -> bool {
    if pat == ALL_WILDCARD@ {
        selected == names
    } else {
        &&& pattern::plain(pat) ==> selected == beginning(names, pat)
        &&& forall|alternatives: Seq<Seq<char>>| #[trigger]
            pattern::plain_texts(alternatives) && pat == text::joined(alternatives, "|"@)
                ==> selected == beginning_any(names, alternatives)
    }
}

/// A pattern that compiles whatever the `regex` crate says of others: short plain text, or short
/// alternatives of it.
pub open spec fn compiles(pat: Seq<char>) -> bool {
    ||| pattern::plain(pat) && pat.len() <= pattern::SHORT_PATTERN
    ||| exists|alternatives: Seq<Seq<char>>| #[trigger]
        pattern::short_alternatives(pat, alternatives)
}

/// The error is one message from below.
pub open spec fn says(e: AwsLogsError, message: Seq<char>) -> bool {
    e matches AwsLogsError::Aws(chain) && chain@.len() == 1 && chain@[0]@ == message
}

/// A stream pattern, compiled.
pub struct StreamPattern {
    source: String,
    regex: regex::Regex,
}

impl StreamPattern {
    #[verifier::type_invariant]
    spec fn inv(self) -> bool {
        pattern::regex_source(self.regex) == stream_regex(self.source@)
    }

    /// The pattern as it was given.
    pub closed spec fn text(self) -> Seq<char> {
        self.source@
    }

    /// Compiles a stream pattern.
    pub fn new(source: &str) -> (res: Result<StreamPattern, AwsLogsError>)
        ensures
            match res {
                Ok(p) => {
                    &&& p.text() == source@
                    &&& pattern::regex_error(stream_regex(source@)) is None
                },
                Err(e) => {
                    &&& pattern::regex_error(stream_regex(source@)) is Some
                    &&& says(
                        e,
                        "invalid pattern: "@ + pattern::regex_error(stream_regex(source@))->0,
                    )
                },
            },
            source@ == ALL_WILDCARD@ ==> res is Ok,
            compiles(source@) ==> res is Ok,
    {
        let mut regex_src = String::new();
        if text::same_text(source, ALL_WILDCARD) {
            regex_src.append(".*");
        } else {
            regex_src.append("^");
            regex_src.append(source);
        }
        assert(regex_src@ == stream_regex(source@));
        assert(text::joined(seq![source@], "|"@) == source@);
        assert(pattern::plain(source@) ==> pattern::plain_texts(seq![source@]));
        assert(pattern::plain(source@) && source@.len() <= pattern::SHORT_PATTERN
            ==> pattern::short_alternatives(source@, seq![source@]));
        match pattern::compile(regex_src.as_str()) {
            Ok(regex) => Ok(StreamPattern { source: source.to_string(), regex }),
            Err(e) => {
                let mut message = String::new();
                message.append("invalid pattern: ");
                message.append(e.as_str());
                assert(message@ == "invalid pattern: "@ + e@);
                Err(exceptions::aws_error(message.as_str()))
            },
        }
    }

    /// The names that the pattern matches at their start, in order.
    pub fn select(&self, names: &Vec<String>) -> (res: Vec<String>)
        ensures
            text::texts(res@) == matching(text::texts(names@), stream_regex(self.text())),
            selects(self.text(), text::texts(names@), text::texts(res@)),
    {
        proof {
            use_type_invariant(self);
        }
        let mut out: Vec<String> = Vec::new();
        let mut i: usize = 0;
        let ghost all = text::texts(names@);
        let ghost regex = stream_regex(self.source@);
        let ghost keep = |name: Seq<char>| matches_at_start(regex, name);
        assert(all.take(0).filter(keep) == text::texts(out@)) by {
            reveal(Seq::filter);
        }
        while i < names.len()
            invariant
                i <= names@.len(),
                all == text::texts(names@),
                regex == stream_regex(self.source@),
                keep == (|name: Seq<char>| matches_at_start(regex, name)),
                pattern::regex_source(self.regex) == regex,
                text::texts(out@) == all.take(i as int).filter(keep),
                self.source@ == ALL_WILDCARD@ ==> forall|j: int|
                    0 <= j < i ==> keep(#[trigger] all[j]),
                forall|alternatives: Seq<Seq<char>>, j: int|
                    #![trigger pattern::plain_texts(alternatives), all[j]]
                    pattern::plain_texts(alternatives) && regex == "^"@ + text::joined(
                        alternatives,
                        "|"@,
                    ) && 0 <= j < i ==> keep(all[j]) == pattern::begins_with_any(
                        all[j],
                        alternatives,
                    ),
            decreases names.len() - i,
        {
            assert(all.take(i + 1).drop_last() == all.take(i as int));
            assert(all.take(i + 1).filter(keep) == if keep(all[i as int]) {
                all.take(i as int).filter(keep).push(all[i as int])
            } else {
                all.take(i as int).filter(keep)
            }) by {
                reveal(Seq::filter);
            }
            let ghost before = out@;
            let found = pattern::find(&self.regex, names[i].as_str());
            let at_start = match found {
                Some(at) => at == 0,
                None => false,
            };
            if at_start {
                out.push(names[i].clone());
                assert(text::texts(out@) == text::texts(before).push(names@[i as int]@));
            }
            i += 1;
        }
        assert(all.take(i as int) == all);
        proof {
            if self.source@ == ALL_WILDCARD@ {
                lemma_filter_all(all, keep);
            } else {
                lemma_selects(self.source@, all, keep);
            }
        }
        out
    }
}

/// What a filter that goes by alternatives of plain text lets through.
proof fn lemma_selects(pat: Seq<char>, names: Seq<Seq<char>>, keep: spec_fn(Seq<char>) -> bool)
    requires
        pat != ALL_WILDCARD@,
        forall|alternatives: Seq<Seq<char>>, j: int|
            #![trigger pattern::plain_texts(alternatives), names[j]]
            pattern::plain_texts(alternatives) && "^"@ + pat == "^"@ + text::joined(
                alternatives,
                "|"@,
            ) && 0 <= j < names.len() ==> keep(names[j]) == pattern::begins_with_any(
                names[j],
                alternatives,
            ),
    ensures
        selects(pat, names, names.filter(keep)),
{
    assert forall|alternatives: Seq<Seq<char>>| #[trigger]
        pattern::plain_texts(alternatives) && pat == text::joined(alternatives, "|"@) implies
        names.filter(keep) == beginning_any(names, alternatives) by {
        lemma_same_filter(
            names,
            keep,
            |name: Seq<char>| pattern::begins_with_any(name, alternatives),
        );
    }
    if pattern::plain(pat) {
        let one = seq![pat];
        assert(pattern::plain_texts(one));
        assert(text::joined(one, "|"@) == pat);
        let begins = |name: Seq<char>| text::occurs_at(name, pat, 0);
        assert forall|j: int| 0 <= j < names.len() implies keep(#[trigger] names[j]) == begins(
            names[j],
        ) by {
            assert(keep(names[j]) == pattern::begins_with_any(names[j], one));
            if text::occurs_at(names[j], pat, 0) {
                assert(text::occurs_at(names[j], one[0], 0));
            }
        }
        lemma_same_filter(names, keep, begins);
    }
}

proof fn lemma_same_filter(
    s: Seq<Seq<char>>,
    p: spec_fn(Seq<char>) -> bool,
    q: spec_fn(Seq<char>) -> bool,
)
    requires
        forall|i: int| 0 <= i < s.len() ==> p(#[trigger] s[i]) == q(s[i]),
    ensures
        s.filter(p) == s.filter(q),
    decreases s.len(),
{
    reveal(Seq::filter);
    if s.len() > 0 {
        assert(p(s[s.len() - 1]) == q(s[s.len() - 1]));
        assert forall|i: int| 0 <= i < s.drop_last().len() implies p(#[trigger] s.drop_last()[i])
            == q(s.drop_last()[i]) by {
            assert(s.drop_last()[i] == s[i]);
        }
        lemma_same_filter(s.drop_last(), p, q);
    }
}

proof fn lemma_filter_all(s: Seq<Seq<char>>, p: spec_fn(Seq<char>) -> bool)
    requires
        forall|i: int| 0 <= i < s.len() ==> p(#[trigger] s[i]),
    ensures
        s.filter(p) == s,
    decreases s.len(),
{
    reveal(Seq::filter);
    if s.len() > 0 {
        assert(p(s[s.len() - 1]));
        assert forall|i: int| 0 <= i < s.drop_last().len() implies p(
            #[trigger] s.drop_last()[i],
        ) by {
            assert(s.drop_last()[i] == s[i]);
        }
        lemma_filter_all(s.drop_last(), p);
        assert(s.drop_last().push(s.last()) == s);
    }
}

/// What naming the streams to read comes to: the names that matched, unless they are too many
/// for one request or none.
pub open spec fn chosen(
    pat: Seq<char>,
    matched: Seq<Seq<char>>,
    res: Result<Vec<String>, AwsLogsError>,
) -> bool {
    if matched.len() > FILTER_LOG_EVENTS_STREAMS_LIMIT {
        res matches Err(AwsLogsError::TooManyStreamsFiltered { pattern, count, limit })
            && pattern@ == pat && count == matched.len() && limit
            == FILTER_LOG_EVENTS_STREAMS_LIMIT
    } else if matched.len() == 0 {
        res matches Err(AwsLogsError::NoStreamsFiltered(pattern)) && pattern@ == pat
    } else {
        res matches Ok(names) && text::texts(names@) == matched
    }
}

/// Checks the streams that a pattern matched.
pub fn check_matched(pat: &str, matched: Vec<String>) -> (res: Result<Vec<String>, AwsLogsError>)
    ensures
        chosen(pat@, text::texts(matched@), res),
{
    if matched.len() > FILTER_LOG_EVENTS_STREAMS_LIMIT {
        return Err(
            AwsLogsError::TooManyStreamsFiltered {
                pattern: pat.to_string(),
                count: matched.len(),
                limit: FILTER_LOG_EVENTS_STREAMS_LIMIT,
            },
        );
    }
    if matched.len() == 0 {
        return Err(AwsLogsError::NoStreamsFiltered(pat.to_string()));
    }
    Ok(matched)
}

// ── the engine ──────────────────────────────────────────────────────────────
/// A configuration, with its query compiled.
pub struct AwsLogs {
    cfg: AwsLogsConfig,
    query: Option<jmespath::Expression<'static>>,
}

/// Where to take the names of the streams to read from.
pub enum LogsPlan {
    /// These streams; none named means all of the group.
    Streams(Vec<String>),
    /// Those of the group's streams that match the pattern.
    Match(StreamPattern),
}

/// The stream pattern of a configuration.
pub open spec fn pattern_of(cfg: AwsLogsConfig) -> Seq<char> {
    match cfg.log_stream_name {
        Some(name) => name@,
        None => ALL_WILDCARD@,
    }
}

/// What planning a read of logs comes to.
pub open spec fn planned(cfg: AwsLogsConfig, res: Result<LogsPlan, AwsLogsError>) -> bool {
    if cfg.log_group_name is None {
        res matches Err(e) && says(e, "log_group_name required"@)
    } else if cfg.explicit_streams is Some {
        res matches Ok(LogsPlan::Streams(streams)) && streams@ == cfg.explicit_streams->0@
    } else if pattern_of(cfg) == ALL_WILDCARD@ {
        res matches Ok(LogsPlan::Streams(streams)) && streams@.len() == 0
    } else {
        match pattern::regex_error(stream_regex(pattern_of(cfg))) {
            None => res matches Ok(LogsPlan::Match(p)) && p.text() == pattern_of(cfg),
            Some(m) => res matches Err(e) && says(e, "invalid pattern: "@ + m),
        }
    }
}

/// The query of a configuration, if there is one, can be applied to every message.
pub open spec fn searchable(cfg: AwsLogsConfig, events: Seq<LogEvent>) -> bool {
    forall|i: int|
        0 <= i < events.len() ==> query::queryable(
            text::opt_text(cfg.query),
            (#[trigger] events[i]).message@,
        )
}

impl AwsLogs {
    #[verifier::type_invariant]
    spec fn inv(self) -> bool {
        match (self.cfg.query, self.query) {
            (None, None) => true,
            (Some(q), Some(expr)) => query::query_source(expr) == q@,
            _ => false,
        }
    }

    /// The configuration.
    pub closed spec fn settings(self) -> AwsLogsConfig {
        self.cfg
    }

    /// Compiles the query of a configuration.
    pub fn new(cfg: AwsLogsConfig) -> (res: Result<AwsLogs, AwsLogsError>)
        ensures
            match cfg.query {
                None => res matches Ok(logs) && logs.settings() == cfg,
                Some(q) => match query::query_error(q@) {
                    None => res matches Ok(logs) && logs.settings() == cfg,
                    Some(m) => res matches Err(e) && says(e, "invalid JMESPath: "@ + m),
                },
            },
    {
        match query::compile_opt(&cfg.query) {
            Ok(query) => Ok(AwsLogs { cfg, query }),
            Err(e) => Err(e),
        }
    }

    /// The configuration.
    pub fn config(&self) -> (res: &AwsLogsConfig)
        ensures
            *res == self.settings(),
    {
        &self.cfg
    }

    /// Whether the query, if there is one, can be applied to every message of a page.
    pub fn is_searchable(&self, resp: &FilterResponse) -> (res: bool)
        ensures
            res == searchable(self.settings(), resp.events@),
    {
        match &self.cfg.query {
            Some(q) => {
                if query::has_fitting_slices(q.as_str()) {
                    return true;
                }
                let mut i: usize = 0;
                while i < resp.events.len()
                    invariant
                        i <= resp.events@.len(),
                        self.cfg.query == Some(*q),
                        !query::slices_fit(q@),
                        forall|j: int|
                            0 <= j < i ==> query::queryable(
                                text::opt_text(self.cfg.query),
                                (#[trigger] resp.events@[j]).message@,
                            ),
                    decreases resp.events.len() - i,
                {
                    if text::starts_with(resp.events[i].message.as_str(), '{') {
                        assert(!query::queryable(
                            text::opt_text(self.cfg.query),
                            resp.events@[i as int].message@,
                        ));
                        return false;
                    }
                    i += 1;
                }
                true
            },
            None => true,
        }
    }

    /// The group whose streams to list: the one named here, else the configured one.
    pub fn streams_group(&self, log_group_name: Option<&str>) -> (res: Result<
        String,
        AwsLogsError,
    >)
        ensures
            match time::argument(log_group_name) {
                Some(name) => res matches Ok(group) && group@ == name,
                None => match self.settings().log_group_name {
                    Some(name) => res matches Ok(group) && group@ == name@,
                    None => res matches Err(e) && says(e, "log_group_name required"@),
                },
            },
    {
        match log_group_name {
            Some(name) => Ok(name.to_string()),
            None => match &self.cfg.log_group_name {
                Some(name) => Ok(name.clone()),
                None => Err(exceptions::aws_error("log_group_name required")),
            },
        }
    }

    /// The names of a group's streams that have a moment in common with the configured window.
    pub fn get_streams(&self, metas: &[StreamMeta]) -> (res: Vec<String>)
        ensures
            text::texts(res@) == windowed(metas@, self.settings().start, self.settings().end),
    {
        filter_streams_by_window(metas, self.cfg.start, self.cfg.end)
    }

    /// The names of a group's streams that match a pattern and have a moment in common with
    /// the configured window.
    pub fn streams_matching(&self, metas: &[StreamMeta], pattern: &str) -> (res: Result<
        Vec<String>,
        AwsLogsError,
    >)
        ensures
            match pattern::regex_error(stream_regex(pattern@)) {
                None => res matches Ok(names) && text::texts(names@) == matching(
                    windowed(metas@, self.settings().start, self.settings().end),
                    stream_regex(pattern@),
                ),
                Some(m) => res matches Err(e) && says(e, "invalid pattern: "@ + m),
            },
            pattern@ == ALL_WILDCARD@ ==> res is Ok,
            compiles(pattern@) ==> res is Ok,
            res matches Ok(names) ==> selects(
                pattern@,
                windowed(metas@, self.settings().start, self.settings().end),
                text::texts(names@),
            ),
    {
        match StreamPattern::new(pattern) {
            Ok(p) => Ok(p.select(&self.get_streams(metas))),
            Err(e) => Err(e),
        }
    }

    /// Where to take the names of the streams to read from.
    pub fn plan_logs(&self) -> (res: Result<LogsPlan, AwsLogsError>)
        ensures
            planned(self.settings(), res),
            self.settings().log_group_name is Some && compiles(pattern_of(self.settings())) ==> res
                is Ok,
    {
        if self.cfg.log_group_name.is_none() {
            return Err(exceptions::aws_error("log_group_name required"));
        }
        if let Some(names) = &self.cfg.explicit_streams {
            return Ok(LogsPlan::Streams(text::copy_all(names)));
        }
        let stream_pattern = match &self.cfg.log_stream_name {
            Some(name) => name.clone(),
            None => ALL_WILDCARD.to_string(),
        };
        if text::same_text(stream_pattern.as_str(), ALL_WILDCARD) {
            return Ok(LogsPlan::Streams(Vec::new()));
        }
        match StreamPattern::new(stream_pattern.as_str()) {
            Ok(p) => Ok(LogsPlan::Match(p)),
            Err(e) => Err(e),
        }
    }

    /// The names of the streams to read, out of the group's streams.
    pub fn choose_streams(&self, pattern: &StreamPattern, metas: &[StreamMeta]) -> (res: Result<
        Vec<String>,
        AwsLogsError,
    >)
        ensures
            ({
                let passed = windowed(metas@, self.settings().start, self.settings().end);
                let matched = matching(passed, stream_regex(pattern.text()));
                &&& chosen(pattern.text(), matched, res)
                &&& selects(pattern.text(), passed, matched)
            }),
    {
        let matched = pattern.select(&self.get_streams(metas));
        check_matched(pattern.source.as_str(), matched)
    }

    /// The line of one event.
    pub fn format_event(
        &self,
        event: &LogEvent,
        group: &str,
        group_length: usize,
        max_stream_length: usize,
        color_enabled: bool,
    ) -> (res: String)
        requires
            query::queryable(text::opt_text(self.settings().query), event.message@),
        ensures
            res@ == event_line(
                self.settings(),
                event.parts(),
                group@,
                group_length as int,
                max_stream_length as int,
                color_enabled,
            ),
    {
        proof {
            use_type_invariant(self);
        }
        let mut parts: Vec<String> = Vec::new();
        let ghost e = event.parts();
        if self.cfg.output_group_enabled {
            let padded = ljust(group, group_length);
            parts.push(maybe_color(padded.as_str(), Color::Green, color_enabled));
        }
        assert(text::texts(parts@) == group_column(
            self.cfg,
            group@,
            group_length as int,
            color_enabled,
        ));
        let ghost p1 = parts@;
        if self.cfg.output_stream_enabled {
            let padded = ljust(event.log_stream_name.as_str(), max_stream_length);
            parts.push(maybe_color(padded.as_str(), Color::Cyan, color_enabled));
        }
        assert(text::texts(parts@) == text::texts(p1) + stream_column(
            self.cfg,
            e,
            max_stream_length as int,
            color_enabled,
        ));
        let ghost p2 = parts@;
        if self.cfg.output_timestamp_enabled {
            let iso = millis_to_iso(event.timestamp);
            parts.push(maybe_color(iso.as_str(), Color::Yellow, color_enabled));
        }
        assert(text::texts(parts@) == text::texts(p2) + timestamp_column(
            self.cfg,
            e,
            color_enabled,
        ));
        let ghost p3 = parts@;
        if self.cfg.output_ingestion_time_enabled {
            let iso = millis_to_iso(event.ingestion_time);
            parts.push(maybe_color(iso.as_str(), Color::Blue, color_enabled));
        }
        assert(text::texts(parts@) == text::texts(p3) + ingestion_column(
            self.cfg,
            e,
            color_enabled,
        ));
        let ghost p4 = parts@;
        let message = match &self.query {
            Some(expr) => query::apply(expr, event.message.clone()),
            None => event.message.clone(),
        };
        parts.push(rstrip(message.as_str()).to_string());
        assert(text::texts(parts@) == text::texts(p4).push(
            text::trimmed_end(message_of(self.cfg, e)),
        ));
        assert(text::texts(parts@) == event_columns(
            self.cfg,
            e,
            group@,
            group_length as int,
            max_stream_length as int,
            color_enabled,
        ));
        text::join(parts.as_slice(), " ")
    }
}

// ── lines ───────────────────────────────────────────────────────────────────
/// The group's name in green, where groups are printed.
pub open spec fn group_column(
    cfg: AwsLogsConfig,
    group: Seq<char>,
    group_length: int,
    color: bool,
) -> Seq<Seq<char>> {
    if cfg.output_group_enabled {
        seq![painted(left_justified(group, group_length), Color::Green, color)]
    } else {
        Seq::empty()
    }
}

/// The stream's name in cyan, where streams are printed.
pub open spec fn stream_column(
    cfg: AwsLogsConfig,
    event: client::EventParts,
    stream_length: int,
    color: bool,
) -> Seq<Seq<char>> {
    if cfg.output_stream_enabled {
        seq![painted(left_justified(event.log_stream_name, stream_length), Color::Cyan, color)]
    } else {
        Seq::empty()
    }
}

/// The time of the event in yellow, where it is printed.
pub open spec fn timestamp_column(
    cfg: AwsLogsConfig,
    event: client::EventParts,
    color: bool,
) -> Seq<Seq<char>> {
    if cfg.output_timestamp_enabled {
        seq![painted(iso_text(event.timestamp), Color::Yellow, color)]
    } else {
        Seq::empty()
    }
}

/// The time of ingestion in blue, where it is printed.
pub open spec fn ingestion_column(
    cfg: AwsLogsConfig,
    event: client::EventParts,
    color: bool,
) -> Seq<Seq<char>> {
    if cfg.output_ingestion_time_enabled {
        seq![painted(iso_text(event.ingestion_time), Color::Blue, color)]
    } else {
        Seq::empty()
    }
}

/// The message of the event, after the configured query.
pub open spec fn message_of(cfg: AwsLogsConfig, event: client::EventParts) -> Seq<char> {
    match cfg.query {
        Some(q) => query::queried(q@, event.message),
        None => event.message,
    }
}

/// The columns of an event's line; the message is the last of them.
pub open spec fn event_columns(
    cfg: AwsLogsConfig,
    event: client::EventParts,
    group: Seq<char>,
    group_length: int,
    stream_length: int,
    color: bool,
) -> Seq<Seq<char>> {
    (group_column(cfg, group, group_length, color) + stream_column(
        cfg,
        event,
        stream_length,
        color,
    ) + timestamp_column(cfg, event, color) + ingestion_column(cfg, event, color)).push(
        text::trimmed_end(message_of(cfg, event)),
    )
}

/// The line of an event.
pub open spec fn event_line(
    cfg: AwsLogsConfig,
    event: client::EventParts,
    group: Seq<char>,
    group_length: int,
    stream_length: int,
    color: bool,
) -> Seq<char> {
    text::joined(event_columns(cfg, event, group, group_length, stream_length, color), " "@)
}

// ── paging ──────────────────────────────────────────────────────────────────
/// The widest of the names in bytes, or ten where there are none.
pub open spec fn column_width(names: Seq<Seq<char>>) -> int {
    if names.len() == 0 {
        10
    } else {
        widest(names)
    }
}

/// The widest of the names in bytes.
pub open spec fn widest(names: Seq<Seq<char>>) -> int
    decreases names.len(),
{
    if names.len() == 0 {
        0
    } else {
        let rest = widest(names.drop_last());
        let last = text::byte_count(names.last());
        if rest < last {
            last
        } else {
            rest
        }
    }
}

/// The widest of the names in bytes, or ten where there are none.
pub fn longest_name(names: &Vec<String>) -> (res: usize)
    ensures
        res == column_width(text::texts(names@)),
{
    if names.len() == 0 {
        return 10;
    }
    let mut width: usize = 0;
    let mut i: usize = 0;
    let ghost all = text::texts(names@);
    while i < names.len()
        invariant
            i <= names@.len(),
            all == text::texts(names@),
            width == widest(all.take(i as int)),
        decreases names.len() - i,
    {
        assert(all.take(i + 1).drop_last() == all.take(i as int));
        let length = text::byte_length(names[i].as_str());
        if width < length {
            width = length;
        }
        i += 1;
    }
    assert(all.take(i as int) == all);
    width
}

/// The remembered ids after one more: the oldest makes room where the memory is full.
pub open spec fn remember(seen: Seq<Seq<char>>, id: Seq<char>) -> Seq<Seq<char>> {
    if seen.len() >= MAX_EVENTS_PER_CALL {
        seen.drop_first().push(id)
    } else {
        seen.push(id)
    }
}

/// The remembered ids after a run of events.
pub open spec fn remembered(seen: Seq<Seq<char>>, events: Seq<client::EventParts>) -> Seq<Seq<char>>
    decreases events.len(),
{
    if events.len() == 0 {
        seen
    } else {
        let before = remembered(seen, events.drop_last());
        if before.contains(events.last().event_id) {
            before
        } else {
            remember(before, events.last().event_id)
        }
    }
}

/// The events whose ids were not remembered when they came, in order.
pub open spec fn fresh(seen: Seq<Seq<char>>, events: Seq<client::EventParts>) -> Seq<
    client::EventParts,
>
    decreases events.len(),
{
    if events.len() == 0 {
        Seq::empty()
    } else {
        let before = remembered(seen, events.drop_last());
        if before.contains(events.last().event_id) {
            fresh(seen, events.drop_last())
        } else {
            fresh(seen, events.drop_last()).push(events.last())
        }
    }
}

/// A reading of logs in progress.
pub struct LogsRun {
    group: String,
    streams: Vec<String>,
    stream_length: usize,
    color: bool,
    seen: std::collections::VecDeque<String>,
    next_token: Option<String>,
}

/// What a reading of logs has come to.
pub ghost struct RunState {
    /// The group that is read.
    pub group: Seq<char>,
    /// The streams that are read; none named means all.
    pub streams: Seq<Seq<char>>,
    /// Whether lines are colored.
    pub color: bool,
    /// The ids of the events printed last, oldest first.
    pub seen: Seq<Seq<char>>,
    /// The token of the next page.
    pub token: Option<Seq<char>>,
}

/// What to do after a page.
#[derive(Debug, Clone, Copy, PartialEq, Eq)]
pub enum LogsNext {
    /// Ask for the next page.
    Fetch,
    /// Wait this long, then ask from the start again.
    Wait(Duration),
    /// Stop.
    Done,
}

impl View for LogsRun {
    type V = RunState;

    closed spec fn view(&self) -> RunState {
        RunState {
            group: self.group@,
            streams: text::texts(self.streams@),
            color: self.color,
            seen: text::texts(self.seen@),
            token: text::opt_text(self.next_token),
        }
    }
}

impl LogsRun {
    /// The memory is bounded and holds no id twice, and the columns are as wide as the names.
    pub closed spec fn wf(self) -> bool {
        &&& self@.seen.len() <= MAX_EVENTS_PER_CALL
        &&& self@.seen.no_duplicates()
        &&& self.stream_length == column_width(self@.streams)
    }

    /// Begins to read `streams` of `group`, or all of them where none is named.
    pub fn new(group: String, streams: Vec<String>, color: bool) -> (res: LogsRun)
        ensures
            res.wf(),
            res@ == (RunState {
                group: group@,
                streams: text::texts(streams@),
                color,
                seen: Seq::empty(),
                token: None,
            }),
    {
        let stream_length = longest_name(&streams);
        let res = LogsRun {
            group,
            streams,
            stream_length,
            color,
            seen: std::collections::VecDeque::with_capacity(MAX_EVENTS_PER_CALL),
            next_token: None,
        };
        assert(res@.seen == Seq::<Seq<char>>::empty());
        res
    }

    fn has_seen(&self, id: &str) -> (res: bool)
        ensures
            res == self@.seen.contains(id@),
    {
        let mut i: usize = 0;
        while i < self.seen.len()
            invariant
                i <= self.seen@.len(),
                forall|j: int| 0 <= j < i ==> self@.seen[j] != id@,
            decreases self.seen@.len() - i,
        {
            if text::same_text(self.seen[i].as_str(), id) {
                assert(self@.seen[i as int] == id@);
                return true;
            }
            i += 1;
        }
        false
    }
}

/// The request for the next page of a reading.
pub open spec fn is_request(cfg: AwsLogsConfig, run: RunState, params: FilterParams) -> bool {
    &&& params.log_group_name@ == run.group
    &&& text::texts(params.log_stream_names@) == run.streams
    &&& params.start_time == cfg.start
    &&& params.end_time == cfg.end
    &&& text::opt_text(params.filter_pattern) == text::opt_text(cfg.filter_pattern)
    &&& params.interleaved
}

/// The lines of the events of a page that were not printed before.
pub open spec fn page_lines(
    cfg: AwsLogsConfig,
    run: RunState,
    events: Seq<client::EventParts>,
) -> Seq<Seq<char>> {
    fresh(run.seen, events).map_values(
        |e: client::EventParts|
            event_line(
                cfg,
                e,
                run.group,
                text::byte_count(run.group),
                column_width(run.streams),
                run.color,
            ),
    )
}

impl AwsLogs {
    /// Begins to read the streams named; colors are as configured, and the terminal is asked
    /// where the configuration leaves them open.
    pub fn begin_logs(&self, streams: Vec<String>) -> (res: Result<LogsRun, AwsLogsError>)
        ensures
            match self.settings().log_group_name {
                None => res matches Err(e) && says(e, "log_group_name required"@),
                Some(group) => res matches Ok(run) && run.wf() && exists|terminal: bool|
                    run@ == (RunState {
                        group: group@,
                        streams: text::texts(streams@),
                        color: #[trigger] self.settings().color.enables(terminal),
                        seen: Seq::empty(),
                        token: None,
                    }),
            },
    {
        match &self.cfg.log_group_name {
            None => Err(exceptions::aws_error("log_group_name required")),
            Some(group) => Ok(LogsRun::new(group.clone(), streams, self.cfg.color.enabled())),
        }
    }

    /// The request for the next page, and the token that goes with it.
    pub fn request(&self, run: &LogsRun) -> (res: (FilterParams, Option<String>))
        ensures
            is_request(self.settings(), run@, res.0),
            text::opt_text(res.1) == run@.token,
    {
        (
            FilterParams {
                log_group_name: run.group.clone(),
                log_stream_names: text::copy_all(&run.streams),
                start_time: self.cfg.start,
                end_time: self.cfg.end,
                filter_pattern: text::copy_opt(&self.cfg.filter_pattern),
                interleaved: true,
            },
            text::copy_opt(&run.next_token),
        )
    }

    /// Takes a page in: the lines to print, and what to do then. Events whose ids are
    /// remembered are passed over.
    pub fn page(&self, run: &mut LogsRun, resp: FilterResponse) -> (res: (Vec<String>, LogsNext))
        requires
            old(run).wf(),
            searchable(self.settings(), resp.events@),
        ensures
            final(run).wf(),
            text::texts(res.0@) == page_lines(
                self.settings(),
                old(run)@,
                client::events_parts(resp.events@),
            ),
            final(run)@ == (RunState {
                seen: remembered(old(run)@.seen, client::events_parts(resp.events@)),
                token: text::opt_text(resp.next_token),
                ..old(run)@
            }),
            res.1 == if resp.next_token is Some {
                LogsNext::Fetch
            } else if self.settings().watch {
                LogsNext::Wait(self.settings().watch_interval)
            } else {
                LogsNext::Done
            },
    {
        let mut lines: Vec<String> = Vec::new();
        let group_length = text::byte_length(run.group.as_str());
        let ghost all = client::events_parts(resp.events@);
        let ghost start = run@;
        let ghost shape = |e: client::EventParts|
            event_line(
                self.settings(),
                e,
                start.group,
                text::byte_count(start.group),
                column_width(start.streams),
                start.color,
            );
        let mut i: usize = 0;
        assert(all.take(0) == Seq::<client::EventParts>::empty());
        assert(text::texts(lines@) == fresh(start.seen, all.take(0)).map_values(shape));
        while i < resp.events.len()
            invariant
                i <= resp.events@.len(),
                searchable(self.settings(), resp.events@),
                all == client::events_parts(resp.events@),
                run.wf(),
                group_length == text::byte_count(start.group),
                shape == (|e: client::EventParts|
                    event_line(
                        self.settings(),
                        e,
                        start.group,
                        text::byte_count(start.group),
                        column_width(start.streams),
                        start.color,
                    )),
                run@ == (RunState { seen: remembered(start.seen, all.take(i as int)), ..start }),
                text::texts(lines@) == fresh(start.seen, all.take(i as int)).map_values(shape),
            decreases resp.events.len() - i,
        {
            let event = &resp.events[i];
            assert(all.take(i + 1).drop_last() == all.take(i as int));
            assert(all.take(i + 1).last() == event.parts());
            if !run.has_seen(event.event_id.as_str()) {
                let ghost before = run@.seen;
                if run.seen.len() == MAX_EVENTS_PER_CALL {
                    let _ = run.seen.pop_front();
                    assert(run@.seen == before.drop_first());
                }
                let ghost room = run@.seen;
                run.seen.push_back(event.event_id.clone());
                assert(run@.seen == room.push(event.event_id@));
                assert(run@.seen == remember(before, event.event_id@));
                proof {
                    lemma_remember(before, event.event_id@);
                }
                let line = self.format_event(
                    event,
                    run.group.as_str(),
                    group_length,
                    run.stream_length,
                    run.color,
                );
                let ghost printed = lines@;
                lines.push(line);
                assert(text::texts(lines@) == text::texts(printed).push(shape(event.parts())));
                assert(fresh(start.seen, all.take(i + 1)).map_values(shape) == fresh(
                    start.seen,
                    all.take(i as int),
                ).map_values(shape).push(shape(event.parts())));
            }
            i += 1;
        }
        assert(all.take(i as int) == all);
        let next = match &resp.next_token {
            Some(_) => LogsNext::Fetch,
            None => if self.cfg.watch {
                LogsNext::Wait(self.cfg.watch_interval)
            } else {
                LogsNext::Done
            },
        };
        run.next_token = resp.next_token;
        (lines, next)
    }
}

/// One more id keeps the memory bounded and free of repeats.
proof fn lemma_remember(seen: Seq<Seq<char>>, id: Seq<char>)
    requires
        seen.len() <= MAX_EVENTS_PER_CALL,
        seen.no_duplicates(),
        !seen.contains(id),
    ensures
        remember(seen, id).len() <= MAX_EVENTS_PER_CALL,
        remember(seen, id).no_duplicates(),
{
    let kept = if seen.len() >= MAX_EVENTS_PER_CALL {
        seen.drop_first()
    } else {
        seen
    };
    assert forall|i: int, j: int|
        0 <= i < remember(seen, id).len() && 0 <= j < remember(seen, id).len() && i != j implies
        remember(seen, id)[i] != remember(seen, id)[j] by {
        assert(forall|k: int| 0 <= k < kept.len() ==> seen.contains(#[trigger] kept[k]));
    }
}

// ── laws ────────────────────────────────────────────────────────────────────
/// Every instant of the supported range has exactly one calendar date and time of day.
pub proof fn law_instants_have_dates(millis: int)
    requires
        time::instant_fits(millis),
    ensures
        is_civil(civil_at(millis), millis),
        forall|c: Civil| #[trigger] is_civil(c, millis) ==> c == civil_at(millis),
{
    let c = calendar::lemma_date_of(millis / 1000, millis % 1000);
    assert(is_civil(c, millis));
    assert forall|d: Civil| #[trigger] is_civil(d, millis) implies d == civil_at(millis) by {
        calendar::lemma_civil_unique(d, civil_at(millis));
    }
}

/// In the years 0 to 9999 a timestamp is 24 characters long, and two instants never look the
/// same.
pub proof fn law_timestamps_tell_instants(a: int, b: int)
    requires
        time::instant_fits(a),
        time::instant_fits(b),
        0 <= civil_at(a).year <= 9999,
        0 <= civil_at(b).year <= 9999,
    ensures
        iso_text(a).len() == 24,
        iso_text(a) == iso_text(b) ==> a == b,
{
    law_instants_have_dates(a);
    law_instants_have_dates(b);
    calendar::lemma_civil_text_width(civil_at(a));
    if iso_text(a) == iso_text(b) {
        calendar::lemma_civil_text_unique(civil_at(a), civil_at(b));
    }
}

/// A column is at least as wide as asked, begins with its text, and ends in spaces only.
pub proof fn law_columns(text: Seq<char>, width: int)
    ensures
        left_justified(text, width).len() >= width,
        left_justified(text, width).len() == width || left_justified(text, width) == text,
        left_justified(text, width).take(text.len() as int) == text,
        forall|i: int|
            text.len() <= i < left_justified(text, width).len() ==> #[trigger] left_justified(
                text,
                width,
            )[i] == ' ',
{
    assert(left_justified(text, width).take(text.len() as int) == text);
}

/// The message stands last in a line, without the whitespace at its end.
pub proof fn law_messages_are_stripped(
    cfg: AwsLogsConfig,
    event: client::EventParts,
    group: Seq<char>,
    group_length: int,
    stream_length: int,
    color: bool,
)
    ensures
        ({
            let columns = event_columns(cfg, event, group, group_length, stream_length, color);
            let message = columns.last();
            &&& columns.len() >= 1
            &&& message == text::trimmed_end(message_of(cfg, event))
            &&& message.len() > 0 ==> !text::is_space(message.last())
        }),
{
    text::lemma_trimmed_end(message_of(cfg, event));
}

/// Without columns, a line is the message alone.
pub proof fn law_bare_lines(
    cfg: AwsLogsConfig,
    event: client::EventParts,
    group: Seq<char>,
    group_length: int,
    stream_length: int,
    color: bool,
)
    requires
        !cfg.output_group_enabled,
        !cfg.output_stream_enabled,
        !cfg.output_timestamp_enabled,
        !cfg.output_ingestion_time_enabled,
    ensures
        event_line(cfg, event, group, group_length, stream_length, color) == text::trimmed_end(
            message_of(cfg, event),
        ),
{
}

/// A message that does not begin with a brace is printed as it is, whatever the query.
pub proof fn law_only_objects_are_queried(cfg: AwsLogsConfig, event: client::EventParts)
    requires
        event.message.len() == 0 || event.message[0] != '{',
    ensures
        message_of(cfg, event) == event.message,
{
}

/// A stream whose span is not known passes every window.
pub proof fn law_unknown_spans_pass(meta: StreamMeta, start: Option<i64>, end: Option<i64>)
    requires
        meta.first_event_timestamp is None || meta.last_ingestion_time is None,
    ensures
        in_window(meta, start, end),
{
}

/// A stream passes exactly where some millisecond lies both in its span and in the window.
pub proof fn law_window_is_overlap(meta: StreamMeta, start: Option<i64>, end: Option<i64>)
    requires
        meta.first_event_timestamp is Some,
        meta.last_ingestion_time is Some,
    ensures
        in_window(meta, start, end) <==> exists|t: int|
            #![trigger in_span(meta, t)]
            in_span(meta, t) && window_start(start) <= t <= window_end(end),
{
    let first = meta.first_event_timestamp->0 as int;
    let from = window_start(start);
    let t = if first < from {
        from
    } else {
        first
    };
    if in_window(meta, start, end) {
        assert(in_span(meta, t));
    }
}

/// The millisecond lies in the span of the stream.
pub open spec fn in_span(meta: StreamMeta, t: int) -> bool {
    meta.first_event_timestamp matches Some(first) && meta.last_ingestion_time matches Some(last)
        && first <= t <= last
}

/// A wider window lets every stream through that a narrower one does.
pub proof fn law_wider_windows_keep_more(
    meta: StreamMeta,
    start: Option<i64>,
    end: Option<i64>,
    wider_start: Option<i64>,
    wider_end: Option<i64>,
)
    requires
        in_window(meta, start, end),
        window_start(wider_start) <= window_start(start),
        window_end(end) <= window_end(wider_end),
    ensures
        in_window(meta, wider_start, wider_end),
{
}

/// Exactly the streams that pass the window are listed.
pub proof fn law_window_lists_what_passes(
    metas: Seq<StreamMeta>,
    start: Option<i64>,
    end: Option<i64>,
    name: Seq<char>,
)
    ensures
        windowed(metas, start, end).contains(name) <==> exists|i: int|
            0 <= i < metas.len() && in_window(#[trigger] metas[i], start, end) && metas[i].name@
                == name,
{
    let keep = |m: StreamMeta| in_window(m, start, end);
    let kept = metas.filter(keep);
    let names = windowed(metas, start, end);
    if names.contains(name) {
        let j = choose|j: int| 0 <= j < names.len() && names[j] == name;
        assert(kept.contains(kept[j]));
        metas.lemma_filter_contains_rev(keep, kept[j]);
        metas.lemma_filter_pred(keep, j);
        let i = choose|i: int| 0 <= i < metas.len() && metas[i] == kept[j];
        assert(in_window(metas[i], start, end));
    }
    if exists|i: int|
        0 <= i < metas.len() && in_window(#[trigger] metas[i], start, end) && metas[i].name@ == name {
        let i = choose|i: int|
            0 <= i < metas.len() && in_window(#[trigger] metas[i], start, end) && metas[i].name@
                == name;
        metas.lemma_filter_contains(keep, i);
        let j = choose|j: int| 0 <= j < kept.len() && kept[j] == metas[i];
        assert(names[j] == name);
    }
}

/// Streams chosen by a pattern are at least one and fit into one request.
pub proof fn law_chosen_streams_fit(
    pat: Seq<char>,
    matched: Seq<Seq<char>>,
    res: Result<Vec<String>, AwsLogsError>,
)
    requires
        chosen(pat, matched, res),
    ensures
        res matches Ok(names) ==> 1 <= names@.len() <= FILTER_LOG_EVENTS_STREAMS_LIMIT,
        res is Ok <==> 1 <= matched.len() <= FILTER_LOG_EVENTS_STREAMS_LIMIT,
{
    if let Ok(names) = res {
        assert(text::texts(names@).len() == names@.len());
    }
}

/// Where pages are cut does not matter: two pages print and remember what one page of both
/// would.
pub proof fn law_pages_join(
    seen: Seq<Seq<char>>,
    a: Seq<client::EventParts>,
    b: Seq<client::EventParts>,
)
    ensures
        remembered(seen, a + b) == remembered(remembered(seen, a), b),
        fresh(seen, a + b) == fresh(seen, a) + fresh(remembered(seen, a), b),
    decreases b.len(),
{
    if b.len() == 0 {
        assert(a + b == a);
        assert(fresh(seen, a) + fresh(remembered(seen, a), b) == fresh(seen, a));
    } else {
        law_pages_join(seen, a, b.drop_last());
        assert((a + b).drop_last() == a + b.drop_last());
        assert((a + b).last() == b.last());
        let before = fresh(remembered(seen, a), b.drop_last());
        assert(fresh(seen, a) + before.push(b.last()) == (fresh(seen, a) + before).push(b.last()));
    }
}

/// The memory stays bounded and free of repeats.
pub proof fn law_memory_is_bounded(seen: Seq<Seq<char>>, events: Seq<client::EventParts>)
    requires
        seen.len() <= MAX_EVENTS_PER_CALL,
        seen.no_duplicates(),
    ensures
        remembered(seen, events).len() <= MAX_EVENTS_PER_CALL,
        remembered(seen, events).no_duplicates(),
    decreases events.len(),
{
    if events.len() > 0 {
        law_memory_is_bounded(seen, events.drop_last());
        let before = remembered(seen, events.drop_last());
        if !before.contains(events.last().event_id) {
            lemma_remember(before, events.last().event_id);
        }
    }
}

/// As long as nothing had to be forgotten, every id that came is remembered.
proof fn lemma_all_remembered(seen: Seq<Seq<char>>, events: Seq<client::EventParts>)
    requires
        seen.len() + events.len() <= MAX_EVENTS_PER_CALL,
    ensures
        remembered(seen, events).len() <= seen.len() + events.len(),
        forall|id: Seq<char>| seen.contains(id) ==> #[trigger] remembered(seen, events).contains(id),
        forall|i: int|
            0 <= i < events.len() ==> remembered(seen, events).contains(
                (#[trigger] events[i]).event_id,
            ),
    decreases events.len(),
{
    if events.len() > 0 {
        let front = events.drop_last();
        let id = events.last().event_id;
        lemma_all_remembered(seen, front);
        let before = remembered(seen, front);
        let after = remembered(seen, events);
        assert forall|x: Seq<char>| before.contains(x) || x == id implies #[trigger] after.contains(
            x,
        ) by {
            if before.contains(x) {
                let k = choose|k: int| 0 <= k < before.len() && before[k] == x;
                assert(after[k] == x);
            } else {
                assert(after[after.len() - 1] == x);
            }
        }
        assert forall|i: int| 0 <= i < events.len() implies after.contains(
            (#[trigger] events[i]).event_id,
        ) by {
            if i < front.len() {
                assert(before.contains(front[i].event_id));
            }
        }
    }
}

/// A page that comes again prints nothing, as long as no id had to be forgotten.
pub proof fn law_repeated_pages_print_nothing(
    seen: Seq<Seq<char>>,
    events: Seq<client::EventParts>,
)
    requires
        seen.len() + events.len() <= MAX_EVENTS_PER_CALL,
    ensures
        fresh(remembered(seen, events), events).len() == 0,
        remembered(remembered(seen, events), events) == remembered(seen, events),
{
    lemma_all_remembered(seen, events);
    lemma_known_events(remembered(seen, events), events);
}

/// Events whose ids are all remembered change nothing and print nothing.
proof fn lemma_known_events(seen: Seq<Seq<char>>, events: Seq<client::EventParts>)
    requires
        forall|i: int| 0 <= i < events.len() ==> seen.contains((#[trigger] events[i]).event_id),
    ensures
        fresh(seen, events).len() == 0,
        remembered(seen, events) == seen,
    decreases events.len(),
{
    if events.len() > 0 {
        let front = events.drop_last();
        assert forall|i: int| 0 <= i < front.len() implies seen.contains(
            (#[trigger] front[i]).event_id,
        ) by {
            assert(front[i] == events[i]);
        }
        lemma_known_events(seen, front);
        assert(seen.contains(events[events.len() - 1].event_id));
    }
}

/// No id is printed twice, nor one that was remembered, as long as none had to be forgotten.
pub proof fn law_no_id_is_printed_twice(seen: Seq<Seq<char>>, events: Seq<client::EventParts>)
    requires
        seen.len() + events.len() <= MAX_EVENTS_PER_CALL,
    ensures
        forall|i: int|
            0 <= i < fresh(seen, events).len() ==> !seen.contains(
                (#[trigger] fresh(seen, events)[i]).event_id,
            ),
        forall|i: int, j: int|
            0 <= i < j < fresh(seen, events).len() ==> (#[trigger] fresh(seen, events)[i]).event_id
                != (#[trigger] fresh(seen, events)[j]).event_id,
    decreases events.len(),
{
    if events.len() > 0 {
        let front = events.drop_last();
        let printed = fresh(seen, front);
        law_no_id_is_printed_twice(seen, front);
        lemma_all_remembered(seen, front);
        lemma_fresh_remembered(seen, front);
        let all = fresh(seen, events);
        if !remembered(seen, front).contains(events.last().event_id) {
            assert forall|i: int, j: int| 0 <= i < j < all.len() implies (#[trigger] all[i]).event_id
                != (#[trigger] all[j]).event_id by {
                if j < printed.len() {
                    assert(all[i] == printed[i] && all[j] == printed[j]);
                } else {
                    assert(all[i] == printed[i]);
                }
            }
            assert forall|i: int| 0 <= i < all.len() implies !seen.contains(
                (#[trigger] all[i]).event_id,
            ) by {
                if i < printed.len() {
                    assert(all[i] == printed[i]);
                }
            }
        }
    }
}

/// What was printed is remembered, as long as nothing had to be forgotten.
proof fn lemma_fresh_remembered(seen: Seq<Seq<char>>, events: Seq<client::EventParts>)
    requires
        seen.len() + events.len() <= MAX_EVENTS_PER_CALL,
    ensures
        forall|i: int|
            0 <= i < fresh(seen, events).len() ==> remembered(seen, events).contains(
                (#[trigger] fresh(seen, events)[i]).event_id,
            ),
    decreases events.len(),
{
    lemma_all_remembered(seen, events);
    lemma_fresh_occur(seen, events);
    assert forall|i: int| 0 <= i < fresh(seen, events).len() implies remembered(
        seen,
        events,
    ).contains((#[trigger] fresh(seen, events)[i]).event_id) by {
        let k = choose|k: int| 0 <= k < events.len() && events[k] == fresh(seen, events)[i];
        assert(remembered(seen, events).contains(events[k].event_id));
    }
}

/// What is printed is among what came.
proof fn lemma_fresh_occur(seen: Seq<Seq<char>>, events: Seq<client::EventParts>)
    ensures
        forall|i: int|
            0 <= i < fresh(seen, events).len() ==> events.contains(
                #[trigger] fresh(seen, events)[i],
            ),
    decreases events.len(),
{
    if events.len() > 0 {
        let front = events.drop_last();
        lemma_fresh_occur(seen, front);
        assert forall|i: int| 0 <= i < fresh(seen, events).len() implies events.contains(
            #[trigger] fresh(seen, events)[i],
        ) by {
            if i < fresh(seen, front).len() {
                assert(front.contains(fresh(seen, front)[i]));
                let k = choose|k: int| 0 <= k < front.len() && front[k] == fresh(seen, front)[i];
                assert(events[k] == fresh(seen, front)[i]);
            } else {
                assert(events[events.len() - 1] == fresh(seen, events)[i]);
            }
        }
    }
}

/// An event that was never printed before is printed, whatever else the page holds.
pub proof fn law_new_events_are_printed(
    seen: Seq<Seq<char>>,
    events: Seq<client::EventParts>,
    i: int,
)
    requires
        0 <= i < events.len(),
        !seen.contains(events[i].event_id),
        forall|j: int| 0 <= j < i ==> (#[trigger] events[j]).event_id != events[i].event_id,
    ensures
        fresh(seen, events).contains(events[i]),
    decreases events.len(),
{
    let front = events.drop_last();
    if i < front.len() {
        assert forall|j: int| 0 <= j < i implies (#[trigger] front[j]).event_id
            != front[i].event_id by {
            assert(front[j] == events[j]);
        }
        law_new_events_are_printed(seen, front, i);
        let k = choose|k: int| 0 <= k < fresh(seen, front).len() && fresh(seen, front)[k] == events[i];
        assert(fresh(seen, events)[k] == events[i]);
    } else {
        lemma_only_known_ids(seen, front);
        let id = events[i].event_id;
        if remembered(seen, front).contains(id) {
            let j = choose|j: int| 0 <= j < front.len() && (#[trigger] front[j]).event_id == id;
            assert(events[j] == front[j]);
        }
        assert(fresh(seen, events)[fresh(seen, events).len() - 1] == events[i]);
    }
}

/// Only ids that were remembered or came are remembered.
proof fn lemma_only_known_ids(seen: Seq<Seq<char>>, events: Seq<client::EventParts>)
    ensures
        forall|id: Seq<char>| #[trigger]
            remembered(seen, events).contains(id) ==> seen.contains(id) || exists|j: int|
                0 <= j < events.len() && (#[trigger] events[j]).event_id == id,
    decreases events.len(),
{
    if events.len() > 0 {
        let front = events.drop_last();
        lemma_only_known_ids(seen, front);
        let before = remembered(seen, front);
        let after = remembered(seen, events);
        assert forall|id: Seq<char>| #[trigger] after.contains(id) implies seen.contains(id)
            || exists|j: int| 0 <= j < events.len() && (#[trigger] events[j]).event_id == id by {
            let k = choose|k: int| 0 <= k < after.len() && after[k] == id;
            if id == events.last().event_id {
                assert(events[events.len() - 1].event_id == id);
            } else {
                assert(before.contains(id)) by {
                    if before.contains(events.last().event_id) {
                    } else if before.len() >= MAX_EVENTS_PER_CALL {
                        assert(before[k + 1] == id);
                    } else {
                        assert(before[k] == id);
                    }
                }
                if !seen.contains(id) {
                    let j = choose|j: int|
                        0 <= j < front.len() && (#[trigger] front[j]).event_id == id;
                    assert(events[j].event_id == id);
                }
            }
        }
    }
}

/// A color is switched on by its number in an escape sequence before the text, and off behind it;
/// without colors a text stays as it is.
pub proof fn law_colors(text: Seq<char>)
    ensures
        painted(text, Color::Green, true) == "\x1b[32m"@ + text + "\x1b[0m"@,
        painted(text, Color::Cyan, true) == "\x1b[36m"@ + text + "\x1b[0m"@,
        painted(text, Color::Yellow, true) == "\x1b[33m"@ + text + "\x1b[0m"@,
        painted(text, Color::Blue, true) == "\x1b[34m"@ + text + "\x1b[0m"@,
        painted(text, Color::Red, true) == "\x1b[31m"@ + text + "\x1b[0m"@,
        ansi_text(text, Color::Red) == painted(text, Color::Red, true),
        ansi_text(text, Color::Yellow) == painted(text, Color::Yellow, true),
        forall|color: Color| #[trigger] painted(text, color, false) == text,
{
    reveal_strlit("\x1b[");
    reveal_strlit("m");
    reveal_strlit("\x1b[31m");
    reveal_strlit("\x1b[32m");
    reveal_strlit("\x1b[33m");
    reveal_strlit("\x1b[34m");
    reveal_strlit("\x1b[36m");
    reveal_with_fuel(text::decimal_text, 3);
    assert("\x1b["@ + text::decimal_text(31) + "m"@ == "\x1b[31m"@);
    assert("\x1b["@ + text::decimal_text(32) + "m"@ == "\x1b[32m"@);
    assert("\x1b["@ + text::decimal_text(33) + "m"@ == "\x1b[33m"@);
    assert("\x1b["@ + text::decimal_text(34) + "m"@ == "\x1b[34m"@);
    assert("\x1b["@ + text::decimal_text(36) + "m"@ == "\x1b[36m"@);
}

/// A preference decides alone, but for the one that leaves it to the terminal.
pub proof fn law_color_preferences(terminal: bool)
    ensures
        ColorPreference::Always.enables(terminal),
        !ColorPreference::Never.enables(terminal),
        ColorPreference::Auto.enables(terminal) == terminal,
{
}

/// A timestamp of the years 0 to 9999 spells its instant: the numbers in their places are the
/// calendar date and time of day whose milliseconds since the epoch it was made from. A number
/// without an instant is shown as the epoch.
pub proof fn law_timestamps_spell_instants(millis: int)
    ensures
        time::instant_fits(millis) && 0 <= civil_at(millis).year <= 9999 ==> {
            let t = iso_text(millis);
            let year = time::digits_value(t.subrange(0, 4));
            let month = time::digits_value(t.subrange(5, 7));
            let day = time::digits_value(t.subrange(8, 10));
            let hour = time::digits_value(t.subrange(11, 13));
            let minute = time::digits_value(t.subrange(14, 16));
            let second = time::digits_value(t.subrange(17, 19));
            let below = time::digits_value(t.subrange(20, 23));
            &&& t.len() == 24
            &&& t[4] == '-' && t[7] == '-' && t[10] == 'T' && t[13] == ':' && t[16] == ':'
            &&& t[19] == '.' && t[23] == 'Z'
            &&& 1 <= month <= 12 && 1 <= day <= 31 && hour < 24 && minute < 60 && second < 60
            &&& calendar::epoch_seconds(year, month, day, hour, minute, second) * 1000 + below
                == millis
        },
        !time::instant_fits(millis) ==> iso_text(millis) == iso_text(0),
{
    reveal_with_fuel(text::ten_to, 5);
    if time::instant_fits(millis) {
        law_instants_have_dates(millis);
        let c = civil_at(millis);
        if 0 <= c.year <= 9999 {
            calendar::lemma_civil_text_parts(c);
            time::lemma_padded_value(c.year as nat, 4);
            time::lemma_padded_value(c.month as nat, 2);
            time::lemma_padded_value(c.day as nat, 2);
            time::lemma_padded_value(c.hour as nat, 2);
            time::lemma_padded_value(c.minute as nat, 2);
            time::lemma_padded_value(c.second as nat, 2);
            time::lemma_padded_value(c.millis as nat, 3);
        }
    } else {
        law_instants_have_dates(0);
        assert(epoch().seconds() == 0);
        assert(is_civil(epoch(), 0));
    }
}

/// The message is what the query makes of it, and depends on the configuration through the query
/// alone, whatever columns are printed. Without a query, and where it does not begin with a brace,
/// is no JSON or the search in it fails, the message stays as it is; where the query finds a value,
/// the text of that value takes its place.
pub proof fn law_messages_follow_the_query(
    a: AwsLogsConfig,
    b: AwsLogsConfig,
    event: client::EventParts,
)
    ensures
        a.query is None ==> message_of(a, event) == event.message,
        a.query matches Some(q) ==> {
            let m = event.message;
            match query::json_value(m) {
                Some(value) if m.len() > 0 && m[0] == '{' => match query::variable_of(value) {
                    Some(variable) => match query::found_by(q@, variable) {
                        Some(found) => message_of(a, event) == query::value_text(found).1,
                        None => message_of(a, event) == m,
                    },
                    None => message_of(a, event) == m,
                },
                _ => message_of(a, event) == m,
            }
        },
        text::opt_text(a.query) == text::opt_text(b.query) ==> message_of(a, event) == message_of(
            b,
            event,
        ),
{
}

/// A line has the columns that are switched on, in this order: group, stream, time, ingestion time.
/// The message stands behind them, and one space between any two. Each column shows what its name
/// says: the group that is read, and of the event its own stream and its own two times.
pub proof fn law_lines_have_their_columns(
    cfg: AwsLogsConfig,
    event: client::EventParts,
    group: Seq<char>,
    group_length: int,
    stream_length: int,
    color: bool,
)
    ensures
        ({
            let columns = event_columns(cfg, event, group, group_length, stream_length, color);
            let g = if cfg.output_group_enabled {
                1int
            } else {
                0
            };
            let s = if cfg.output_stream_enabled {
                g + 1
            } else {
                g
            };
            let t = if cfg.output_timestamp_enabled {
                s + 1
            } else {
                s
            };
            let n = if cfg.output_ingestion_time_enabled {
                t + 1
            } else {
                t
            };
            &&& columns.len() == n + 1
            &&& cfg.output_group_enabled ==> columns[0] == painted(
                left_justified(group, group_length),
                Color::Green,
                color,
            )
            &&& cfg.output_stream_enabled ==> columns[g] == painted(
                left_justified(event.log_stream_name, stream_length),
                Color::Cyan,
                color,
            )
            &&& cfg.output_timestamp_enabled ==> columns[s] == painted(
                iso_text(event.timestamp),
                Color::Yellow,
                color,
            )
            &&& cfg.output_ingestion_time_enabled ==> columns[t] == painted(
                iso_text(event.ingestion_time),
                Color::Blue,
                color,
            )
            &&& columns[n] == text::trimmed_end(message_of(cfg, event))
            &&& event_line(cfg, event, group, group_length, stream_length, color) == text::joined(
                columns,
                " "@,
            )
        }),
{
}

/// Where only the stream is printed, without color, a line is the stream's name, spaces up to the
/// width, one space, and the message: two events print the same only where name and message are
/// the same.
pub proof fn law_lines_name_their_stream(
    cfg: AwsLogsConfig,
    event: client::EventParts,
    group: Seq<char>,
    group_length: int,
    stream_length: int,
)
    requires
        cfg.output_stream_enabled,
        !cfg.output_group_enabled,
        !cfg.output_timestamp_enabled,
        !cfg.output_ingestion_time_enabled,
        cfg.query is None,
        event.log_stream_name.len() <= stream_length,
    ensures
        ({
            let line = event_line(cfg, event, group, group_length, stream_length, false);
            &&& line.len() >= stream_length + 1
            &&& line.take(event.log_stream_name.len() as int) == event.log_stream_name
            &&& forall|i: int|
                event.log_stream_name.len() <= i <= stream_length ==> #[trigger] line[i] == ' '
            &&& line.skip(stream_length + 1) == text::trimmed_end(event.message)
        }),
{
    reveal_strlit(" ");
    let columns = event_columns(cfg, event, group, group_length, stream_length, false);
    let name = left_justified(event.log_stream_name, stream_length);
    let message = text::trimmed_end(event.message);
    law_columns(event.log_stream_name, stream_length);
    assert(name.len() == stream_length);
    assert(columns == seq![name, message]);
    assert(columns.drop_last() == seq![name]);
    let line = event_line(cfg, event, group, group_length, stream_length, false);
    reveal_with_fuel(text::joined, 3);
    assert(line == name + " "@ + message);
    assert(line.take(event.log_stream_name.len() as int) == name.take(
        event.log_stream_name.len() as int,
    ));
    assert(line.skip(stream_length + 1) == message);
}

/// The two ends of a span and of a window decide: a stream whose span is known passes where the
/// later of the two starts is not behind the earlier of the two ends. A window that is open at its
/// start begins at the epoch, and one that is open at its end never ends.
pub proof fn law_windows(meta: StreamMeta, from: i64, to: i64)
    requires
        meta.first_event_timestamp is Some,
        meta.last_ingestion_time is Some,
    ensures
        ({
            let first = meta.first_event_timestamp->0 as int;
            let last = meta.last_ingestion_time->0 as int;
            &&& in_window(meta, Some(from), Some(to)) == (first <= last && first <= to && from
                <= last && from <= to)
            &&& in_window(meta, None, Some(to)) == (first <= last && first <= to && 0 <= last && 0
                <= to)
            &&& in_window(meta, Some(from), None) == (first <= last && from <= last)
            &&& in_window(meta, None, None) == (first <= last && 0 <= last)
        }),
        window_start(Some(from)) == from && window_start(None) == 0,
        window_end(Some(to)) == to && window_end(None) == i64::MAX,
{
}

/// The streams that a window lets through are listed in the order in which they came, each as
/// often as it came.
pub proof fn law_windows_keep_the_order(
    metas: Seq<StreamMeta>,
    start: Option<i64>,
    end: Option<i64>,
) -> (at: Seq<int>)
    ensures
        text::picks(at, metas.len() as int, |i: int| in_window(metas[i], start, end)),
        windowed(metas, start, end).len() == at.len(),
        forall|k: int|
            0 <= k < at.len() ==> #[trigger] windowed(metas, start, end)[k] == metas[at[k]].name@,
{
    let keep = |m: StreamMeta| in_window(m, start, end);
    let at = text::lemma_picks_filter(metas, keep);
    let again = |i: int| in_window(metas[i], start, end);
    let found = |i: int| keep(metas[i]);
    assert(text::picks(at, metas.len() as int, found));
    assert forall|i: int| #[trigger] again(i) implies found(i) by {}
    assert(text::picks(at, metas.len() as int, again)) by {
        assert forall|i: int| 0 <= i < metas.len() && #[trigger] again(i) implies at.contains(i) by {
            assert(found(i));
        }
        assert forall|k: int| 0 <= k < at.len() implies 0 <= #[trigger] at[k] < metas.len() && again(
            at[k],
        ) by {
            assert(found(at[k]));
        }
    }
    assert forall|k: int| 0 <= k < at.len() implies #[trigger] windowed(metas, start, end)[k]
        == metas[at[k]].name@ by {
        assert(metas.filter(keep)[k] == metas[at[k]]);
    }
    at
}

/// A pattern keeps exactly the names at whose start it matches, in their order.
pub proof fn law_patterns_keep_the_order(names: Seq<Seq<char>>, regex: Seq<char>) -> (at: Seq<int>)
    ensures
        text::picks(
            at,
            names.len() as int,
            |i: int| pattern::regex_found(regex, names[i]) == Some(0int),
        ),
        matching(names, regex).len() == at.len(),
        forall|k: int| 0 <= k < at.len() ==> #[trigger] matching(names, regex)[k] == names[at[k]],
{
    let keep = |name: Seq<char>| matches_at_start(regex, name);
    let at = text::lemma_picks_filter(names, keep);
    let found = |i: int| keep(names[i]);
    let again = |i: int| pattern::regex_found(regex, names[i]) == Some(0int);
    assert(text::picks(at, names.len() as int, found));
    assert(text::picks(at, names.len() as int, again)) by {
        assert forall|i: int| 0 <= i < names.len() && #[trigger] again(i) implies at.contains(i) by {
            assert(found(i));
        }
        assert forall|k: int| 0 <= k < at.len() implies 0 <= #[trigger] at[k] < names.len() && again(
            at[k],
        ) by {
            assert(found(at[k]));
        }
    }
    at
}

/// The wildcard matches anything, and any other pattern stands behind an anchor.
pub proof fn law_patterns_are_anchored(pat: Seq<char>)
    ensures
        pat == "ALL"@ ==> stream_regex(pat) == ".*"@,
        pat != "ALL"@ ==> stream_regex(pat) == "^"@ + pat,
{
}

/// A name is selected by plain text exactly where it begins with that text, character by
/// character, by alternatives where it begins with one of them, and by the wildcard always.
pub proof fn law_plain_patterns_are_prefixes(
    pat: Seq<char>,
    names: Seq<Seq<char>>,
    selected: Seq<Seq<char>>,
    name: Seq<char>,
)
    requires
        selects(pat, names, selected),
    ensures
        pat == "ALL"@ ==> selected == names,
        pat != "ALL"@ && pattern::plain(pat) ==> (selected.contains(name) <==> names.contains(name)
            && pat.len() <= name.len() && forall|k: int|
            0 <= k < pat.len() ==> name[k] == #[trigger] pat[k]),
        forall|a: Seq<char>, b: Seq<char>|
            #![trigger a + "|"@ + b]
            pattern::plain(a) && pattern::plain(b) && pat == a + "|"@ + b ==> (selected.contains(name)
                <==> names.contains(name) && (text::occurs_at(name, a, 0) || text::occurs_at(
                name,
                b,
                0,
            ))),
{
    if pat != "ALL"@ && pattern::plain(pat) {
        let begins = |n: Seq<char>| text::occurs_at(n, pat, 0);
        lemma_filter_membership(names, begins, name);
        text::law_texts_are_found(Seq::empty(), pat, Seq::empty(), name, 0);
    }
    assert forall|a: Seq<char>, b: Seq<char>|
        #![trigger a + "|"@ + b]
        pattern::plain(a) && pattern::plain(b) && pat == a + "|"@ + b implies (selected.contains(name)
        <==> names.contains(name) && (text::occurs_at(name, a, 0) || text::occurs_at(
        name,
        b,
        0,
    ))) by {
        reveal_strlit("ALL");
        reveal_strlit("|");
        assert(pat[a.len() as int] == '|');
        assert(a.len() < pat.len());
        if pat == "ALL"@ {
            let at = a.len() as int;
            assert(at == 0 || at == 1 || at == 2);
            assert("ALL"@[at] == 'A' || "ALL"@[at] == 'L');
        }
        let both = seq![a, b];
        assert(both.drop_last() == seq![a]);
        reveal_with_fuel(text::joined, 3);
        assert(text::joined(both, "|"@) == pat);
        assert(pattern::plain_texts(both));
        let begins = |n: Seq<char>| pattern::begins_with_any(n, both);
        lemma_filter_membership(names, begins, name);
        if text::occurs_at(name, a, 0) {
            assert(text::occurs_at(name, both[0], 0));
        }
        if text::occurs_at(name, b, 0) {
            assert(text::occurs_at(name, both[1], 0));
        }
    }
}

proof fn lemma_filter_membership(
    names: Seq<Seq<char>>,
    keep: spec_fn(Seq<char>) -> bool,
    name: Seq<char>,
)
    ensures
        names.filter(keep).contains(name) <==> names.contains(name) && keep(name),
{
    if names.filter(keep).contains(name) {
        let j = choose|j: int| 0 <= j < names.filter(keep).len() && names.filter(keep)[j] == name;
        names.lemma_filter_contains_rev(keep, name);
        names.lemma_filter_pred(keep, j);
    }
    if names.contains(name) && keep(name) {
        let i = choose|i: int| 0 <= i < names.len() && names[i] == name;
        names.lemma_filter_contains(keep, i);
    }
}

/// Up to a hundred streams are read by name, all that matched and in their order. More are refused
/// with the pattern, their number and the limit, and none with the pattern.
pub proof fn law_streams_that_match_are_read(
    pat: Seq<char>,
    matched: Seq<Seq<char>>,
    res: Result<Vec<String>, AwsLogsError>,
)
    requires
        chosen(pat, matched, res),
    ensures
        1 <= matched.len() <= 100 ==> (res matches Ok(names) && names@.len() == matched.len()
            && forall|i: int| 0 <= i < matched.len() ==> (#[trigger] names@[i])@ == matched[i]),
        matched.len() > 100 ==> (res matches Err(
            AwsLogsError::TooManyStreamsFiltered { pattern, count, limit },
        ) && pattern@ == pat && count == matched.len() && limit == 100),
        matched.len() == 0 ==> (res matches Err(AwsLogsError::NoStreamsFiltered(pattern))
            && pattern@ == pat),
{
    if let Ok(names) = res {
        assert forall|i: int| 0 <= i < matched.len() implies (#[trigger] names@[i])@ == matched[i] by {
            assert(text::texts(names@)[i] == names@[i]@);
        }
        assert(text::texts(names@).len() == names@.len());
    }
}

/// Which streams are read: those named outright, else all where the pattern is the wildcard or
/// missing, else those that match.
pub proof fn law_plans(cfg: AwsLogsConfig, res: Result<LogsPlan, AwsLogsError>)
    requires
        planned(cfg, res),
    ensures
        cfg.log_group_name is None ==> (res matches Err(AwsLogsError::Aws(chain)) && chain@.len()
            == 1 && chain@[0]@ == "log_group_name required"@),
        cfg.log_group_name is Some && cfg.explicit_streams is Some ==> (res matches Ok(
            LogsPlan::Streams(streams),
        ) && streams@ == cfg.explicit_streams->0@),
        cfg.log_group_name is Some && cfg.explicit_streams is None && (cfg.log_stream_name is None
            || cfg.log_stream_name->0@ == "ALL"@) ==> (res matches Ok(LogsPlan::Streams(streams))
            && streams@.len() == 0),
        cfg.log_group_name is Some && cfg.explicit_streams is None && cfg.log_stream_name is Some
            && cfg.log_stream_name->0@ != "ALL"@ ==> match res {
            Ok(LogsPlan::Match(p)) => p.text() == cfg.log_stream_name->0@ && pattern::regex_error(
                "^"@ + cfg.log_stream_name->0@,
            ) is None,
            Ok(LogsPlan::Streams(_)) => false,
            Err(e) => e matches AwsLogsError::Aws(chain) && chain@.len() == 1 && pattern::regex_error(
                "^"@ + cfg.log_stream_name->0@,
            ) is Some && chain@[0]@ == "invalid pattern: "@ + pattern::regex_error(
                "^"@ + cfg.log_stream_name->0@,
            )->0,
        },
{
}

/// A column is as wide as the longest of its names in bytes: no name is longer, and one is as
/// long. Without names it is ten wide.
pub proof fn law_columns_are_as_wide_as_the_names(names: Seq<Seq<char>>)
    ensures
        names.len() == 0 ==> column_width(names) == 10,
        forall|i: int|
            0 <= i < names.len() ==> text::byte_count(#[trigger] names[i]) <= column_width(names),
        names.len() > 0 ==> exists|i: int|
            0 <= i < names.len() && text::byte_count(#[trigger] names[i]) == column_width(names),
{
    if names.len() > 0 {
        lemma_widest(names);
    }
}

proof fn lemma_widest(names: Seq<Seq<char>>)
    requires
        names.len() > 0,
    ensures
        forall|i: int|
            0 <= i < names.len() ==> text::byte_count(#[trigger] names[i]) <= widest(names),
        exists|i: int|
            0 <= i < names.len() && text::byte_count(#[trigger] names[i]) == widest(names),
    decreases names.len(),
{
    let front = names.drop_last();
    let last = names.len() - 1;
    if front.len() > 0 {
        lemma_widest(front);
        assert forall|i: int| 0 <= i < names.len() implies text::byte_count(#[trigger] names[i])
            <= widest(names) by {
            if i < last {
                assert(text::byte_count(front[i]) <= widest(front));
            }
        }
        let j = choose|j: int|
            0 <= j < front.len() && text::byte_count(#[trigger] front[j]) == widest(front);
        assert(names[j] == front[j]);
        if widest(front) < text::byte_count(names[last]) {
            assert(text::byte_count(names[last]) == widest(names));
        } else {
            assert(text::byte_count(names[j]) == widest(names));
        }
    } else {
        assert(widest(front) == 0);
        assert(text::byte_count(names[last]) == widest(names));
    }
}

/// What one event does: an id that is remembered prints nothing and changes nothing. Any other is
/// printed and remembered as the newest, and the oldest of ten thousand is forgotten for it.
pub proof fn law_one_event(seen: Seq<Seq<char>>, event: client::EventParts)
    requires
        seen.len() <= 10_000,
    ensures
        seen.contains(event.event_id) ==> fresh(seen, seq![event]).len() == 0 && remembered(
            seen,
            seq![event],
        ) == seen,
        !seen.contains(event.event_id) ==> {
            let after = remembered(seen, seq![event]);
            &&& fresh(seen, seq![event]) == seq![event]
            &&& after.last() == event.event_id
            &&& seen.len() < 10_000 ==> after == seen.push(event.event_id)
            &&& seen.len() == 10_000 ==> after.len() == 10_000 && forall|i: int|
                0 <= i < 9_999 ==> #[trigger] after[i] == seen[i + 1]
        },
        fresh(seen, Seq::empty()).len() == 0,
        remembered(seen, Seq::empty()) == seen,
{
    let one = seq![event];
    assert(one.drop_last() == Seq::<client::EventParts>::empty());
    assert(one.last() == event);
    reveal_with_fuel(remembered, 2);
    reveal_with_fuel(fresh, 2);
    if !seen.contains(event.event_id) {
        assert(fresh(seen, one) == seq![event]);
    }
}

/// As long as nothing had to be forgotten, exactly the events are printed whose id was not
/// remembered and did not come before on the page, in the order in which they came.
pub proof fn law_each_event_is_printed_once(
    seen: Seq<Seq<char>>,
    events: Seq<client::EventParts>,
) -> (at: Seq<int>)
    requires
        seen.len() + events.len() <= 10_000,
    ensures
        text::picks(
            at,
            events.len() as int,
            |i: int|
                !seen.contains(events[i].event_id) && forall|j: int|
                    0 <= j < i ==> (#[trigger] events[j]).event_id != events[i].event_id,
        ),
        fresh(seen, events).len() == at.len(),
        forall|k: int| 0 <= k < at.len() ==> #[trigger] fresh(seen, events)[k] == events[at[k]],
{
    let at = lemma_printed_to(seen, events, events.len() as int);
    assert(events.take(events.len() as int) == events);
    at
}

proof fn lemma_printed_to(
    seen: Seq<Seq<char>>,
    events: Seq<client::EventParts>,
    n: int,
) -> (at: Seq<int>)
    requires
        0 <= n <= events.len(),
        seen.len() + events.len() <= MAX_EVENTS_PER_CALL,
    ensures
        text::picks(
            at,
            n,
            |i: int|
                !seen.contains(events[i].event_id) && forall|j: int|
                    0 <= j < i ==> (#[trigger] events[j]).event_id != events[i].event_id,
        ),
        fresh(seen, events.take(n)).len() == at.len(),
        forall|k: int|
            0 <= k < at.len() ==> #[trigger] fresh(seen, events.take(n))[k] == events[at[k]],
    decreases n,
{
    if n == 0 {
        assert(events.take(0).len() == 0);
        Seq::empty()
    } else {
        let before = lemma_printed_to(seen, events, n - 1);
        let keep = |i: int|
            !seen.contains(events[i].event_id) && forall|j: int|
                0 <= j < i ==> (#[trigger] events[j]).event_id != events[i].event_id;
        text::lemma_picks_next(before, n - 1, keep);
        let front = events.take(n - 1);
        assert(events.take(n).drop_last() == front);
        assert(events.take(n).last() == events[n - 1]);
        lemma_all_remembered(seen, front);
        lemma_only_known_ids(seen, front);
        let known = remembered(seen, front).contains(events[n - 1].event_id);
        assert(known == !keep(n - 1)) by {
            if known {
                if !seen.contains(events[n - 1].event_id) {
                    let j = choose|j: int|
                        0 <= j < front.len() && (#[trigger] front[j]).event_id
                            == events[n - 1].event_id;
                    assert(events[j] == front[j]);
                }
            } else {
                assert forall|j: int| 0 <= j < n - 1 implies (#[trigger] events[j]).event_id
                    != events[n - 1].event_id by {
                    assert(front[j] == events[j]);
                    assert(remembered(seen, front).contains(front[j].event_id));
                }
            }
        }
        if keep(n - 1) {
            before.push(n - 1)
        } else {
            before
        }
    }
}

/// A page prints one line for each event that is printed, in their order: the event's own line,
/// under the group that is read.
pub proof fn law_pages_print_lines(
    cfg: AwsLogsConfig,
    run: RunState,
    events: Seq<client::EventParts>,
    k: int,
)
    ensures
        page_lines(cfg, run, events).len() == fresh(run.seen, events).len(),
        0 <= k < fresh(run.seen, events).len() ==> page_lines(cfg, run, events)[k] == event_line(
            cfg,
            fresh(run.seen, events)[k],
            run.group,
            vstd::utf8::encode_utf8(run.group).len() as int,
            column_width(run.streams),
            run.color,
        ),
{
}

/// A request asks for the group and the streams that are read, in the configured window and with
/// the configured filter.
pub proof fn law_requests(cfg: AwsLogsConfig, run: RunState, params: FilterParams)
    requires
        is_request(cfg, run, params),
    ensures
        params.log_group_name@ == run.group,
        params.log_stream_names@.len() == run.streams.len(),
        forall|i: int|
            0 <= i < run.streams.len() ==> (#[trigger] params.log_stream_names@[i])@
                == run.streams[i],
        params.start_time == cfg.start,
        params.end_time == cfg.end,
        cfg.filter_pattern is None ==> params.filter_pattern is None,
        cfg.filter_pattern matches Some(f) ==> (params.filter_pattern matches Some(g) && g@ == f@),
        params.interleaved,
{
    assert(text::texts(params.log_stream_names@).len() == params.log_stream_names@.len());
    assert forall|i: int| 0 <= i < run.streams.len() implies (
    #[trigger] params.log_stream_names@[i])@ == run.streams[i] by {
        assert(text::texts(params.log_stream_names@)[i] == params.log_stream_names@[i]@);
    }
}

/// The default selects nothing, prints group and stream without times, does not watch, and would
/// look every second.
pub proof fn law_defaults(cfg: AwsLogsConfig)
    requires
        cfg.is_default(),
    ensures
        cfg.log_group_name is None && cfg.log_stream_name is None && cfg.log_group_prefix is None,
        cfg.filter_pattern is None && cfg.explicit_streams is None && cfg.query is None,
        cfg.start is None && cfg.end is None && !cfg.watch,
        duration_parts(cfg.watch_interval) == (1u64, 0u32),
        cfg.color == ColorPreference::Auto,
        cfg.output_group_enabled && cfg.output_stream_enabled,
        !cfg.output_timestamp_enabled && !cfg.output_ingestion_time_enabled,
{
}

/// A failure with one message says that message and no other.
pub proof fn law_single_failures(e: AwsLogsError, message: Seq<char>)
    ensures
        says(e, message) <==> (e matches AwsLogsError::Aws(chain) && chain@.len() == 1
            && chain@[0]@ == message),
{
}

/// Plain text of up to a thousand characters compiles as a pattern, and so do plain texts with `|`
/// between them.
pub proof fn law_short_patterns_compile(pat: Seq<char>, alternatives: Seq<Seq<char>>)
    ensures
        pattern::plain(pat) && pat.len() <= 1000 ==> compiles(pat),
        pattern::plain_texts(alternatives) && text::joined(alternatives, "|"@).len() <= 1000
            ==> compiles(text::joined(alternatives, "|"@)),
{
    if pattern::plain_texts(alternatives) && text::joined(alternatives, "|"@).len() <= 1000 {
        assert(pattern::short_alternatives(text::joined(alternatives, "|"@), alternatives));
    }
}

/// A page can be printed unless a query whose slices do not fit meets a message that begins like an
/// object.
pub proof fn law_searchable_pages(cfg: AwsLogsConfig, events: Seq<LogEvent>, i: int)
    ensures
        cfg.query is None ==> searchable(cfg, events),
        cfg.query is Some && query::slices_fit(cfg.query->0@) ==> searchable(cfg, events),
        (forall|k: int|
            0 <= k < events.len() ==> (#[trigger] events[k]).message@.len() == 0
                || events[k].message@[0] != '{') ==> searchable(cfg, events),
        cfg.query is Some && !query::slices_fit(cfg.query->0@) && 0 <= i < events.len()
            && events[i].message@.len() > 0 && events[i].message@[0] == '{' ==> !searchable(
            cfg,
            events,
        ),
{
}

/// A request names up to a hundred streams, and all streams go by one name.
pub proof fn law_limits()
    ensures
        FILTER_LOG_EVENTS_STREAMS_LIMIT == 100,
        MAX_EVENTS_PER_CALL == 10_000,
        ALL_WILDCARD@ == "ALL"@,
{
}

} // verus!
