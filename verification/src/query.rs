//! JMESPath queries over messages that are JSON objects.

use vstd::prelude::*;

use crate::exceptions;
use crate::exceptions::AwsLogsError;
use crate::text;

verus! {

/// A compiled expression of the `jmespath` crate.
#[verifier::external_type_specification]
#[verifier::external_body]
pub struct ExExpression<'a>(jmespath::Expression<'a>);

/// What `jmespath::compile` says against a query: the text of its error, or `None` where the
/// query compiles.
pub uninterp spec fn query_error(query: Seq<char>) -> Option<Seq<char>>;

/// The query that a compiled expression holds.
pub uninterp spec fn query_source(expr: jmespath::Expression<'static>) -> Seq<char>;

/// A JSON value of the `serde_json` crate.
#[verifier::external_type_specification]
#[verifier::external_body]
pub struct ExValue(serde_json::Value);

/// A value that the `jmespath` crate searches in, or finds.
#[verifier::external_type_specification]
#[verifier::external_body]
pub struct ExVariable(jmespath::Variable);

/// The JSON value that `serde_json::from_str` reads from a text, where the text is JSON.
pub uninterp spec fn json_value(text: Seq<char>) -> Option<serde_json::Value>;

/// The value to search in that `jmespath::Variable::from_serializable` makes of a JSON value.
pub uninterp spec fn variable_of(value: serde_json::Value) -> Option<jmespath::Variable>;

/// The value that `jmespath::Expression::search` finds by a query, where the search succeeds.
pub uninterp spec fn found_by(query: Seq<char>, value: jmespath::Variable) -> Option<
    jmespath::Variable,
>;

/// Whether a value is a string, and the string itself or else the value as `jmespath::Variable`
/// writes it.
pub uninterp spec fn value_text(value: jmespath::Variable) -> (bool, Seq<char>);

/// What a query finds in a text: nothing where the text is no JSON or the search fails.
pub open spec fn query_result(query: Seq<char>, json: Seq<char>) -> Option<(bool, Seq<char>)> {
    match json_value(json) {
        Some(value) => match variable_of(value) {
            Some(variable) => match found_by(query, variable) {
                Some(found) => Some(value_text(found)),
                None => None,
            },
            None => None,
        },
        None => None,
    }
}

/// A value that a query found.
#[derive(Debug)]
pub enum Found {
    /// A string.
    Text(String),
    /// Any other value, as JSON.
    Json(String),
}

impl Found {
    /// Whether the value is a string, and its text.
    pub open spec fn parts(self) -> (bool, Seq<char>) {
        match self {
            Found::Text(s) => (true, s@),
            Found::Json(s) => (false, s@),
        }
    }
}

// ── slices ──────────────────────────────────────────────────────────────────
/// More elements than an array in memory has.
pub const ARRAY_LIMIT: u64 = 1_000_000_000;

/// The largest number that a query may hold.
pub const LARGEST: u64 = 2_147_483_647;

/// Where in a slice `[start:stop:step]` a position is.
#[derive(Debug, Clone, Copy, PartialEq, Eq, Structural)]
pub enum Place {
    /// In none.
    Outside,
    Start,
    Stop,
    Step,
}

/// What is known of a query up to a position.
#[derive(Debug, Clone, Copy, PartialEq, Eq, Structural)]
pub struct Scan {
    /// The delimiter of the quoted text around the position.
    pub quote: Option<char>,
    /// The next character of the quoted text is escaped.
    pub escaped: bool,
    pub place: Place,
    /// The number at the position has a minus sign.
    pub minus: bool,
    /// The start of the slice.
    pub start: u64,
    /// The step of the slice.
    pub step: u64,
    /// Every slice that ended before the position stays inside 32 bits.
    pub fits: bool,
}

/// Nothing has been read.
pub open spec fn scan_start() -> Scan {
    Scan {
        quote: None,
        escaped: false,
        place: Place::Outside,
        minus: false,
        start: 0,
        step: 0,
        fits: true,
    }
}

/// A number with one more digit; no digits are added once it is larger than a query may hold.
pub open spec fn with_digit(n: u64, c: char) -> u64 {
    if n > LARGEST {
        n
    } else {
        (n * 10 + text::digit_value(c)) as u64
    }
}

/// Stepping from an index stays inside 32 bits: backwards always, by small steps from any index,
/// and by large ones from the first index, as the next lies behind every array.
pub open spec fn step_fits(minus: bool, start: u64, step: u64) -> bool {
    minus || step < ARRAY_LIMIT || step > LARGEST || start + step <= LARGEST
}

/// What is known after one more character.
pub open spec fn scanned_char(scan: Scan, c: char) -> Scan {
    match scan.quote {
        Some(q) => if scan.escaped {
            Scan { escaped: false, ..scan }
        } else if c == q {
            Scan { quote: None, ..scan }
        } else {
            Scan { escaped: c == '\\', ..scan }
        },
        None => if c == '"' || c == '\'' || c == '`' {
            Scan { quote: Some(c), place: Place::Outside, ..scan }
        } else if c == '[' {
            Scan { place: Place::Start, minus: false, start: 0, ..scan }
        } else if scan.place == Place::Outside || text::is_space(c) {
            scan
        } else if text::is_ascii_digit(c) {
            match scan.place {
                Place::Start => Scan { start: with_digit(scan.start, c), ..scan },
                Place::Step => Scan { step: with_digit(scan.step, c), ..scan },
                _ => scan,
            }
        } else if c == '-' {
            Scan { minus: true, ..scan }
        } else if c == ':' && scan.place == Place::Start {
            // From a negative start, the first index can be any.
            Scan {
                place: Place::Stop,
                start: if scan.minus {
                    ARRAY_LIMIT
                } else {
                    scan.start
                },
                ..scan
            }
        } else if c == ':' && scan.place == Place::Stop {
            Scan { place: Place::Step, minus: false, step: 0, ..scan }
        } else {
            Scan {
                place: Place::Outside,
                fits: scan.fits && (scan.place == Place::Step ==> step_fits(
                    scan.minus,
                    scan.start,
                    scan.step,
                )),
                ..scan
            }
        },
    }
}

/// What is known of a query.
pub open spec fn scanned(query: Seq<char>) -> Scan
    decreases query.len(),
{
    if query.len() == 0 {
        scan_start()
    } else {
        scanned_char(scanned(query.drop_last()), query.last())
    }
}

/// Every slice of the query stays inside the crate's 32-bit arithmetic: only the sum of an
/// index and a step could leave it, where the step has ten digits and the slice does not begin
/// far enough in front.
pub open spec fn slices_fit(query: Seq<char>) -> bool {
    scanned(query).fits
}

fn add_digit(n: u64, c: char) -> (res: u64)
    requires
        text::is_ascii_digit(c),
    ensures
        res == with_digit(n, c),
{
    if n > LARGEST {
        n
    } else {
        n * 10 + (c as u64 - 48)
    }
}

fn scan_char(scan: Scan, c: char) -> (res: Scan)
    ensures
        res == scanned_char(scan, c),
{
    if let Some(q) = scan.quote {
        return if scan.escaped {
            Scan { escaped: false, ..scan }
        } else if c == q {
            Scan { quote: None, ..scan }
        } else {
            Scan { escaped: c == '\\', ..scan }
        };
    }
    if c == '"' || c == '\'' || c == '`' {
        return Scan { quote: Some(c), place: Place::Outside, ..scan };
    }
    if c == '[' {
        return Scan { place: Place::Start, minus: false, start: 0, ..scan };
    }
    if scan.place == Place::Outside || text::is_whitespace(c) {
        return scan;
    }
    if '0' <= c && c <= '9' {
        return match scan.place {
            Place::Start => Scan { start: add_digit(scan.start, c), ..scan },
            Place::Step => Scan { step: add_digit(scan.step, c), ..scan },
            _ => scan,
        };
    }
    if c == '-' {
        return Scan { minus: true, ..scan };
    }
    if c == ':' && scan.place == Place::Start {
        let start = if scan.minus {
            ARRAY_LIMIT
        } else {
            scan.start
        };
        return Scan { place: Place::Stop, start, ..scan };
    }
    if c == ':' && scan.place == Place::Stop {
        return Scan { place: Place::Step, minus: false, step: 0, ..scan };
    }
    let step_fits = scan.minus || scan.step < ARRAY_LIMIT || scan.step > LARGEST || (scan.start
        <= LARGEST && scan.start + scan.step <= LARGEST);
    Scan {
        place: Place::Outside,
        fits: scan.fits && (scan.place != Place::Step || step_fits),
        ..scan
    }
}

/// Whether every slice of the query stays inside the crate's 32-bit arithmetic.
pub fn has_fitting_slices(query: &str) -> (res: bool)
    ensures
        res == slices_fit(query@),
{
    let chars = text::chars_of(query);
    let mut scan = Scan {
        quote: None,
        escaped: false,
        place: Place::Outside,
        minus: false,
        start: 0,
        step: 0,
        fits: true,
    };
    let mut i: usize = 0;
    while i < chars.len()
        invariant
            i <= chars@.len(),
            chars@ == query@,
            scan == scanned(query@.take(i as int)),
        decreases chars.len() - i,
    {
        assert(query@.take(i + 1).drop_last() == query@.take(i as int));
        scan = scan_char(scan, chars[i]);
        i += 1;
    }
    assert(query@.take(i as int) == query@);
    scan.fits
}

/// A message that the query can be applied to: one that is left alone, or any where the slices
/// of the query fit.
pub open spec fn queryable(query: Option<Seq<char>>, message: Seq<char>) -> bool {
    query matches Some(q) && begins_object(message) ==> slices_fit(query->0)
}

/// The message begins like a JSON object.
pub open spec fn begins_object(message: Seq<char>) -> bool {
    message.len() > 0 && message[0] == '{'
}

// ── the crate's calls ───────────────────────────────────────────────────────
/// Calls `jmespath::compile`. A query either compiles, and the expression holds that query,
/// or is refused with the text of the crate's error.
#[verifier::external_body]
pub(crate) fn compile(query: &str) -> (res: Result<jmespath::Expression<'static>, String>)
    ensures
        match res {
            Ok(expr) => query_error(query@) is None && query_source(expr) == query@,
            Err(message) => query_error(query@) == Some(message@),
        },
{
    jmespath::compile(query).map_err(|e| e.to_string())
}

/// Compiles a query, where there is one.
pub(crate) fn compile_opt(query: &Option<String>) -> (res: Result<
    Option<jmespath::Expression<'static>>,
    AwsLogsError,
>)
    ensures
        match *query {
            None => res matches Ok(None),
            Some(q) => match query_error(q@) {
                None => res matches Ok(Some(expr)) && query_source(expr) == q@,
                Some(m) => res matches Err(AwsLogsError::Aws(chain)) && chain@.len() == 1
                    && chain@[0]@ == "invalid JMESPath: "@ + m,
            },
        },
{
    let source = match query {
        Some(q) => q,
        None => return Ok(None),
    };
    match compile(source.as_str()) {
        Ok(expr) => Ok(Some(expr)),
        Err(e) => {
            let mut message = String::new();
            message.append("invalid JMESPath: ");
            message.append(e.as_str());
            assert(message@ == "invalid JMESPath: "@ + e@);
            Err(exceptions::aws_error(message.as_str()))
        },
    }
}

/// Calls `serde_json::from_str`. Whether a text is JSON, and the value that it spells, is a
/// function of the text.
#[verifier::external_body]
fn read_json(json: &str) -> (res: Option<serde_json::Value>)
    ensures
        res == json_value(json@),
{
    serde_json::from_str::<serde_json::Value>(json).ok()
}

/// Calls `jmespath::Variable::from_serializable` on a JSON value. Whether it takes the value, and
/// what it makes of it, is a function of the value.
#[verifier::external_body]
fn to_variable(value: &serde_json::Value) -> (res: Option<jmespath::Variable>)
    ensures
        res == variable_of(*value),
{
    jmespath::Variable::from_serializable(value).ok()
}

/// Calls `jmespath::Expression::search`. Whether the search succeeds, and what it finds, is a
/// function of the query that `expr` holds and of the value. The crate adds the step of a slice to
/// an index in 32 bits, so slices for which that could overflow are left out; arrays are taken to
/// have fewer than a billion elements.
#[verifier::external_body]
fn search(expr: &jmespath::Expression<'static>, value: jmespath::Variable) -> (res: Option<
    jmespath::Rcvar,
>)
    requires
        slices_fit(query_source(*expr)),
    ensures
        match res {
            Some(found) => found_by(query_source(*expr), value) == Some(*found),
            None => found_by(query_source(*expr), value) is None,
        },
{
    expr.search(value).ok()
}

/// Takes the string of a `jmespath::Variable` that is one, and calls its `to_string` otherwise.
/// The text is a function of the value.
#[verifier::external_body]
fn show(found: &jmespath::Variable) -> (res: Found)
    ensures
        res.parts() == value_text(*found),
{
    match found {
        jmespath::Variable::String(s) => Found::Text(s.clone()),
        other => Found::Json(other.to_string()),
    }
}

/// What a query finds in a text.
fn find_in(expr: &jmespath::Expression<'static>, json: &str) -> (res: Option<Found>)
    requires
        slices_fit(query_source(*expr)),
    ensures
        match res {
            Some(found) => query_result(query_source(*expr), json@) == Some(found.parts()),
            None => query_result(query_source(*expr), json@) is None,
        },
{
    let value = match read_json(json) {
        Some(value) => value,
        None => return None,
    };
    let variable = match to_variable(&value) {
        Some(variable) => variable,
        None => return None,
    };
    match search(expr, variable) {
        Some(found) => Some(show(&found)),
        None => None,
    }
}

/// The message after a query: where it is a JSON object and the search succeeds, the text of
/// what was found, else the message itself.
pub open spec fn queried(query: Seq<char>, message: Seq<char>) -> Seq<char> {
    reshaped(message, query_result(query, message))
}

/// The message, given what a search in it found: text that does not begin with `{` is left
/// alone, and so is a message in which the search failed.
pub open spec fn reshaped(message: Seq<char>, found: Option<(bool, Seq<char>)>) -> Seq<char> {
    match found {
        Some((_, text)) if begins_object(message) => text,
        _ => message,
    }
}

/// The message, given what a search in it found.
pub fn reshape(message: String, found: Option<Found>) -> (res: String)
    ensures
        res@ == reshaped(
            message@,
            match found {
                Some(f) => Some(f.parts()),
                None => None,
            },
        ),
{
    if !text::starts_with(message.as_str(), '{') {
        return message;
    }
    match found {
        Some(Found::Text(s)) => s,
        Some(Found::Json(s)) => s,
        None => message,
    }
}

/// The message after a query.
pub(crate) fn apply(expr: &jmespath::Expression<'static>, message: String) -> (res: String)
    requires
        queryable(Some(query_source(*expr)), message@),
    ensures
        res@ == queried(query_source(*expr), message@),
{
    if !text::starts_with(message.as_str(), '{') {
        return message;
    }
    let found = find_in(expr, message.as_str());
    reshape(message, found)
}

// ── laws ────────────────────────────────────────────────────────────────────
/// What a query makes of a message: the text of the value that it finds, where the message begins
/// with a brace, is JSON, and the search succeeds; the message itself anywhere else.
pub proof fn law_queries(query: Seq<char>, message: Seq<char>)
    ensures
        message.len() == 0 || message[0] != '{' ==> queried(query, message) == message,
        json_value(message) is None ==> queried(query, message) == message,
        json_value(message) matches Some(value) && message.len() > 0 && message[0] == '{'
            ==> match variable_of(json_value(message)->0) {
            Some(variable) => match found_by(query, variable) {
                Some(found) => queried(query, message) == value_text(found).1,
                None => queried(query, message) == message,
            },
            None => queried(query, message) == message,
        },
        query_result(query, message) is Some <==> json_value(message) is Some && variable_of(
            json_value(message)->0,
        ) is Some && found_by(query, variable_of(json_value(message)->0)->0) is Some,
{
}

/// What was found takes the place of a message that begins with a brace, be it a string or not, and
/// of no other.
pub proof fn law_reshaping(message: Seq<char>, text: Seq<char>, is_text: bool)
    ensures
        reshaped(message, None) == message,
        message.len() > 0 && message[0] == '{' ==> reshaped(message, Some((is_text, text))) == text,
        message.len() == 0 || message[0] != '{' ==> reshaped(message, Some((is_text, text)))
            == message,
        forall|s: String| #[trigger] Found::Text(s).parts() == (true, s@),
        forall|s: String| #[trigger] Found::Json(s).parts() == (false, s@),
{
}

/// A query without a bracket has no slices, so they all fit.
pub proof fn law_queries_without_slices_fit(query: Seq<char>)
    requires
        forall|i: int| 0 <= i < query.len() ==> query[i] != '[',
    ensures
        slices_fit(query),
    decreases query.len(),
{
    lemma_outside(query);
}

proof fn lemma_outside(query: Seq<char>)
    requires
        forall|i: int| 0 <= i < query.len() ==> query[i] != '[',
    ensures
        scanned(query).fits,
        scanned(query).place == Place::Outside,
    decreases query.len(),
{
    if query.len() > 0 {
        lemma_outside(query.drop_last());
        assert(query.last() == query[query.len() - 1]);
    }
}

proof fn lemma_next(query: Seq<char>, c: char)
    ensures
        scanned(query.push(c)) == scanned_char(scanned(query), c),
{
    assert(query.push(c).drop_last() == query);
}

/// Digits at the start or at the step of a slice are read as the number they spell.
proof fn lemma_number(query: Seq<char>, digits: Seq<char>)
    requires
        crate::time::ascii_digits(digits),
        scanned(query).quote is None,
        scanned(query).place == Place::Start ==> scanned(query).start == 0,
        scanned(query).place == Place::Step ==> scanned(query).step == 0,
        scanned(query).place != Place::Outside,
    ensures
        ({
            let s = scanned(query);
            let t = scanned(query + digits);
            let n = crate::time::digits_value(digits);
            &&& n >= 0
            &&& t == Scan { start: t.start, step: t.step, ..s }
            &&& s.place != Place::Start ==> t.start == s.start
            &&& s.place != Place::Step ==> t.step == s.step
            &&& s.place == Place::Start ==> (n <= LARGEST ==> t.start == n) && (n > LARGEST
                ==> t.start > LARGEST)
            &&& s.place == Place::Step ==> (n <= LARGEST ==> t.step == n) && (n > LARGEST
                ==> t.step > LARGEST)
        }),
    decreases digits.len(),
{
    if digits.len() == 0 {
        assert(query + digits == query);
    } else {
        let front = digits.drop_last();
        let c = digits.last();
        assert(c == digits[digits.len() - 1]);
        assert forall|i: int| 0 <= i < front.len() implies text::is_ascii_digit(
            #[trigger] front[i],
        ) by {
            assert(front[i] == digits[i]);
        }
        lemma_number(query, front);
        assert(query + digits == (query + front).push(c));
        lemma_next(query + front, c);
        assert(front.push(c) == digits);
        crate::time::law_digits_spell_numbers(front, c);
    }
}

/// Behind a slice only another bracket begins one.
proof fn lemma_behind(query: Seq<char>, after: Seq<char>)
    requires
        scanned(query).place == Place::Outside,
        forall|i: int| 0 <= i < after.len() ==> after[i] != '[',
    ensures
        scanned(query + after).fits == scanned(query).fits,
        scanned(query + after).place == Place::Outside,
    decreases after.len(),
{
    if after.len() == 0 {
        assert(query + after == query);
    } else {
        assert(after.last() == after[after.len() - 1]);
        lemma_behind(query, after.drop_last());
        assert(query + after == (query + after.drop_last()).push(after.last()));
        lemma_next(query + after.drop_last(), after.last());
    }
}

proof fn lemma_unquoted(before: Seq<char>)
    requires
        forall|i: int|
            0 <= i < before.len() ==> before[i] != '[' && before[i] != '"' && before[i] != '\''
                && before[i] != '`',
    ensures
        scanned(before) == scan_start(),
    decreases before.len(),
{
    if before.len() > 0 {
        assert(before.last() == before[before.len() - 1]);
        lemma_unquoted(before.drop_last());
    }
}

/// What is known in front of the closing bracket of a slice with this start and step.
proof fn lemma_slice(
    before: Seq<char>,
    low: bool,
    start: Seq<char>,
    stop: Seq<char>,
    back: bool,
    step: Seq<char>,
)
    requires
        forall|i: int|
            0 <= i < before.len() ==> before[i] != '[' && before[i] != '"' && before[i] != '\''
                && before[i] != '`',
        crate::time::ascii_digits(start),
        crate::time::ascii_digits(stop),
        crate::time::ascii_digits(step),
    ensures
        ({
            let opened = if low {
                before.push('[').push('-')
            } else {
                before.push('[')
            };
            let stepped = if back {
                (opened + start.push(':') + stop.push(':')).push('-')
            } else {
                opened + start.push(':') + stop.push(':')
            };
            let t = scanned(stepped + step);
            let m = crate::time::digits_value(start);
            let n = crate::time::digits_value(step);
            &&& t.quote is None && t.place == Place::Step && t.fits && t.minus == back
            &&& n >= 0 && m >= 0
            &&& (n <= LARGEST ==> t.step == n) && (n > LARGEST ==> t.step > LARGEST)
            &&& low ==> t.start == ARRAY_LIMIT
            &&& !low ==> (m <= LARGEST ==> t.start == m) && (m > LARGEST ==> t.start > LARGEST)
        }),
{
    lemma_unquoted(before);
    lemma_next(before, '[');
    lemma_next(before.push('['), '-');
    let opened = if low {
        before.push('[').push('-')
    } else {
        before.push('[')
    };
    lemma_number(opened, start);
    lemma_next(opened + start, ':');
    assert((opened + start).push(':') == opened + start.push(':'));
    lemma_number(opened + start.push(':'), stop);
    lemma_next(opened + start.push(':') + stop, ':');
    let colons = opened + start.push(':') + stop.push(':');
    assert((opened + start.push(':') + stop).push(':') == colons);
    lemma_next(colons, '-');
    lemma_number(
        if back {
            colons.push('-')
        } else {
            colons
        },
        step,
    );
}

/// A slice fits unless an index of it and its step add up to more than 32 bits hold: where the step
/// has a billion or more, is itself a number that a query may hold, and the slice does not start
/// that far in front. What stands around the slice makes no difference.
pub proof fn law_slices(
    before: Seq<char>,
    start: Seq<char>,
    stop: Seq<char>,
    step: Seq<char>,
    after: Seq<char>,
)
    requires
        forall|i: int|
            0 <= i < before.len() ==> before[i] != '[' && before[i] != '"' && before[i] != '\''
                && before[i] != '`',
        forall|i: int| 0 <= i < after.len() ==> after[i] != '[',
        crate::time::ascii_digits(start),
        crate::time::ascii_digits(stop),
        crate::time::ascii_digits(step),
    ensures
        ({
            let m = crate::time::digits_value(start);
            let n = crate::time::digits_value(step);
            let query = (before.push('[') + start.push(':') + stop.push(':') + step).push(']')
                + after;
            slices_fit(query) == !(1_000_000_000 <= n <= 2_147_483_647 && m + n > 2_147_483_647)
        }),
{
    lemma_slice(before, false, start, stop, false, step);
    let sliced = before.push('[') + start.push(':') + stop.push(':') + step;
    lemma_next(sliced, ']');
    lemma_behind(sliced.push(']'), after);
}

/// A slice that starts at the end may begin at any index, and one that goes backwards always fits.
pub proof fn law_slices_from_the_end(
    before: Seq<char>,
    start: Seq<char>,
    stop: Seq<char>,
    step: Seq<char>,
    after: Seq<char>,
)
    requires
        forall|i: int|
            0 <= i < before.len() ==> before[i] != '[' && before[i] != '"' && before[i] != '\''
                && before[i] != '`',
        forall|i: int| 0 <= i < after.len() ==> after[i] != '[',
        crate::time::ascii_digits(start),
        crate::time::ascii_digits(stop),
        crate::time::ascii_digits(step),
    ensures
        ({
            let n = crate::time::digits_value(step);
            let from_end = before.push('[').push('-') + start.push(':') + stop.push(':');
            slices_fit((from_end + step).push(']') + after) == !(1_147_483_647 < n
                <= 2_147_483_647)
        }),
        ({
            let from_front = before.push('[') + start.push(':') + stop.push(':');
            slices_fit((from_front.push('-') + step).push(']') + after)
        }),
{
    let from_end = before.push('[').push('-') + start.push(':') + stop.push(':');
    lemma_slice(before, true, start, stop, false, step);
    lemma_next(from_end + step, ']');
    lemma_behind((from_end + step).push(']'), after);
    let from_front = before.push('[') + start.push(':') + stop.push(':');
    lemma_slice(before, false, start, stop, true, step);
    lemma_next(from_front.push('-') + step, ']');
    lemma_behind((from_front.push('-') + step).push(']'), after);
}

proof fn lemma_quoted(query: Seq<char>, inner: Seq<char>, quote: char)
    requires
        scanned(query).quote == Some(quote),
        !scanned(query).escaped,
        quote != '\\',
        forall|i: int| 0 <= i < inner.len() ==> inner[i] != quote && inner[i] != '\\',
    ensures
        scanned(query + inner) == scanned(query),
    decreases inner.len(),
{
    if inner.len() == 0 {
        assert(query + inner == query);
    } else {
        assert(inner.last() == inner[inner.len() - 1]);
        lemma_quoted(query, inner.drop_last(), quote);
        assert(query + inner == (query + inner.drop_last()).push(inner.last()));
        lemma_next(query + inner.drop_last(), inner.last());
    }
}

/// Quoted text holds no slices, whatever brackets stand in it.
pub proof fn law_quoted_text_has_no_slices(
    before: Seq<char>,
    quote: char,
    inner: Seq<char>,
    after: Seq<char>,
)
    requires
        forall|i: int|
            0 <= i < before.len() ==> before[i] != '[' && before[i] != '"' && before[i] != '\''
                && before[i] != '`',
        quote == '"' || quote == '\'' || quote == '`',
        forall|i: int| 0 <= i < inner.len() ==> inner[i] != quote && inner[i] != '\\',
        forall|i: int| 0 <= i < after.len() ==> after[i] != '[',
    ensures
        slices_fit((before.push(quote) + inner).push(quote) + after),
{
    lemma_unquoted(before);
    lemma_next(before, quote);
    lemma_quoted(before.push(quote), inner, quote);
    lemma_next(before.push(quote) + inner, quote);
    lemma_behind((before.push(quote) + inner).push(quote), after);
}

/// A query is applied to a message only where that begins like an object; it can be applied to any
/// where its slices fit, and to no such message where they do not.
pub proof fn law_queryable(query: Seq<char>, message: Seq<char>)
    ensures
        queryable(None, message),
        slices_fit(query) ==> queryable(Some(query), message),
        message.len() == 0 || message[0] != '{' ==> queryable(Some(query), message),
        message.len() > 0 && message[0] == '{' && !slices_fit(query) ==> !queryable(
            Some(query),
            message,
        ),
        begins_object(message) == (message.len() > 0 && message[0] == '{'),
{
}

} // verus!
