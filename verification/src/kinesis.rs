//! Search in Kinesis data streams, shard by shard.
//!
//! Kinesis has no filter on the server's side, so a search lists the stream's shards, reads the
//! records of the requested window, and matches each record's payload here. Shards are read one
//! after the other; while they are watched, they take turns at their tips.

use std::time::Duration;

use vstd::prelude::*;

use crate::client;
use crate::client::{GetRecordsResponse, KinesisRecord, ShardInfo, ShardIteratorPosition};
use crate::exceptions;
use crate::exceptions::AwsLogsError;
use crate::logs;
use crate::logs::{Color, ColorPreference};
use crate::pattern;
use crate::query;
use crate::text;

verus! {

/// How many records one `get_records` request asks for.
pub const GET_RECORDS_LIMIT: i32 = 1000;

/// The milliseconds between two requests to a shard that is not read up to its tip yet. The
/// service takes five requests a second for each shard.
pub const SHARD_POLL_INTERVAL: u64 = 250;

/// What to search for and how to print it.
#[derive(Debug, Clone)]
pub struct KinesisSearchConfig {
    pub stream_name: String,
    /// What to find in a payload; `None` finds everything.
    pub filter_pattern: Option<String>,
    /// `filter_pattern` is a regular expression, not a text.
    pub regex: bool,
    /// The shards to read; none named means all.
    pub shard_ids: Vec<String>,
    /// Start of the window in milliseconds since the epoch; `None` starts at the oldest record.
    pub start: Option<i64>,
    /// End of the window in milliseconds since the epoch; a record past it ends its shard.
    pub end: Option<i64>,
    pub watch: bool,
    /// The time between two looks at the tips of the shards.
    pub watch_interval: Duration,
    pub color: ColorPreference,
    pub output_shard_enabled: bool,
    pub output_timestamp_enabled: bool,
    /// JMESPath query over payloads that are JSON objects.
    pub query: Option<String>,
}

impl KinesisSearchConfig {
    /// No stream and no pattern, shards printed, a look every second.
    pub open spec fn is_default(self) -> bool {
        self.is_default_for(Seq::empty())
    }

    /// The default, with a stream.
    pub open spec fn is_default_for(self, stream: Seq<char>) -> bool {
        &&& self.stream_name@ == stream
        &&& self.filter_pattern is None
        &&& !self.regex
        &&& self.shard_ids@.len() == 0
        &&& self.start is None
        &&& self.end is None
        &&& !self.watch
        &&& logs::duration_parts(self.watch_interval) == (1u64, 0u32)
        &&& self.color == ColorPreference::Auto
        &&& self.output_shard_enabled
        &&& !self.output_timestamp_enabled
        &&& self.query is None
    }
}

impl Default for KinesisSearchConfig {
    fn default() -> (res: Self)
        ensures
            res.is_default(),
    {
        KinesisSearchConfig {
            stream_name: String::new(),
            filter_pattern: None,
            regex: false,
            shard_ids: Vec::new(),
            start: None,
            end: None,
            watch: false,
            watch_interval: Duration::from_secs(1),
            color: ColorPreference::Auto,
            output_shard_enabled: true,
            output_timestamp_enabled: false,
            query: None,
        }
    }
}

// ── payloads ────────────────────────────────────────────────────────────────
/// How a payload is tested.
enum Matcher {
    All,
    Substring(String),
    Regex(regex::Regex),
}

impl Matcher {
    spec fn accepts(self, payload: Seq<char>) -> bool {
        match self {
            Matcher::All => true,
            Matcher::Substring(s) => text::occurs(payload, s@),
            Matcher::Regex(re) => pattern::regex_matches(pattern::regex_source(re), payload),
        }
    }

    fn matches(&self, payload: &str) -> (res: bool)
        ensures
            res == self.accepts(payload@),
            self matches Matcher::Regex(re) && pattern::plain(pattern::regex_source(*re)) ==> res
                == text::occurs(payload@, pattern::regex_source(self->Regex_0)),
    {
        match self {
            Matcher::All => true,
            Matcher::Substring(s) => text::contains(payload, s.as_str()),
            Matcher::Regex(re) => pattern::is_match(re, payload),
        }
    }
}

/// The configured pattern is found in the payload.
pub open spec fn accepted(cfg: KinesisSearchConfig, payload: Seq<char>) -> bool {
    match cfg.filter_pattern {
        None => true,
        Some(p) => if cfg.regex {
            pattern::regex_matches(p@, payload)
        } else {
            text::occurs(payload, p@)
        },
    }
}

/// The payload after the configured query.
pub open spec fn payload_message(cfg: KinesisSearchConfig, payload: Seq<char>) -> Seq<char> {
    match cfg.query {
        Some(q) => query::queried(q@, payload),
        None => payload,
    }
}

/// The shard in cyan, where shards are printed.
pub open spec fn shard_column(
    cfg: KinesisSearchConfig,
    shard_id: Seq<char>,
    shard_length: int,
    color: bool,
) -> Seq<Seq<char>> {
    if cfg.output_shard_enabled {
        seq![logs::painted(logs::left_justified(shard_id, shard_length), Color::Cyan, color)]
    } else {
        Seq::empty()
    }
}

/// The time of arrival in yellow, where it is printed; the epoch where it is not known.
pub open spec fn arrival_column(
    cfg: KinesisSearchConfig,
    arrival: Option<i64>,
    color: bool,
) -> Seq<Seq<char>> {
    if cfg.output_timestamp_enabled {
        seq![logs::painted(logs::iso_text(client::number_or_zero(arrival)), Color::Yellow, color)]
    } else {
        Seq::empty()
    }
}

/// The line of a record whose payload spells `payload`; none where the pattern is not found.
pub open spec fn payload_line(
    cfg: KinesisSearchConfig,
    shard_id: Seq<char>,
    arrival: Option<i64>,
    payload: Seq<char>,
    shard_length: int,
    color: bool,
) -> Option<Seq<char>> {
    if accepted(cfg, payload) {
        Some(
            text::joined(
                (shard_column(cfg, shard_id, shard_length, color) + arrival_column(
                    cfg,
                    arrival,
                    color,
                )).push(text::trimmed_end(payload_message(cfg, payload))),
                " "@,
            ),
        )
    } else {
        None
    }
}

/// The line of a record; none where the pattern is not found.
pub open spec fn record_line(
    cfg: KinesisSearchConfig,
    rec: KinesisRecord,
    shard_length: int,
    color: bool,
) -> Option<Seq<char>> {
    payload_line(
        cfg,
        rec.shard_id@,
        rec.approximate_arrival_timestamp,
        text::lossy_text(rec.data@),
        shard_length,
        color,
    )
}

/// The query of a configuration, if there is one, can be applied to a payload of these bytes.
pub open spec fn queryable_bytes(cfg: KinesisSearchConfig, data: Seq<u8>) -> bool {
    cfg.query matches Some(q) && data.len() > 0 && data[0] == 0x7bu8 ==> query::slices_fit(
        cfg.query->0@,
    )
}

/// The query of a configuration, if there is one, can be applied to every record.
pub open spec fn searchable(cfg: KinesisSearchConfig, records: Seq<KinesisRecord>) -> bool {
    forall|i: int|
        0 <= i < records.len() ==> queryable_bytes(cfg, (#[trigger] records[i]).data@)
}

/// A configuration, with its query and its pattern compiled.
pub struct KinesisSearch {
    cfg: KinesisSearchConfig,
    query: Option<jmespath::Expression<'static>>,
    matcher: Matcher,
}

/// What compiling a configuration comes to: the query is looked at first.
pub open spec fn compiled(cfg: KinesisSearchConfig, res: Result<KinesisSearch, AwsLogsError>) -> bool {
    match text::opt_text(cfg.query) {
        Some(q) if query::query_error(q) is Some => {
            res matches Err(e) && logs::says(e, "invalid JMESPath: "@ + query::query_error(q)->0)
        },
        _ => match text::opt_text(cfg.filter_pattern) {
            Some(p) if cfg.regex && pattern::regex_error(p) is Some => {
                res matches Err(e) && logs::says(e, "invalid pattern: "@ + pattern::regex_error(p)->0)
            },
            _ => res matches Ok(search) && search.settings() == cfg,
        },
    }
}

impl KinesisSearch {
    #[verifier::type_invariant]
    spec fn inv(self) -> bool {
        &&& match (self.cfg.query, self.query) {
            (None, None) => true,
            (Some(q), Some(expr)) => query::query_source(expr) == q@,
            _ => false,
        }
        &&& match (self.cfg.filter_pattern, self.matcher) {
            (None, Matcher::All) => true,
            (Some(p), Matcher::Substring(s)) => !self.cfg.regex && s@ == p@,
            (Some(p), Matcher::Regex(re)) => self.cfg.regex && pattern::regex_source(re) == p@,
            _ => false,
        }
    }

    /// The configuration.
    pub closed spec fn settings(self) -> KinesisSearchConfig {
        self.cfg
    }

    /// Compiles the query and the pattern of a configuration.
    pub fn new(cfg: KinesisSearchConfig) -> (res: Result<KinesisSearch, AwsLogsError>)
        ensures
            compiled(cfg, res),
            cfg.query is None && (cfg.regex ==> (cfg.filter_pattern matches Some(p)
                ==> logs::compiles(p@))) ==> res is Ok,
    {
        let query = match query::compile_opt(&cfg.query) {
            Ok(query) => query,
            Err(e) => return Err(e),
        };
        let matcher = match &cfg.filter_pattern {
            None => Matcher::All,
            Some(p) => if cfg.regex {
                assert(text::joined(seq![p@], "|"@) == p@);
                assert(pattern::plain(p@) ==> pattern::plain_texts(seq![p@]));
                assert(pattern::plain(p@) && p@.len() <= pattern::SHORT_PATTERN
                    ==> pattern::short_alternatives(p@, seq![p@]));
                match pattern::compile(p.as_str()) {
                    Ok(re) => Matcher::Regex(re),
                    Err(e) => {
                        let mut message = String::new();
                        message.append("invalid pattern: ");
                        message.append(e.as_str());
                        assert(message@ == "invalid pattern: "@ + e@);
                        return Err(exceptions::aws_error(message.as_str()));
                    },
                }
            } else {
                Matcher::Substring(p.clone())
            },
        };
        Ok(KinesisSearch { cfg, query, matcher })
    }

    /// The configuration.
    pub fn config(&self) -> (res: &KinesisSearchConfig)
        ensures
            *res == self.settings(),
    {
        &self.cfg
    }

    /// Whether the query, if there is one, can be applied to every record of a reply.
    pub fn is_searchable(&self, resp: &GetRecordsResponse) -> (res: bool)
        ensures
            res == searchable(self.settings(), resp.records@),
    {
        match &self.cfg.query {
            Some(q) => {
                if query::has_fitting_slices(q.as_str()) {
                    return true;
                }
                let mut i: usize = 0;
                while i < resp.records.len()
                    invariant
                        i <= resp.records@.len(),
                        self.cfg.query == Some(*q),
                        !query::slices_fit(q@),
                        forall|j: int|
                            0 <= j < i ==> queryable_bytes(
                                self.cfg,
                                (#[trigger] resp.records@[j]).data@,
                            ),
                    decreases resp.records.len() - i,
                {
                    let data = &resp.records[i].data;
                    if data.len() > 0 && data[0] == 0x7b {
                        assert(!queryable_bytes(self.cfg, resp.records@[i as int].data@));
                        return false;
                    }
                    i += 1;
                }
                true
            },
            None => true,
        }
    }

    /// Whether the shards of the stream have to be listed: no shard is configured.
    pub fn lists_shards(&self) -> (res: bool)
        ensures
            res == (self.settings().shard_ids@.len() == 0),
    {
        self.cfg.shard_ids.len() == 0
    }

    /// The shards to read: the configured ones, else all that were listed.
    pub fn resolve_shards(&self, listed: &Vec<ShardInfo>) -> (res: Vec<String>)
        ensures
            self.settings().shard_ids@.len() > 0 ==> res@ == self.settings().shard_ids@,
            self.settings().shard_ids@.len() == 0 ==> res@ == listed@.map_values(
                |s: ShardInfo| s.shard_id,
            ),
    {
        if self.cfg.shard_ids.len() > 0 {
            return text::copy_all(&self.cfg.shard_ids);
        }
        let mut out: Vec<String> = Vec::new();
        let mut i: usize = 0;
        while i < listed.len()
            invariant
                i <= listed@.len(),
                out@ == listed@.take(i as int).map_values(|s: ShardInfo| s.shard_id),
            decreases listed.len() - i,
        {
            out.push(listed[i].shard_id.clone());
            i += 1;
        }
        assert(listed@.take(i as int) == listed@);
        out
    }

    /// The line of a record whose payload spells `payload`, where the pattern is found in it.
    pub fn format_payload(
        &self,
        shard_id: &str,
        arrival: Option<i64>,
        payload: String,
        max_shard_length: usize,
        color_enabled: bool,
    ) -> (res: Option<String>)
        requires
            query::queryable(text::opt_text(self.settings().query), payload@),
        ensures
            text::opt_text(res) == payload_line(
                self.settings(),
                shard_id@,
                arrival,
                payload@,
                max_shard_length as int,
                color_enabled,
            ),
            self.settings().filter_pattern matches Some(p) && pattern::plain(p@) ==> res is Some
                == text::occurs(payload@, self.settings().filter_pattern->0@),
    {
        proof {
            use_type_invariant(self);
        }
        if !self.matcher.matches(payload.as_str()) {
            return None;
        }
        let ghost spelled = payload@;
        let message = match &self.query {
            Some(expr) => query::apply(expr, payload),
            None => payload,
        };
        let mut parts: Vec<String> = Vec::new();
        if self.cfg.output_shard_enabled {
            let padded = logs::ljust(shard_id, max_shard_length);
            parts.push(logs::maybe_color(padded.as_str(), Color::Cyan, color_enabled));
        }
        assert(text::texts(parts@) == shard_column(
            self.cfg,
            shard_id@,
            max_shard_length as int,
            color_enabled,
        ));
        let ghost p1 = parts@;
        if self.cfg.output_timestamp_enabled {
            let ts = match arrival {
                Some(t) => t,
                None => 0,
            };
            let iso = logs::millis_to_iso(ts);
            parts.push(logs::maybe_color(iso.as_str(), Color::Yellow, color_enabled));
        }
        assert(text::texts(parts@) == text::texts(p1) + arrival_column(
            self.cfg,
            arrival,
            color_enabled,
        ));
        let ghost p2 = parts@;
        parts.push(logs::rstrip(message.as_str()).to_string());
        assert(text::texts(parts@) == text::texts(p2).push(
            text::trimmed_end(payload_message(self.cfg, spelled)),
        ));
        Some(text::join(parts.as_slice(), " "))
    }

    /// The line of a record, where the pattern is found in its payload.
    pub fn format_record(
        &self,
        rec: &KinesisRecord,
        max_shard_length: usize,
        color_enabled: bool,
    ) -> (res: Option<String>)
        requires
            queryable_bytes(self.settings(), rec.data@),
        ensures
            text::opt_text(res) == record_line(
                self.settings(),
                *rec,
                max_shard_length as int,
                color_enabled,
            ),
            vstd::utf8::valid_utf8(rec.data@) ==> text::opt_text(res) == payload_line(
                self.settings(),
                rec.shard_id@,
                rec.approximate_arrival_timestamp,
                vstd::utf8::decode_utf8(rec.data@),
                max_shard_length as int,
                color_enabled,
            ),
    {
        let payload = text::decode_lossy(&rec.data);
        self.format_payload(
            rec.shard_id.as_str(),
            rec.approximate_arrival_timestamp,
            payload,
            max_shard_length,
            color_enabled,
        )
    }
}

// ── shards ──────────────────────────────────────────────────────────────────
/// The record came in after the end of the window.
pub open spec fn past_end(end: Option<i64>, rec: KinesisRecord) -> bool {
    match (end, rec.approximate_arrival_timestamp) {
        (Some(e), Some(t)) => t > e,
        _ => false,
    }
}

/// The records before the first that came in after the end of the window.
pub open spec fn before_end(end: Option<i64>, records: Seq<KinesisRecord>) -> Seq<KinesisRecord>
    decreases records.len(),
{
    if records.len() == 0 {
        records
    } else {
        let rest = before_end(end, records.drop_last());
        if rest.len() == records.len() - 1 && !past_end(end, records.last()) {
            records
        } else {
            rest
        }
    }
}

/// The lines of the records in which the pattern is found, in order.
pub open spec fn record_lines(
    cfg: KinesisSearchConfig,
    records: Seq<KinesisRecord>,
    shard_length: int,
    color: bool,
) -> Seq<Seq<char>>
    decreases records.len(),
{
    if records.len() == 0 {
        Seq::empty()
    } else {
        let before = record_lines(cfg, records.drop_last(), shard_length, color);
        match record_line(cfg, records.last(), shard_length, color) {
            Some(line) => before.push(line),
            None => before,
        }
    }
}

/// How far a shard has been read.
enum Progress {
    Unopened,
    Open(String),
    Ended,
}

/// How far a shard has been read.
pub ghost enum ShardState {
    /// It has no iterator yet.
    Unopened,
    /// It is read from this iterator on.
    Open(Seq<char>),
    /// Nothing more is read from it.
    Ended,
}

impl Progress {
    spec fn state(self) -> ShardState {
        match self {
            Progress::Unopened => ShardState::Unopened,
            Progress::Open(it) => ShardState::Open(it@),
            Progress::Ended => ShardState::Ended,
        }
    }
}

/// A search in progress.
pub struct KinesisRun {
    shards: Vec<String>,
    shard_length: usize,
    color: bool,
    progress: Vec<Progress>,
    turn: Option<usize>,
}

/// What a search has come to.
pub ghost struct SearchState {
    /// The shards to read, in order.
    pub shards: Seq<Seq<char>>,
    /// Whether lines are colored.
    pub color: bool,
    /// How far each shard has been read.
    pub states: Seq<ShardState>,
    /// The shard that the next request goes to; none where every shard has ended.
    pub turn: Option<int>,
}

/// What a search asks for next.
#[derive(Debug)]
pub enum KinesisAction {
    /// An iterator of a shard.
    Open { shard_id: String, position: ShardIteratorPosition },
    /// Records of a shard.
    Fetch { shard_id: String, iterator: String, limit: i32 },
    /// Nothing: every shard has been read.
    Done,
}

/// How long to wait before the next request.
#[derive(Debug, Clone, Copy, PartialEq, Eq)]
pub enum Pause {
    Nothing,
    Interval(Duration),
    Millis(u64),
}

impl View for KinesisRun {
    type V = SearchState;

    closed spec fn view(&self) -> SearchState {
        SearchState {
            shards: text::texts(self.shards@),
            color: self.color,
            states: self.progress@.map_values(|p: Progress| p.state()),
            turn: match self.turn {
                Some(i) => Some(i as int),
                None => None,
            },
        }
    }
}

/// Where the iterators of a search start to read.
pub open spec fn start_position(cfg: KinesisSearchConfig) -> ShardIteratorPosition {
    match cfg.start {
        Some(ms) => ShardIteratorPosition::AtTimestamp(ms),
        None => ShardIteratorPosition::TrimHorizon,
    }
}

/// The first shard from `from` on, and before `to`, that has not ended.
pub open spec fn first_live(states: Seq<ShardState>, from: int, to: int) -> Option<int>
    decreases to - from,
{
    if from >= to {
        None
    } else if !(states[from] is Ended) {
        Some(from)
    } else {
        first_live(states, from + 1, to)
    }
}

/// The shard whose turn it is after that of the shard `at`: the first behind it that has not
/// ended, else the first from the start on, which may be the same shard again.
pub open spec fn next_turn(states: Seq<ShardState>, at: int) -> Option<int> {
    match first_live(states, at + 1, states.len() as int) {
        Some(i) => Some(i),
        None => first_live(states, 0, at + 1),
    }
}

impl SearchState {
    /// A search of the given shards, of which nothing has been read.
    pub open spec fn start(shards: Seq<Seq<char>>, color: bool) -> SearchState {
        SearchState {
            shards,
            color,
            states: Seq::new(shards.len(), |i: int| ShardState::Unopened),
            turn: if shards.len() > 0 {
                Some(0)
            } else {
                None
            },
        }
    }

    /// Every shard has a state, and the turn is that of a shard that has not ended; there is no
    /// turn only where all have ended.
    pub open spec fn sound(self) -> bool {
        &&& self.states.len() == self.shards.len()
        &&& match self.turn {
            Some(i) => 0 <= i < self.states.len() && !(self.states[i] is Ended),
            None => forall|i: int| 0 <= i < self.states.len() ==> self.states[i] is Ended,
        }
    }

    /// It is the turn of a shard that has no iterator yet.
    pub open spec fn opening(self) -> bool {
        self.turn matches Some(i) && self.states[i] is Unopened
    }

    /// It is the turn of a shard that has an iterator.
    pub open spec fn reading(self) -> bool {
        self.turn matches Some(i) && self.states[i] is Open
    }

    /// The shard whose turn it is has come to `reached`, and keeps the turn.
    pub open spec fn stays(self, reached: ShardState) -> SearchState {
        SearchState { states: self.states.update(self.turn->0, reached), ..self }
    }

    /// The shard whose turn it is has come to `reached`, and the next one gets the turn.
    pub open spec fn hands_on(self, reached: ShardState) -> SearchState {
        let states = self.states.update(self.turn->0, reached);
        SearchState { states, turn: next_turn(states, self.turn->0), ..self }
    }
}

/// The tip of the shard is reached.
pub open spec fn at_tip(resp: GetRecordsResponse) -> bool {
    resp.millis_behind_latest == Some(0i64)
}

/// A reply is the last one of its shard that the search asks for: a record past the end of the
/// window is in it, the shard is drained, or its tip is reached and not watched.
pub open spec fn ends_shard(cfg: KinesisSearchConfig, resp: GetRecordsResponse) -> bool {
    ||| before_end(cfg.end, resp.records@).len() < resp.records@.len()
    ||| resp.next_shard_iterator is None
    ||| (at_tip(resp) && !cfg.watch)
}

/// The state after an iterator was asked for. A shard without one is passed over.
pub open spec fn after_opened(state: SearchState, iterator: Option<Seq<char>>) -> SearchState {
    match iterator {
        Some(it) => state.stays(ShardState::Open(it)),
        None => state.hands_on(ShardState::Ended),
    }
}

/// The state after a reply. A shard is read up to its tip; there, if it is watched, it is left
/// for the others and read on from the same place when its turn comes again.
pub open spec fn after_records(
    cfg: KinesisSearchConfig,
    state: SearchState,
    resp: GetRecordsResponse,
) -> SearchState {
    if ends_shard(cfg, resp) {
        state.hands_on(ShardState::Ended)
    } else {
        let reached = ShardState::Open(text::opt_text(resp.next_shard_iterator)->0);
        if at_tip(resp) {
            state.hands_on(reached)
        } else {
            state.stays(reached)
        }
    }
}

/// How long to wait after the turn went from one shard to the next: the watch interval at the end
/// of each round through the shards.
pub open spec fn round_pause(cfg: KinesisSearchConfig, from: Option<int>, to: Option<int>) -> Pause {
    match (from, to) {
        (Some(i), Some(j)) if j <= i => Pause::Interval(cfg.watch_interval),
        _ => Pause::Nothing,
    }
}

/// How long to wait after an iterator was asked for.
pub open spec fn pause_after_opened(
    cfg: KinesisSearchConfig,
    state: SearchState,
    iterator: Option<Seq<char>>,
) -> Pause {
    match iterator {
        Some(_) => Pause::Nothing,
        None => round_pause(cfg, state.turn, after_opened(state, iterator).turn),
    }
}

/// How long to wait after a reply: as long as the service wants between two requests, where the
/// shard keeps the turn.
pub open spec fn pause_after(
    cfg: KinesisSearchConfig,
    state: SearchState,
    resp: GetRecordsResponse,
) -> Pause {
    if ends_shard(cfg, resp) || at_tip(resp) {
        round_pause(cfg, state.turn, after_records(cfg, state, resp).turn)
    } else {
        Pause::Millis(SHARD_POLL_INTERVAL)
    }
}

/// What `first_live` finds is the first, and is found where there is one.
proof fn lemma_first_live(states: Seq<ShardState>, from: int, to: int)
    ensures
        match first_live(states, from, to) {
            Some(i) => {
                &&& from <= i < to
                &&& !(states[i] is Ended)
                &&& forall|j: int| from <= j < i ==> #[trigger] states[j] is Ended
            },
            None => forall|j: int| from <= j < to ==> #[trigger] states[j] is Ended,
        },
    decreases to - from,
{
    if from < to && states[from] is Ended {
        lemma_first_live(states, from + 1, to);
    }
}

/// After the turn is handed on, it is that of a shard that has not ended, if there is one.
proof fn lemma_hands_on(state: SearchState, reached: ShardState)
    requires
        state.sound(),
        state.turn is Some,
    ensures
        state.hands_on(reached).sound(),
{
    let at = state.turn->0;
    let states = state.states.update(at, reached);
    lemma_first_live(states, at + 1, states.len() as int);
    lemma_first_live(states, 0, at + 1);
}

/// The first shard from `from` on, and before `to`, that has not ended.
fn find_live(progress: &Vec<Progress>, from: usize, to: usize) -> (res: Option<usize>)
    requires
        to <= progress@.len(),
    ensures
        ({
            let states = progress@.map_values(|p: Progress| p.state());
            match res {
                Some(i) => first_live(states, from as int, to as int) == Some(i as int),
                None => first_live(states, from as int, to as int) is None,
            }
        }),
{
    let ghost states = progress@.map_values(|p: Progress| p.state());
    let mut i: usize = from;
    while i < to
        invariant
            i <= to || i == from,
            from <= i,
            to <= progress@.len(),
            states == progress@.map_values(|p: Progress| p.state()),
            first_live(states, i as int, to as int) == first_live(states, from as int, to as int),
        decreases to - i,
    {
        let ended = match &progress[i] {
            Progress::Ended => true,
            _ => false,
        };
        assert(states[i as int] == progress@[i as int].state());
        if !ended {
            return Some(i);
        }
        i += 1;
    }
    None
}

impl KinesisRun {
    /// The state is sound, and the column is as wide as the names of the shards.
    pub closed spec fn wf(self) -> bool {
        &&& self@.sound()
        &&& self.shard_length == logs::column_width(self@.shards)
    }

    /// Begins to search the given shards.
    pub fn new(shards: Vec<String>, color: bool) -> (res: KinesisRun)
        ensures
            res.wf(),
            res@ == SearchState::start(text::texts(shards@), color),
            res@.sound(),
    {
        let shard_length = logs::longest_name(&shards);
        let mut progress: Vec<Progress> = Vec::new();
        while progress.len() < shards.len()
            invariant
                progress@.len() <= shards@.len(),
                forall|i: int| 0 <= i < progress@.len() ==> progress@[i] is Unopened,
            decreases shards.len() - progress.len(),
        {
            progress.push(Progress::Unopened);
        }
        let turn: Option<usize> = if shards.len() > 0 {
            Some(0)
        } else {
            None
        };
        let res = KinesisRun { shards, shard_length, color, progress, turn };
        assert(res@.states == SearchState::start(text::texts(shards@), color).states);
        res
    }

    /// The shard whose turn it is has come to `reached`, and keeps the turn.
    fn stay(&mut self, at: usize, reached: Progress)
        requires
            old(self).wf(),
            old(self)@.turn == Some(at as int),
            !(reached is Ended),
        ensures
            final(self).wf(),
            final(self)@ == old(self)@.stays(reached.state()),
    {
        let ghost before = self@;
        self.progress.set(at, reached);
        assert(self@.states == before.states.update(at as int, reached.state()));
    }

    /// The shard whose turn it is has come to `reached`, and the next one gets the turn. Whether
    /// a round through the shards ends there.
    fn hand_on(&mut self, at: usize, reached: Progress) -> (res: bool)
        requires
            old(self).wf(),
            old(self)@.turn == Some(at as int),
        ensures
            final(self).wf(),
            final(self)@ == old(self)@.hands_on(reached.state()),
            res == (final(self)@.turn matches Some(i) && i <= at),
    {
        let ghost before = self@;
        proof {
            lemma_hands_on(before, reached.state());
        }
        self.progress.set(at, reached);
        assert(self@.states == before.states.update(at as int, reached.state()));
        let count = self.progress.len();
        self.turn =
        match find_live(&self.progress, at + 1, count) {
            Some(i) => Some(i),
            None => find_live(&self.progress, 0, at + 1),
        };
        match self.turn {
            Some(i) => i <= at,
            None => false,
        }
    }
}

impl KinesisSearch {
    /// Begins to search the given shards; colors are as configured, and the terminal is asked
    /// where the configuration leaves them open.
    pub fn begin_search(&self, shards: Vec<String>) -> (res: KinesisRun)
        ensures
            res.wf(),
            exists|terminal: bool|
                res@ == SearchState::start(
                    text::texts(shards@),
                    #[trigger] self.settings().color.enables(terminal),
                ),
            res@.sound(),
    {
        KinesisRun::new(shards, self.cfg.color.enabled())
    }

    /// What to ask for next.
    pub fn action(&self, run: &KinesisRun) -> (res: KinesisAction)
        requires
            run.wf(),
        ensures
            match res {
                KinesisAction::Done => run@.turn is None,
                KinesisAction::Open { shard_id, position } => {
                    &&& run@.opening()
                    &&& shard_id@ == run@.shards[run@.turn->0]
                    &&& position == start_position(self.settings())
                },
                KinesisAction::Fetch { shard_id, iterator, limit } => {
                    &&& run@.reading()
                    &&& shard_id@ == run@.shards[run@.turn->0]
                    &&& run@.states[run@.turn->0] == ShardState::Open(iterator@)
                    &&& limit == GET_RECORDS_LIMIT
                },
            },
    {
        let at = match run.turn {
            Some(at) => at,
            None => return KinesisAction::Done,
        };
        assert(run@.states[at as int] == run.progress@[at as int].state());
        let shard_id = run.shards[at].clone();
        match &run.progress[at] {
            Progress::Open(it) => KinesisAction::Fetch {
                shard_id,
                iterator: it.clone(),
                limit: GET_RECORDS_LIMIT,
            },
            _ => {
                let position = match self.cfg.start {
                    Some(ms) => ShardIteratorPosition::AtTimestamp(ms),
                    None => ShardIteratorPosition::TrimHorizon,
                };
                KinesisAction::Open { shard_id, position }
            },
        }
    }

    /// Takes in the iterator of the shard that was asked for: how long to wait then. A shard
    /// without one is passed over.
    pub fn opened(&self, run: &mut KinesisRun, iterator: Option<String>) -> (res: Pause)
        requires
            old(run).wf(),
            old(run)@.opening(),
        ensures
            final(run).wf(),
            final(run)@.sound(),
            final(run)@ == after_opened(old(run)@, text::opt_text(iterator)),
            res == pause_after_opened(self.settings(), old(run)@, text::opt_text(iterator)),
    {
        let at = match run.turn {
            Some(at) => at,
            None => return Pause::Nothing,
        };
        match iterator {
            Some(it) => {
                run.stay(at, Progress::Open(it));
                Pause::Nothing
            },
            None => self.after_hand_on(run.hand_on(at, Progress::Ended)),
        }
    }

    /// How long to wait after the turn was handed on.
    fn after_hand_on(&self, round_ends: bool) -> (res: Pause)
        ensures
            res == if round_ends {
                Pause::Interval(self.settings().watch_interval)
            } else {
                Pause::Nothing
            },
    {
        if round_ends {
            Pause::Interval(self.cfg.watch_interval)
        } else {
            Pause::Nothing
        }
    }

    /// Takes in a reply: the lines to print, and how long to wait then. Records of a shard come
    /// in order, so the first one past the end of the window ends the shard.
    pub fn records(&self, run: &mut KinesisRun, resp: GetRecordsResponse) -> (res: (
        Vec<String>,
        Pause,
    ))
        requires
            old(run).wf(),
            old(run)@.reading(),
            searchable(self.settings(), resp.records@),
        ensures
            final(run).wf(),
            final(run)@.sound(),
            text::texts(res.0@) == record_lines(
                self.settings(),
                before_end(self.settings().end, resp.records@),
                logs::column_width(old(run)@.shards),
                old(run)@.color,
            ),
            final(run)@ == after_records(self.settings(), old(run)@, resp),
            res.1 == pause_after(self.settings(), old(run)@, resp),
    {
        let mut lines: Vec<String> = Vec::new();
        let ghost cfg = self.settings();
        let ghost all = resp.records@;
        let mut i: usize = 0;
        let mut reached_end = false;
        assert(all.take(0) == Seq::<KinesisRecord>::empty());
        while i < resp.records.len() && !reached_end
            invariant
                i <= resp.records@.len(),
                all == resp.records@,
                cfg == self.settings(),
                searchable(self.settings(), resp.records@),
                *run == *old(run),
                run.wf(),
                before_end(cfg.end, all.take(i as int)) == all.take(i as int),
                reached_end ==> i < resp.records@.len() && past_end(cfg.end, all[i as int]),
                text::texts(lines@) == record_lines(
                    cfg,
                    all.take(i as int),
                    logs::column_width(run@.shards),
                    run@.color,
                ),
            decreases
                    resp.records.len() - i,
                    if reached_end {
                        0int
                    } else {
                        1
                    },
        {
            let rec = &resp.records[i];
            assert(all.take(i + 1).drop_last() == all.take(i as int));
            assert(all.take(i + 1).last() == *rec);
            let past = match (self.cfg.end, rec.approximate_arrival_timestamp) {
                (Some(end), Some(ts)) => ts > end,
                _ => false,
            };
            if past {
                reached_end = true;
            } else {
                let ghost before = lines@;
                if let Some(line) = self.format_record(rec, run.shard_length, run.color) {
                    lines.push(line);
                    assert(text::texts(lines@) == text::texts(before).push(line@));
                }
                i += 1;
            }
        }
        proof {
            lemma_before_end(cfg.end, all, i as int);
            assert(all.take(all.len() as int) == all);
        }
        let watch = self.cfg.watch;
        let tip = match resp.millis_behind_latest {
            Some(behind) => behind == 0,
            None => false,
        };
        let at = match run.turn {
            Some(at) => at,
            None => return (lines, Pause::Nothing),
        };
        match resp.next_shard_iterator {
            Some(next) if !reached_end && (watch || !tip) => {
                if tip {
                    let round_ends = run.hand_on(at, Progress::Open(next));
                    (lines, self.after_hand_on(round_ends))
                } else {
                    run.stay(at, Progress::Open(next));
                    (lines, Pause::Millis(SHARD_POLL_INTERVAL))
                }
            },
            _ => {
                let round_ends = run.hand_on(at, Progress::Ended);
                (lines, self.after_hand_on(round_ends))
            },
        }
    }
}

/// Once a record past the end is met, the records before it are all that count.
proof fn lemma_before_end(end: Option<i64>, all: Seq<KinesisRecord>, i: int)
    requires
        0 <= i <= all.len(),
        before_end(end, all.take(i)) == all.take(i),
        i < all.len() ==> past_end(end, all[i]),
    ensures
        before_end(end, all) == all.take(i),
    decreases all.len() - i,
{
    if i == all.len() {
        assert(all.take(i) == all);
    } else {
        lemma_stays_before_end(end, all, i, all.len() as int);
        assert(all.take(all.len() as int) == all);
    }
}

proof fn lemma_stays_before_end(end: Option<i64>, all: Seq<KinesisRecord>, i: int, n: int)
    requires
        0 <= i < n <= all.len(),
        before_end(end, all.take(i)) == all.take(i),
        past_end(end, all[i]),
    ensures
        before_end(end, all.take(n)) == all.take(i),
    decreases n - i,
{
    assert(all.take(n).drop_last() == all.take(n - 1));
    if n - 1 > i {
        lemma_stays_before_end(end, all, i, n - 1);
    }
}

// ── laws ────────────────────────────────────────────────────────────────────
/// No record that came in after the end of the window is printed, nor any behind it.
pub proof fn law_window_ends(end: Option<i64>, records: Seq<KinesisRecord>)
    ensures
        before_end(end, records).len() <= records.len(),
        before_end(end, records) == records.take(before_end(end, records).len() as int),
        forall|i: int|
            0 <= i < before_end(end, records).len() ==> !past_end(end, #[trigger] records[i]),
        before_end(end, records).len() < records.len() ==> past_end(
            end,
            records[before_end(end, records).len() as int],
        ),
    decreases records.len(),
{
    if records.len() > 0 {
        let front = records.drop_last();
        law_window_ends(end, front);
        let rest = before_end(end, front);
        assert(forall|i: int| 0 <= i < front.len() ==> front[i] == records[i]);
        if rest.len() == records.len() - 1 && !past_end(end, records.last()) {
            assert(records.take(records.len() as int) == records);
            assert forall|i: int| 0 <= i < records.len() implies !past_end(
                end,
                #[trigger] records[i],
            ) by {
                if i < front.len() {
                    assert(!past_end(end, front[i]));
                }
            }
        } else {
            assert(records.take(rest.len() as int) == front.take(rest.len() as int));
            assert forall|i: int| 0 <= i < rest.len() implies !past_end(
                end,
                #[trigger] records[i],
            ) by {
                assert(!past_end(end, front[i]));
            }
        }
    } else {
        assert(records.take(0) == records);
    }
}

/// Records came in one after the other.
pub open spec fn in_order(records: Seq<KinesisRecord>) -> bool {
    forall|i: int, j: int|
        0 <= i <= j < records.len() ==> {
            &&& (#[trigger] records[i]).approximate_arrival_timestamp is Some
            &&& (#[trigger] records[j]).approximate_arrival_timestamp is Some
            &&& records[i].approximate_arrival_timestamp->0
                <= records[j].approximate_arrival_timestamp->0
        }
}

/// Where records come in one after the other, stopping at the first one past the end of the
/// window misses none inside it.
pub proof fn law_nothing_is_missed(end: Option<i64>, records: Seq<KinesisRecord>, i: int)
    requires
        in_order(records),
        0 <= i < records.len(),
        !past_end(end, records[i]),
    ensures
        i < before_end(end, records).len(),
        before_end(end, records)[i] == records[i],
{
    law_window_ends(end, records);
    let n = before_end(end, records).len() as int;
    if n <= i {
        assert(past_end(end, records[n]));
        assert(records[n].approximate_arrival_timestamp->0
            <= records[i].approximate_arrival_timestamp->0);
    }
}

/// Without an end, or where no arrival is known, every record is looked at.
pub proof fn law_open_windows_read_all(end: Option<i64>, records: Seq<KinesisRecord>)
    requires
        forall|i: int| 0 <= i < records.len() ==> !past_end(end, #[trigger] records[i]),
    ensures
        before_end(end, records) == records,
{
    law_window_ends(end, records);
    assert(records.take(records.len() as int) == records);
}

/// A search without a pattern prints every record.
pub proof fn law_no_pattern_prints_all(
    cfg: KinesisSearchConfig,
    records: Seq<KinesisRecord>,
    shard_length: int,
    color: bool,
)
    requires
        cfg.filter_pattern is None,
    ensures
        record_lines(cfg, records, shard_length, color).len() == records.len(),
    decreases records.len(),
{
    if records.len() > 0 {
        law_no_pattern_prints_all(cfg, records.drop_last(), shard_length, color);
    }
}

/// One step of a search: the shard whose turn it is may have come further, the others have not,
/// and either the turn stays or the next shard that has not ended gets it.
pub open spec fn steps(before: SearchState, after: SearchState) -> bool {
    &&& before.turn is Some
    &&& after.shards == before.shards
    &&& after.color == before.color
    &&& after.states.len() == before.states.len()
    &&& forall|i: int|
        0 <= i < before.states.len() && Some(i) != before.turn ==> #[trigger] after.states[i]
            == before.states[i]
    &&& after.turn == before.turn || after.turn == next_turn(after.states, before.turn->0)
}

/// The turn comes back to the start of the shards: a round through them ends.
pub open spec fn round_ends(before: SearchState, after: SearchState) -> bool {
    &&& before.turn is Some
    &&& after.turn is Some
    &&& after.turn == next_turn(after.states, before.turn->0)
    &&& after.turn->0 <= before.turn->0
}

/// Whatever comes back, a search makes a step, and stays sound.
pub proof fn law_replies_are_steps(
    cfg: KinesisSearchConfig,
    state: SearchState,
    resp: GetRecordsResponse,
    iterator: Option<Seq<char>>,
)
    requires
        state.sound(),
        state.turn is Some,
    ensures
        steps(state, after_records(cfg, state, resp)),
        after_records(cfg, state, resp).sound(),
        steps(state, after_opened(state, iterator)),
        after_opened(state, iterator).sound(),
{
    lemma_hands_on(state, ShardState::Ended);
    lemma_hands_on(state, ShardState::Open(text::opt_text(resp.next_shard_iterator)->0));
}

/// The watch interval is waited for where a round through the shards ends, and nowhere else.
pub proof fn law_one_wait_a_round(
    cfg: KinesisSearchConfig,
    state: SearchState,
    resp: GetRecordsResponse,
    iterator: Option<Seq<char>>,
)
    requires
        state.sound(),
        state.turn is Some,
    ensures
        pause_after(cfg, state, resp) is Interval <==> (ends_shard(cfg, resp) || at_tip(resp))
            && round_ends(state, after_records(cfg, state, resp)),
        pause_after(cfg, state, resp) is Interval ==> pause_after(cfg, state, resp)
            == Pause::Interval(cfg.watch_interval),
        pause_after_opened(cfg, state, iterator) is Interval <==> iterator is None && round_ends(
            state,
            after_opened(state, iterator),
        ),
{
}

/// In a round through the shards, each shard that has not ended gets its turn: between two ends of
/// rounds there is a moment at which the next request goes to it.
pub proof fn law_rounds_ask_every_shard(
    history: Seq<SearchState>,
    first: int,
    second: int,
    shard: int,
) -> (at: int)
    requires
        0 <= first < second < history.len() - 1,
        forall|i: int| 0 <= i < history.len() ==> (#[trigger] history[i]).sound(),
        forall|i: int|
            0 <= i < history.len() - 1 ==> steps(#[trigger] history[i], history[i + 1]),
        round_ends(history[first], history[first + 1]),
        round_ends(history[second], history[second + 1]),
        0 <= shard < history[first].shards.len(),
        forall|i: int|
            first <= i <= second + 1 ==> !((#[trigger] history[i]).states[shard] is Ended),
    ensures
        first < at <= second,
        history[at].turn == Some(shard),
{
    lemma_shards_stay(history, first);
    let start = history[first + 1];
    let i = history[first].turn->0;
    lemma_first_live(start.states, i + 1, start.states.len() as int);
    lemma_first_live(start.states, 0, i + 1);
    assert(history[first + 1].turn->0 <= shard);
    lemma_before_its_turn(history, first + 1, second, shard)
}

proof fn lemma_shards_stay(history: Seq<SearchState>, first: int)
    requires
        0 <= first < history.len() - 1,
        forall|i: int| 0 <= i < history.len() ==> (#[trigger] history[i]).sound(),
        forall|i: int|
            0 <= i < history.len() - 1 ==> steps(#[trigger] history[i], history[i + 1]),
    ensures
        history[first + 1].states.len() == history[first].shards.len(),
        history[first + 1].shards == history[first].shards,
{
    assert(steps(history[first], history[first + 1]));
    assert(history[first].sound());
}

/// While the turn is that of a shard before `shard`, no round ends.
proof fn lemma_before_its_turn(
    history: Seq<SearchState>,
    from: int,
    second: int,
    shard: int,
) -> (at: int)
    requires
        0 <= from <= second < history.len() - 1,
        forall|i: int| 0 <= i < history.len() ==> (#[trigger] history[i]).sound(),
        forall|i: int|
            0 <= i < history.len() - 1 ==> steps(#[trigger] history[i], history[i + 1]),
        round_ends(history[second], history[second + 1]),
        0 <= shard < history[from].states.len(),
        forall|i: int|
            from <= i <= second + 1 ==> !((#[trigger] history[i]).states[shard] is Ended),
        history[from].turn is Some,
        history[from].turn->0 <= shard,
    ensures
        from <= at <= second,
        history[at].turn == Some(shard),
    decreases second - from,
{
    if history[from].turn->0 == shard {
        from
    } else {
        let before = history[from];
        let after = history[from + 1];
        assert(steps(before, after));
        let i = before.turn->0;
        lemma_first_live(after.states, i + 1, after.states.len() as int);
        assert(!(after.states[shard] is Ended));
        lemma_before_its_turn(history, from + 1, second, shard)
    }
}

/// Every shard before the one whose turn it is has ended, and none behind it was opened.
pub open spec fn one_after_the_other(state: SearchState) -> bool {
    &&& state.turn matches Some(at) ==> {
        &&& forall|i: int| 0 <= i < at ==> #[trigger] state.states[i] is Ended
        &&& forall|i: int|
            at < i < state.states.len() ==> #[trigger] state.states[i] is Unopened
    }
}

/// A search that is not watched reads its shards one after the other, from the first to the last,
/// and never waits for the watch interval.
pub proof fn law_shards_in_order(
    cfg: KinesisSearchConfig,
    state: SearchState,
    resp: GetRecordsResponse,
    iterator: Option<Seq<char>>,
)
    requires
        !cfg.watch,
        state.sound(),
        one_after_the_other(state),
        state.turn is Some,
    ensures
        one_after_the_other(after_records(cfg, state, resp)),
        after_records(cfg, state, resp).turn matches Some(at) ==> at == state.turn->0 || at
            == state.turn->0 + 1,
        !(pause_after(cfg, state, resp) is Interval),
        one_after_the_other(after_opened(state, iterator)),
        after_opened(state, iterator).turn matches Some(at) ==> at == state.turn->0 || at
            == state.turn->0 + 1,
        !(pause_after_opened(cfg, state, iterator) is Interval),
{
    let at = state.turn->0;
    let states = state.states.update(at, ShardState::Ended);
    lemma_first_live(states, at + 1, states.len() as int);
    lemma_first_live(states, 0, at + 1);
    if at + 1 < states.len() {
        assert(states[at + 1] is Unopened);
        assert(next_turn(states, at) == Some(at + 1));
    } else {
        assert(next_turn(states, at) is None);
    }
}

/// A search begins with the first shard, of which nothing has been read.
pub proof fn law_searches_begin_in_order(shards: Seq<Seq<char>>, color: bool)
    ensures
        SearchState::start(shards, color).sound(),
        one_after_the_other(SearchState::start(shards, color)),
{
}

/// A watched shard keeps its place at its tip: it is read on from the iterator that came with the
/// reply.
pub proof fn law_tips_keep_their_place(
    cfg: KinesisSearchConfig,
    state: SearchState,
    resp: GetRecordsResponse,
)
    requires
        state.sound(),
        state.turn is Some,
        cfg.watch,
        at_tip(resp),
        !ends_shard(cfg, resp),
    ensures
        after_records(cfg, state, resp).states[state.turn->0] == ShardState::Open(
            resp.next_shard_iterator->0@,
        ),
        after_records(cfg, state, resp).turn is Some,
{
    lemma_hands_on(state, ShardState::Open(text::opt_text(resp.next_shard_iterator)->0));
}

/// Between two requests to a shard that is not read up to its tip yet, a search waits a fifth of
/// a second or more, as the service wants it.
pub proof fn law_requests_keep_the_rate(
    cfg: KinesisSearchConfig,
    state: SearchState,
    resp: GetRecordsResponse,
)
    requires
        !ends_shard(cfg, resp),
        !at_tip(resp),
    ensures
        after_records(cfg, state, resp).turn == state.turn,
        pause_after(cfg, state, resp) matches Pause::Millis(n) && 5 * n >= 1000,
{
}

/// A search that is not watched leaves a shard at its tip.
pub proof fn law_tip_ends_shard(
    cfg: KinesisSearchConfig,
    state: SearchState,
    resp: GetRecordsResponse,
)
    requires
        state.sound(),
        state.turn is Some,
        !cfg.watch,
        at_tip(resp),
    ensures
        after_records(cfg, state, resp).states[state.turn->0] is Ended,
{
}

/// The pattern decides on the payload alone: without one everything is accepted, a text where it
/// stands in the payload, and a regular expression where it is found.
pub proof fn law_patterns(cfg: KinesisSearchConfig, payload: Seq<char>)
    ensures
        cfg.filter_pattern is None ==> accepted(cfg, payload),
        cfg.filter_pattern matches Some(p) && !cfg.regex ==> (accepted(cfg, payload) <==> exists|
            at: int,
        |
            0 <= at <= payload.len() - cfg.filter_pattern->0@.len() && #[trigger] payload.subrange(
                at,
                at + cfg.filter_pattern->0@.len(),
            ) == cfg.filter_pattern->0@),
        cfg.filter_pattern matches Some(p) && cfg.regex ==> accepted(cfg, payload)
            == pattern::regex_matches(cfg.filter_pattern->0@, payload),
{
    if let Some(p) = cfg.filter_pattern {
        text::law_texts_are_found(Seq::empty(), p@, Seq::empty(), payload, 0);
    }
}

/// What is printed of a payload is what the query makes of it, and depends on the configuration
/// through the query alone.
pub proof fn law_payloads_follow_the_query(
    a: KinesisSearchConfig,
    b: KinesisSearchConfig,
    payload: Seq<char>,
)
    ensures
        a.query is None ==> payload_message(a, payload) == payload,
        a.query matches Some(q) ==> match query::json_value(payload) {
            Some(value) if payload.len() > 0 && payload[0] == '{' => match query::variable_of(
                value,
            ) {
                Some(variable) => match query::found_by(q@, variable) {
                    Some(found) => payload_message(a, payload) == query::value_text(found).1,
                    None => payload_message(a, payload) == payload,
                },
                None => payload_message(a, payload) == payload,
            },
            _ => payload_message(a, payload) == payload,
        },
        text::opt_text(a.query) == text::opt_text(b.query) ==> payload_message(a, payload)
            == payload_message(b, payload),
{
}

/// The line of a record has the columns that are switched on, first the shard, then the arrival,
/// the epoch where that is not known; what is printed of the payload stands behind them, without
/// the whitespace at its end, and one space between any two. There is a line exactly where the
/// pattern accepts the payload.
pub proof fn law_records_have_their_columns(
    cfg: KinesisSearchConfig,
    rec: KinesisRecord,
    shard_length: int,
    color: bool,
)
    ensures
        ({
            let payload = text::lossy_text(rec.data@);
            let line = record_line(cfg, rec, shard_length, color);
            let shard = logs::painted(
                logs::left_justified(rec.shard_id@, shard_length),
                Color::Cyan,
                color,
            );
            let arrival = logs::painted(
                logs::iso_text(
                    match rec.approximate_arrival_timestamp {
                        Some(t) => t as int,
                        None => 0,
                    },
                ),
                Color::Yellow,
                color,
            );
            let message = text::trimmed_end(payload_message(cfg, payload));
            &&& line is Some == accepted(cfg, payload)
            &&& line is Some ==> line->0 == if cfg.output_shard_enabled
                && cfg.output_timestamp_enabled {
                shard + " "@ + arrival + " "@ + message
            } else if cfg.output_shard_enabled {
                shard + " "@ + message
            } else if cfg.output_timestamp_enabled {
                arrival + " "@ + message
            } else {
                message
            }
        }),
{
    let payload = text::lossy_text(rec.data@);
    let message = text::trimmed_end(payload_message(cfg, payload));
    let shards = shard_column(cfg, rec.shard_id@, shard_length, color);
    let arrivals = arrival_column(cfg, rec.approximate_arrival_timestamp, color);
    let columns = (shards + arrivals).push(message);
    assert(columns.drop_last() == shards + arrivals);
    reveal_with_fuel(text::joined, 4);
    if cfg.output_shard_enabled && cfg.output_timestamp_enabled {
        assert((shards + arrivals).drop_last() == shards);
    }
}

/// The lines of a run of records are the lines of exactly those that the pattern accepts, in order:
/// as many lines as accepted records, and the k-th line is that of the k-th accepted record.
pub proof fn law_every_match_is_printed(
    cfg: KinesisSearchConfig,
    records: Seq<KinesisRecord>,
    shard_length: int,
    color: bool,
) -> (at: Seq<int>)
    ensures
        text::picks(
            at,
            records.len() as int,
            |i: int| accepted(cfg, text::lossy_text(records[i].data@)),
        ),
        record_lines(cfg, records, shard_length, color).len() == at.len(),
        forall|k: int|
            0 <= k < at.len() ==> Some(
                #[trigger] record_lines(cfg, records, shard_length, color)[k],
            ) == record_line(cfg, records[at[k]], shard_length, color),
{
    let at = lemma_matches_to(cfg, records, shard_length, color, records.len() as int);
    assert(records.take(records.len() as int) == records);
    at
}

proof fn lemma_matches_to(
    cfg: KinesisSearchConfig,
    records: Seq<KinesisRecord>,
    shard_length: int,
    color: bool,
    n: int,
) -> (at: Seq<int>)
    requires
        0 <= n <= records.len(),
    ensures
        text::picks(at, n, |i: int| accepted(cfg, text::lossy_text(records[i].data@))),
        record_lines(cfg, records.take(n), shard_length, color).len() == at.len(),
        forall|k: int|
            0 <= k < at.len() ==> Some(
                #[trigger] record_lines(cfg, records.take(n), shard_length, color)[k],
            ) == record_line(cfg, records[at[k]], shard_length, color),
    decreases n,
{
    if n == 0 {
        Seq::empty()
    } else {
        let before = lemma_matches_to(cfg, records, shard_length, color, n - 1);
        text::lemma_picks_next(
            before,
            n - 1,
            |i: int| accepted(cfg, text::lossy_text(records[i].data@)),
        );
        assert(records.take(n).drop_last() == records.take(n - 1));
        assert(records.take(n).last() == records[n - 1]);
        if accepted(cfg, text::lossy_text(records[n - 1].data@)) {
            before.push(n - 1)
        } else {
            before
        }
    }
}

/// How a reply is cut does not matter: the lines of two runs of records are those of the first and
/// then those of the second, and one accepted record gives its one line.
pub proof fn law_lines_join(
    cfg: KinesisSearchConfig,
    a: Seq<KinesisRecord>,
    b: Seq<KinesisRecord>,
    rec: KinesisRecord,
    shard_length: int,
    color: bool,
)
    ensures
        record_lines(cfg, a + b, shard_length, color) == record_lines(cfg, a, shard_length, color)
            + record_lines(cfg, b, shard_length, color),
        accepted(cfg, text::lossy_text(rec.data@)) ==> record_lines(
            cfg,
            seq![rec],
            shard_length,
            color,
        ).len() == 1,
        !accepted(cfg, text::lossy_text(rec.data@)) ==> record_lines(
            cfg,
            seq![rec],
            shard_length,
            color,
        ).len() == 0,
    decreases b.len(),
{
    let first = record_lines(cfg, a, shard_length, color);
    if b.len() == 0 {
        assert(a + b == a);
        assert(first + record_lines(cfg, b, shard_length, color) == first);
    } else {
        law_lines_join(cfg, a, b.drop_last(), rec, shard_length, color);
        assert((a + b).drop_last() == a + b.drop_last());
        assert((a + b).last() == b.last());
        let rest = record_lines(cfg, b.drop_last(), shard_length, color);
        if let Some(line) = record_line(cfg, b.last(), shard_length, color) {
            assert(first + rest.push(line) == (first + rest).push(line));
        }
    }
    let one = seq![rec];
    assert(one.drop_last() == Seq::<KinesisRecord>::empty());
    reveal_with_fuel(record_lines, 2);
}

/// A record is past the end exactly where both the end of the window and its arrival are known and
/// it came in later.
pub proof fn law_past_the_end(end: Option<i64>, rec: KinesisRecord)
    ensures
        past_end(end, rec) <==> end is Some && rec.approximate_arrival_timestamp is Some
            && rec.approximate_arrival_timestamp->0 > end->0,
{
}

/// Iterators start at the start of the window, or at the oldest record where it has none.
pub proof fn law_reading_starts(cfg: KinesisSearchConfig)
    ensures
        cfg.start matches Some(t) ==> start_position(cfg) == ShardIteratorPosition::AtTimestamp(t),
        cfg.start is None ==> start_position(cfg) == ShardIteratorPosition::TrimHorizon,
{
}

/// What a reply does to its shard. It ends where a record past the end of the window came, where
/// there is no next iterator, and at the tip of a shard that is not watched; anywhere else it is
/// read on from the next iterator. No other shard changes.
pub proof fn law_replies_move_their_shard(
    cfg: KinesisSearchConfig,
    state: SearchState,
    resp: GetRecordsResponse,
    i: int,
)
    requires
        state.sound(),
        state.turn is Some,
        0 <= i < state.states.len(),
    ensures
        ({
            let after = after_records(cfg, state, resp);
            let ends = before_end(cfg.end, resp.records@) != resp.records@
                || resp.next_shard_iterator is None || (resp.millis_behind_latest == Some(0i64)
                && !cfg.watch);
            &&& after.shards == state.shards && after.color == state.color
            &&& Some(i) != state.turn ==> after.states[i] == state.states[i]
            &&& Some(i) == state.turn && ends ==> after.states[i] is Ended
            &&& Some(i) == state.turn && !ends ==> after.states[i] == ShardState::Open(
                resp.next_shard_iterator->0@,
            )
            &&& !ends && resp.millis_behind_latest != Some(0i64) ==> after.turn == state.turn
            &&& ends || resp.millis_behind_latest == Some(0i64) ==> after.turn == next_turn(
                after.states,
                state.turn->0,
            )
        }),
{
    law_window_ends(cfg.end, resp.records@);
    let kept = before_end(cfg.end, resp.records@);
    if kept.len() == resp.records@.len() {
        assert(resp.records@.take(kept.len() as int) == resp.records@);
    }
}

/// An iterator that comes is the shard's, which keeps the turn; a shard without one ends.
pub proof fn law_iterators_open_their_shard(
    state: SearchState,
    iterator: Option<Seq<char>>,
    i: int,
)
    requires
        state.sound(),
        state.turn is Some,
        0 <= i < state.states.len(),
    ensures
        ({
            let after = after_opened(state, iterator);
            &&& after.shards == state.shards && after.color == state.color
            &&& Some(i) != state.turn ==> after.states[i] == state.states[i]
            &&& Some(i) == state.turn ==> match iterator {
                Some(it) => after.states[i] == ShardState::Open(it) && after.turn == state.turn,
                None => after.states[i] is Ended && after.turn == next_turn(
                    after.states,
                    state.turn->0,
                ),
            }
        }),
{
}

/// The turn goes to the next shard that has not ended, from the last on to the first: every shard
/// that is passed over has ended. It goes to none only where all have ended.
pub proof fn law_turns_pass_over_ended_shards(states: Seq<ShardState>, at: int, i: int)
    requires
        0 <= at < states.len(),
        0 <= i < states.len(),
    ensures
        match next_turn(states, at) {
            Some(j) => {
                &&& 0 <= j < states.len()
                &&& !(states[j] is Ended)
                &&& at < j && at < i < j ==> states[i] is Ended
                &&& j <= at && (at < i || i < j) ==> states[i] is Ended
            },
            None => states[i] is Ended,
        },
{
    lemma_first_live(states, at + 1, states.len() as int);
    lemma_first_live(states, 0, at + 1);
}

/// A quarter of a second lies between two requests to a shard that keeps the turn; where the turn
/// goes on, the watch interval is waited for at the end of a round, and nothing anywhere else.
pub proof fn law_pauses(
    cfg: KinesisSearchConfig,
    state: SearchState,
    resp: GetRecordsResponse,
)
    requires
        state.sound(),
        state.turn is Some,
    ensures
        ({
            let after = after_records(cfg, state, resp);
            let pause = pause_after(cfg, state, resp);
            let goes_on = before_end(cfg.end, resp.records@) != resp.records@
                || resp.next_shard_iterator is None || resp.millis_behind_latest == Some(0i64);
            &&& !goes_on ==> pause == Pause::Millis(250)
            &&& goes_on && after.turn is Some && after.turn->0 <= state.turn->0 ==> pause
                == Pause::Interval(cfg.watch_interval)
            &&& goes_on && (after.turn is None || after.turn->0 > state.turn->0) ==> pause
                == Pause::Nothing
        }),
{
    law_replies_move_their_shard(cfg, state, resp, state.turn->0);
    law_window_ends(cfg.end, resp.records@);
    let kept = before_end(cfg.end, resp.records@);
    if kept.len() == resp.records@.len() {
        assert(resp.records@.take(kept.len() as int) == resp.records@);
    }
}

/// A search begins with the first shard, and nothing has been read of any.
pub proof fn law_searches_begin_unread(shards: Seq<Seq<char>>, color: bool, i: int)
    ensures
        ({
            let s = SearchState::start(shards, color);
            &&& s.shards == shards && s.color == color
            &&& s.states.len() == shards.len()
            &&& 0 <= i < shards.len() ==> s.states[i] is Unopened
            &&& shards.len() > 0 ==> s.turn == Some(0int)
            &&& shards.len() == 0 ==> s.turn is None
        }),
{
}

/// The default has no pattern and no window, reads every shard, prints shards without times, does
/// not watch, and would look every second.
pub proof fn law_search_defaults(cfg: KinesisSearchConfig, stream: Seq<char>)
    requires
        cfg.is_default_for(stream),
    ensures
        cfg.stream_name@ == stream,
        cfg.filter_pattern is None && !cfg.regex && cfg.query is None,
        cfg.shard_ids@.len() == 0,
        cfg.start is None && cfg.end is None && !cfg.watch,
        logs::duration_parts(cfg.watch_interval) == (1u64, 0u32),
        cfg.color == ColorPreference::Auto,
        cfg.output_shard_enabled && !cfg.output_timestamp_enabled,
        cfg.is_default() <==> stream.len() == 0,
{
    if stream.len() == 0 {
        assert(stream == Seq::<char>::empty());
    }
}

/// A search is refused for a query that does not compile, else for a regular expression that does
/// not, and for nothing else; the refusal says which it was, and why.
pub proof fn law_searches_compile(
    cfg: KinesisSearchConfig,
    res: Result<KinesisSearch, AwsLogsError>,
)
    requires
        compiled(cfg, res),
    ensures
        cfg.query matches Some(q) && query::query_error(q@) is Some ==> (res matches Err(
            AwsLogsError::Aws(chain),
        ) && chain@.len() == 1 && chain@[0]@ == "invalid JMESPath: "@ + query::query_error(
            cfg.query->0@,
        )->0),
        (cfg.query matches Some(q) ==> query::query_error(q@) is None) && cfg.regex
            && cfg.filter_pattern is Some && pattern::regex_error(cfg.filter_pattern->0@) is Some
            ==> (res matches Err(AwsLogsError::Aws(chain)) && chain@.len() == 1 && chain@[0]@
            == "invalid pattern: "@ + pattern::regex_error(cfg.filter_pattern->0@)->0),
        (cfg.query matches Some(q) ==> query::query_error(q@) is None) && (!cfg.regex
            || cfg.filter_pattern is None || pattern::regex_error(cfg.filter_pattern->0@) is None)
            ==> (res matches Ok(search) && search.settings() == cfg),
{
}

/// A reply can be printed unless a query whose slices do not fit meets a payload that begins like an
/// object.
pub proof fn law_searchable_replies(
    cfg: KinesisSearchConfig,
    records: Seq<KinesisRecord>,
    data: Seq<u8>,
    i: int,
)
    ensures
        cfg.query is None ==> searchable(cfg, records) && queryable_bytes(cfg, data),
        cfg.query is Some && query::slices_fit(cfg.query->0@) ==> searchable(cfg, records)
            && queryable_bytes(cfg, data),
        data.len() == 0 || data[0] != 0x7bu8 ==> queryable_bytes(cfg, data),
        cfg.query is Some && !query::slices_fit(cfg.query->0@) && data.len() > 0 && data[0]
            == 0x7bu8 ==> !queryable_bytes(cfg, data),
        (forall|k: int|
            0 <= k < records.len() ==> (#[trigger] records[k]).data@.len() == 0
                || records[k].data@[0] != 0x7bu8) ==> searchable(cfg, records),
        cfg.query is Some && !query::slices_fit(cfg.query->0@) && 0 <= i < records.len()
            && records[i].data@.len() > 0 && records[i].data@[0] == 0x7bu8 ==> !searchable(
            cfg,
            records,
        ),
{
}

/// Whose turn it is decides what is done: a shard without an iterator is opened, one with an
/// iterator is read, and a shard that has ended has no turn.
pub proof fn law_turns_open_or_read(state: SearchState)
    ensures
        state.turn is None ==> !state.opening() && !state.reading(),
        state.turn matches Some(i) ==> state.opening() == (state.states[i] is Unopened),
        state.turn matches Some(i) ==> state.reading() == (state.states[i] is Open),
        state.sound() && state.turn is Some ==> state.opening() != state.reading(),
        state.sound() == (state.states.len() == state.shards.len() && (match state.turn {
            Some(i) => 0 <= i < state.shards.len() && !(state.states[i] is Ended),
            None => forall|i: int| 0 <= i < state.shards.len() ==> state.states[i] is Ended,
        })),
{
}

/// An iterator that was got is used at once. Where there was none, the interval is waited if the
/// turn comes round to a shard that is not behind, and nothing otherwise.
pub proof fn law_pauses_after_opening(
    cfg: KinesisSearchConfig,
    state: SearchState,
    iterator: Option<Seq<char>>,
)
    requires
        state.turn is Some,
    ensures
        ({
            let next = after_opened(state, iterator).turn;
            let pause = pause_after_opened(cfg, state, iterator);
            &&& iterator is Some ==> pause == Pause::Nothing
            &&& iterator is None && next is None ==> pause == Pause::Nothing
            &&& iterator is None && next is Some && next->0 > state.turn->0 ==> pause
                == Pause::Nothing
            &&& iterator is None && next is Some && next->0 <= state.turn->0 ==> pause
                == Pause::Interval(cfg.watch_interval)
        }),
{
}

/// A request asks for up to a thousand records, and two requests to a shard lie a quarter of a second
/// apart.
pub proof fn law_limits()
    ensures
        GET_RECORDS_LIMIT == 1000,
        SHARD_POLL_INTERVAL == 250,
{
}

} // verus!
