//! What the terminal front-end asks of the engine thread, what the engine answers, and the
//! configurations behind the requests.

use vstd::prelude::*;

use crate::calendar;
use crate::client::{CallerIdentity, ShardInfo};
use crate::exceptions::AwsLogsError;
use crate::kinesis::KinesisSearchConfig;
use crate::logs;
use crate::logs::{AwsLogsConfig, ColorPreference};
use crate::text;
use crate::time;

verus! {

/// The list entry that stands for every stream of a group.
pub const ALL_STREAMS: &'static str = "[ALL streams]";

/// The list entry that stands for every shard of a stream.
pub const ALL_SHARDS: &'static str = "[ALL shards]";

/// How far back views look by default, in minutes.
pub const DEFAULT_LOOKBACK_MIN: i64 = 30;

/// The request id of messages that belong to no command, such as the identity. Commands have
/// ids from 1 on.
pub const GLOBAL_REQ: u64 = 0;

// ── commands ────────────────────────────────────────────────────────────────
/// A command for the engine.
#[derive(Debug)]
pub enum EngineCmd {
    Groups { req: u64 },
    Streams { req: u64, group: String },
    /// Without a stream, all of the group.
    Logs {
        req: u64,
        group: String,
        stream: Option<String>,
        filter: Option<String>,
        watch: bool,
    },
    Shards { req: u64, stream: String },
    /// Without a shard, all of the stream.
    Search {
        req: u64,
        stream: String,
        shard: Option<String>,
        filter: Option<String>,
        watch: bool,
    },
}

/// What a command says.
pub ghost enum Request {
    Groups { req: int },
    Streams { req: int, group: Seq<char> },
    Logs {
        req: int,
        group: Seq<char>,
        stream: Option<Seq<char>>,
        filter: Option<Seq<char>>,
        watch: bool,
    },
    Shards { req: int, stream: Seq<char> },
    Search {
        req: int,
        stream: Seq<char>,
        shard: Option<Seq<char>>,
        filter: Option<Seq<char>>,
        watch: bool,
    },
}

impl Request {
    /// The id of the request.
    pub open spec fn id(self) -> int {
        match self {
            Request::Groups { req } => req,
            Request::Streams { req, .. } => req,
            Request::Logs { req, .. } => req,
            Request::Shards { req, .. } => req,
            Request::Search { req, .. } => req,
        }
    }
}

impl View for EngineCmd {
    type V = Request;

    open spec fn view(&self) -> Request {
        match *self {
            EngineCmd::Groups { req } => Request::Groups { req: req as int },
            EngineCmd::Streams { req, group } => Request::Streams {
                req: req as int,
                group: group@,
            },
            EngineCmd::Logs { req, group, stream, filter, watch } => Request::Logs {
                req: req as int,
                group: group@,
                stream: text::opt_text(stream),
                filter: text::opt_text(filter),
                watch,
            },
            EngineCmd::Shards { req, stream } => Request::Shards {
                req: req as int,
                stream: stream@,
            },
            EngineCmd::Search { req, stream, shard, filter, watch } => Request::Search {
                req: req as int,
                stream: stream@,
                shard: text::opt_text(shard),
                filter: text::opt_text(filter),
                watch,
            },
        }
    }
}

impl EngineCmd {
    /// The id of the request.
    pub fn req(&self) -> (res: u64)
        ensures
            res == self@.id(),
    {
        match self {
            EngineCmd::Groups { req } => *req,
            EngineCmd::Streams { req, .. } => *req,
            EngineCmd::Logs { req, .. } => *req,
            EngineCmd::Shards { req, .. } => *req,
            EngineCmd::Search { req, .. } => *req,
        }
    }
}

// ── messages ────────────────────────────────────────────────────────────────
/// A message of the engine. Each but the first carries the id of the command that it answers,
/// so that what a superseded command still sends can be told.
#[derive(Debug)]
pub enum Msg {
    Identity { account_id: String },
    /// The command runs, and can be aborted by its id.
    Started { req: u64 },
    Items { req: u64, items: Vec<String> },
    Line { req: u64, line: String },
    Error { req: u64, text: String },
    Done { req: u64 },
}

/// The error of a command as a message.
pub fn error_message(req: u64, err: &AwsLogsError) -> (res: Msg)
    ensures
        res matches Msg::Error { req: r, text } && r == req && text@ == err.hint_text(),
{
    Msg::Error { req, text: err.hint() }
}

/// A part of the engine that may fail to start.
#[derive(Debug, Clone, Copy, PartialEq, Eq, Structural)]
pub enum Part {
    Runtime,
    CloudWatch,
    Kinesis,
}

/// What is said to have failed where a part did not start.
pub open spec fn part_text(part: Part) -> Seq<char> {
    match part {
        Part::Runtime => "failed to start runtime"@,
        Part::CloudWatch => "CloudWatch client"@,
        Part::Kinesis => "Kinesis client"@,
    }
}

/// A failure that belongs to no command: what failed, and why.
fn global_error(what: &str, why: &str) -> (res: Msg)
    ensures
        res matches Msg::Error { req, text } && req == GLOBAL_REQ && text@ == what@ + ": "@ + why@,
{
    let mut text = what.to_string();
    text.append(": ");
    text.append(why);
    Msg::Error { req: GLOBAL_REQ, text }
}

/// The message that a part of the engine did not start, and why.
pub fn startup_message(part: Part, why: &str) -> (res: Msg)
    ensures
        res matches Msg::Error { req, text } && req == GLOBAL_REQ && text@ == part_text(part) + ": "@
            + why@,
{
    match part {
        Part::Runtime => global_error("failed to start runtime", why),
        Part::CloudWatch => global_error("CloudWatch client", why),
        Part::Kinesis => global_error("Kinesis client", why),
    }
}

/// Why the caller is not known.
#[derive(Debug)]
pub enum IdentityError {
    /// There is no client to ask.
    Client(String),
    /// The service did not answer.
    Lookup(String),
}

/// What is said where the caller is not known.
pub open spec fn identity_error_text(err: IdentityError) -> Seq<char> {
    match err {
        IdentityError::Client(why) => "STS client: "@ + why@,
        IdentityError::Lookup(why) => "identity lookup failed: "@ + why@,
    }
}

/// Who the caller is, for the status bar. Where that is not known, the status bar says so, and
/// the error follows.
pub fn identity_messages(result: Result<CallerIdentity, IdentityError>) -> (res: Vec<Msg>)
    ensures
        match result {
            Ok(id) => res@ == seq![Msg::Identity { account_id: id.account_id }],
            Err(err) => {
                &&& res@.len() == 2
                &&& res@[0] matches Msg::Identity { account_id } && account_id@ == "unavailable"@
                &&& res@[1] matches Msg::Error { req, text } && req == GLOBAL_REQ && text@
                    == identity_error_text(err)
            },
        },
{
    let mut out: Vec<Msg> = Vec::new();
    match result {
        Ok(id) => {
            out.push(Msg::Identity { account_id: id.account_id });
        },
        Err(err) => {
            out.push(Msg::Identity { account_id: "unavailable".to_string() });
            proof {
                reveal_strlit("STS client");
                reveal_strlit("STS client: ");
                reveal_strlit("identity lookup failed");
                reveal_strlit("identity lookup failed: ");
                reveal_strlit(": ");
            }
            assert("STS client"@ + ": "@ == "STS client: "@);
            assert("identity lookup failed"@ + ": "@ == "identity lookup failed: "@);
            match err {
                IdentityError::Client(why) => {
                    out.push(global_error("STS client", why.as_str()));
                },
                IdentityError::Lookup(why) => {
                    out.push(global_error("identity lookup failed", why.as_str()));
                },
            }
        },
    }
    out
}

/// The messages end a command: each is the command's, and the last one, and no other, says that
/// it is done.
pub open spec fn closes(req: u64, messages: Seq<Msg>) -> bool {
    &&& messages.len() > 0
    &&& messages.last() == (Msg::Done { req })
    &&& forall|i: int|
        0 <= i < messages.len() - 1 ==> match #[trigger] messages[i] {
            Msg::Items { req: r, .. } => r == req,
            Msg::Error { req: r, .. } => r == req,
            _ => false,
        }
}

/// What follows the lines of a command that reads: its error, if it failed, and that it is done.
pub fn closing(req: u64, result: Result<(), AwsLogsError>) -> (res: Vec<Msg>)
    ensures
        closes(req, res@),
        match result {
            Ok(()) => res@ == seq![Msg::Done { req }],
            Err(e) => {
                &&& res@.len() == 2
                &&& res@[0] matches Msg::Error { req: r, text } && r == req && text@
                    == e.hint_text()
            },
        },
{
    let mut out: Vec<Msg> = Vec::new();
    if let Err(e) = &result {
        out.push(error_message(req, e));
    }
    out.push(Msg::Done { req });
    out
}

/// The answer to a command for a list: the entries, or the error, and that it is done.
pub fn listing(req: u64, result: Result<Vec<String>, AwsLogsError>) -> (res: Vec<Msg>)
    ensures
        closes(req, res@),
        res@.len() == 2,
        match result {
            Ok(items) => res@[0] == (Msg::Items { req, items }),
            Err(e) => res@[0] matches Msg::Error { req: r, text } && r == req && text@
                == e.hint_text(),
        },
{
    let mut out: Vec<Msg> = Vec::new();
    match result {
        Ok(items) => {
            out.push(Msg::Items { req, items });
        },
        Err(e) => {
            out.push(error_message(req, &e));
        },
    }
    out.push(Msg::Done { req });
    out
}

/// The entries of a list of streams, under one for all of them.
pub fn stream_items(streams: Vec<String>) -> (res: Vec<String>)
    ensures
        text::texts(res@) == seq![ALL_STREAMS@] + text::texts(streams@),
{
    let mut items = streams;
    items.insert(0, ALL_STREAMS.to_string());
    assert(text::texts(items@) == seq![ALL_STREAMS@] + text::texts(streams@));
    items
}

/// The entries of a list of shards, under one for all of them.
pub fn shard_items(shards: Vec<ShardInfo>) -> (res: Vec<String>)
    ensures
        text::texts(res@) == seq![ALL_SHARDS@] + shards@.map_values(
            |s: ShardInfo| s.shard_id@,
        ),
{
    let mut items: Vec<String> = Vec::new();
    items.push(ALL_SHARDS.to_string());
    let mut i: usize = 0;
    while i < shards.len()
        invariant
            i <= shards@.len(),
            text::texts(items@) == seq![ALL_SHARDS@] + shards@.take(i as int).map_values(
                |s: ShardInfo| s.shard_id@,
            ),
        decreases shards.len() - i,
    {
        let ghost before = items@;
        items.push(shards[i].shard_id.clone());
        assert(text::texts(items@) == text::texts(before).push(shards@[i as int].shard_id@));
        assert(shards@.take(i + 1).map_values(|s: ShardInfo| s.shard_id@) == shards@.take(
            i as int,
        ).map_values(|s: ShardInfo| s.shard_id@).push(shards@[i as int].shard_id@));
        i += 1;
    }
    assert(shards@.take(i as int) == shards@);
    items
}

// ── configurations ──────────────────────────────────────────────────────────
/// The time that lies the given number of minutes before the present, in milliseconds since
/// the epoch.
pub fn now_minus_minutes(minutes: i64) -> (res: i64)
    requires
        -150_000_000_000_000 <= minutes <= 150_000_000_000_000,
    ensures
        exists|now: i64| #[trigger] time::clock_shows(now) && res == now - minutes * 60_000,
{
    let now = calendar::system_millis();
    assert(time::clock_shows(now));
    now - minutes * 60_000
}

/// The configuration that lists the streams of a group.
pub fn streams_config(group: String) -> (res: AwsLogsConfig)
    ensures
        res.log_group_name == Some(group),
        (AwsLogsConfig { log_group_name: None, ..res }).is_default(),
{
    let base = AwsLogsConfig::default();
    AwsLogsConfig { log_group_name: Some(group), ..base }
}

/// Whether a view of logs looks back only a while. A single stream that is not watched is shown
/// with all of its history, however long it has been idle; watching keeps each look cheap, and
/// all streams of a group together would be too much.
pub open spec fn looks_back(one_stream: bool, watch: bool) -> bool {
    !one_stream || watch
}

/// The configuration of a view of logs, which looks back to `start` or is open there. A single
/// stream is read by its exact name.
pub open spec fn is_logs_config(
    group: Seq<char>,
    stream: Option<Seq<char>>,
    filter: Option<Seq<char>>,
    watch: bool,
    start: Option<i64>,
    cfg: AwsLogsConfig,
) -> bool {
    &&& text::opt_text(cfg.log_group_name) == Some(group)
    &&& text::opt_text(cfg.log_stream_name) == Some(
        match stream {
            Some(s) => s,
            None => "ALL"@,
        },
    )
    &&& match (cfg.explicit_streams, stream) {
        (Some(names), Some(s)) => text::texts(names@) == seq![s],
        (None, None) => true,
        _ => false,
    }
    &&& text::opt_text(cfg.filter_pattern) == filter
    &&& cfg.start == start
    &&& cfg.watch == watch
    &&& cfg.color == ColorPreference::Never
    &&& !cfg.output_group_enabled
    &&& cfg.output_stream_enabled
    &&& cfg.output_timestamp_enabled
    &&& !cfg.output_ingestion_time_enabled
    &&& cfg.log_group_prefix is None
    &&& cfg.end is None
    &&& logs::duration_parts(cfg.watch_interval) == (1u64, 0u32)
    &&& cfg.query is None
}

/// The configuration of a view of logs, which looks back to `start` or is open there.
pub fn logs_config(
    group: String,
    stream: Option<String>,
    filter: Option<String>,
    watch: bool,
    start: Option<i64>,
) -> (res: AwsLogsConfig)
    ensures
        is_logs_config(
            group@,
            text::opt_text(stream),
            text::opt_text(filter),
            watch,
            start,
            res,
        ),
{
    let explicit_streams = match &stream {
        Some(s) => {
            let mut names: Vec<String> = Vec::new();
            names.push(s.clone());
            assert(text::texts(names@) == seq![s@]);
            Some(names)
        },
        None => None,
    };
    let base = AwsLogsConfig::default();
    AwsLogsConfig {
        log_group_name: Some(group),
        log_stream_name: Some(
            match stream {
                Some(s) => s,
                None => "ALL".to_string(),
            },
        ),
        explicit_streams,
        filter_pattern: filter,
        start,
        watch,
        color: ColorPreference::Never,
        output_group_enabled: false,
        output_stream_enabled: true,
        output_timestamp_enabled: true,
        ..base
    }
}

/// The configuration of a view of logs that is opened now.
pub fn logs_settings(
    group: String,
    stream: Option<String>,
    filter: Option<String>,
    watch: bool,
) -> (res: AwsLogsConfig)
    ensures
        is_logs_config(
            group@,
            text::opt_text(stream),
            text::opt_text(filter),
            watch,
            res.start,
            res,
        ),
        starts_now(res.start, stream is Some, watch),
{
    let start = if stream.is_some() && !watch {
        None
    } else {
        Some(now_minus_minutes(DEFAULT_LOOKBACK_MIN))
    };
    logs_config(group, stream, filter, watch, start)
}

/// The configuration of a view of records, which looks back to `start`.
pub open spec fn is_search_config(
    stream: Seq<char>,
    shard: Option<Seq<char>>,
    filter: Option<Seq<char>>,
    watch: bool,
    start: i64,
    cfg: KinesisSearchConfig,
) -> bool {
    &&& cfg.stream_name@ == stream
    &&& text::texts(cfg.shard_ids@) == match shard {
        Some(s) => seq![s],
        None => Seq::empty(),
    }
    &&& text::opt_text(cfg.filter_pattern) == filter
    &&& !cfg.regex
    &&& cfg.start == Some(start)
    &&& cfg.end is None
    &&& cfg.watch == watch
    &&& logs::duration_parts(cfg.watch_interval) == (1u64, 0u32)
    &&& cfg.color == ColorPreference::Never
    &&& cfg.output_shard_enabled
    &&& cfg.output_timestamp_enabled
    &&& cfg.query is None
}

/// The configuration of a view of records, which looks back to `start`.
pub fn search_config(
    stream: String,
    shard: Option<String>,
    filter: Option<String>,
    watch: bool,
    start: i64,
) -> (res: KinesisSearchConfig)
    ensures
        is_search_config(
            stream@,
            text::opt_text(shard),
            text::opt_text(filter),
            watch,
            start,
            res,
        ),
{
    let mut shard_ids: Vec<String> = Vec::new();
    assert(text::texts(shard_ids@) == Seq::<Seq<char>>::empty());
    if let Some(s) = shard {
        shard_ids.push(s);
        assert(text::texts(shard_ids@) == seq![s@]);
    }
    let base = KinesisSearchConfig::default();
    KinesisSearchConfig {
        stream_name: stream,
        filter_pattern: filter,
        shard_ids,
        start: Some(start),
        watch,
        color: ColorPreference::Never,
        output_shard_enabled: true,
        output_timestamp_enabled: true,
        ..base
    }
}

/// The configuration of a view of records that is opened now.
pub fn search_settings(
    stream: String,
    shard: Option<String>,
    filter: Option<String>,
    watch: bool,
) -> (res: KinesisSearchConfig)
    ensures
        exists|now: i64| #[trigger]
            time::clock_shows(now) && is_search_config(
                stream@,
                text::opt_text(shard),
                text::opt_text(filter),
                watch,
                (now - DEFAULT_LOOKBACK_MIN * 60_000) as i64,
                res,
            ),
{
    let start = now_minus_minutes(DEFAULT_LOOKBACK_MIN);
    search_config(stream, shard, filter, watch, start)
}

/// What the engine does for a command.
#[derive(Debug)]
pub enum Work {
    /// List the groups.
    Groups { req: u64, cfg: AwsLogsConfig },
    /// List the streams of the configured group, under an entry for all of them.
    Streams { req: u64, cfg: AwsLogsConfig },
    /// Read logs.
    Logs { req: u64, cfg: AwsLogsConfig },
    /// List the shards of a stream, under an entry for all of them.
    Shards { req: u64, stream: String },
    /// Read records.
    Search { req: u64, cfg: KinesisSearchConfig },
}

/// The start of a view of logs that is opened now.
pub open spec fn starts_now(start: Option<i64>, one_stream: bool, watch: bool) -> bool {
    &&& start is Some == looks_back(one_stream, watch)
    &&& start matches Some(t) ==> exists|now: i64| #[trigger]
        time::clock_shows(now) && t == now - DEFAULT_LOOKBACK_MIN * 60_000
}

/// The work is what the request asks for.
pub open spec fn serves(request: Request, work: Work) -> bool {
    match request {
        Request::Groups { req } => work matches Work::Groups { req: r, cfg } && r == req
            && cfg.is_default(),
        Request::Streams { req, group } => work matches Work::Streams { req: r, cfg } && r == req
            && text::opt_text(cfg.log_group_name) == Some(group) && (AwsLogsConfig {
            log_group_name: None,
            ..cfg
        }).is_default(),
        Request::Logs { req, group, stream, filter, watch } => work matches Work::Logs {
            req: r,
            cfg,
        } && r == req && is_logs_config(group, stream, filter, watch, cfg.start, cfg)
            && starts_now(cfg.start, stream is Some, watch),
        Request::Shards { req, stream } => work matches Work::Shards { req: r, stream: name } && r
            == req && name@ == stream,
        Request::Search { req, stream, shard, filter, watch } => work matches Work::Search {
            req: r,
            cfg,
        } && r == req && exists|now: i64| #[trigger]
            time::clock_shows(now) && is_search_config(
                stream,
                shard,
                filter,
                watch,
                (now - DEFAULT_LOOKBACK_MIN * 60_000) as i64,
                cfg,
            ),
    }
}

/// What the engine does for a command that comes now.
pub fn work_of(cmd: EngineCmd) -> (res: Work)
    ensures
        serves(cmd@, res),
{
    match cmd {
        EngineCmd::Groups { req } => Work::Groups { req, cfg: AwsLogsConfig::default() },
        EngineCmd::Streams { req, group } => Work::Streams { req, cfg: streams_config(group) },
        EngineCmd::Logs { req, group, stream, filter, watch } => Work::Logs {
            req,
            cfg: logs_settings(group, stream, filter, watch),
        },
        EngineCmd::Shards { req, stream } => Work::Shards { req, stream },
        EngineCmd::Search { req, stream, shard, filter, watch } => Work::Search {
            req,
            cfg: search_settings(stream, shard, filter, watch),
        },
    }
}

/// The id of the command that the work is for.
pub open spec fn work_id(work: Work) -> u64 {
    match work {
        Work::Groups { req, .. } => req,
        Work::Streams { req, .. } => req,
        Work::Logs { req, .. } => req,
        Work::Shards { req, .. } => req,
        Work::Search { req, .. } => req,
    }
}

/// The service that the work needs a client of.
pub open spec fn service_text(work: Work) -> Seq<char> {
    match work {
        Work::Shards { .. } => "Kinesis"@,
        Work::Search { .. } => "Kinesis"@,
        _ => "CloudWatch"@,
    }
}

/// The answer to a command whose client did not start: that it is not there, and that the command
/// is done.
pub fn unavailable(work: &Work) -> (res: Vec<Msg>)
    ensures
        closes(work_id(*work), res@),
        res@.len() == 2,
        res@[0] matches Msg::Error { req, text } && req == work_id(*work) && text@ == service_text(
            *work,
        ) + " client unavailable"@,
{
    let (req, service) = match work {
        Work::Groups { req, .. } => (*req, "CloudWatch"),
        Work::Streams { req, .. } => (*req, "CloudWatch"),
        Work::Logs { req, .. } => (*req, "CloudWatch"),
        Work::Shards { req, .. } => (*req, "Kinesis"),
        Work::Search { req, .. } => (*req, "Kinesis"),
    };
    let mut text = service.to_string();
    text.append(" client unavailable");
    let mut out: Vec<Msg> = Vec::new();
    out.push(Msg::Error { req, text });
    out.push(Msg::Done { req });
    out
}

// ── lines ───────────────────────────────────────────────────────────────────
/// The completed lines in a run of bytes, without their line ends.
pub open spec fn lines_of(bytes: Seq<u8>) -> Seq<Seq<u8>>
    decreases bytes.len(),
{
    if bytes.len() == 0 {
        Seq::empty()
    } else if bytes.last() == 10 {
        lines_of(bytes.drop_last()).push(tail_of(bytes.drop_last()))
    } else {
        lines_of(bytes.drop_last())
    }
}

/// The bytes behind the last line end.
pub open spec fn tail_of(bytes: Seq<u8>) -> Seq<u8>
    decreases bytes.len(),
{
    if bytes.len() == 0 {
        Seq::empty()
    } else if bytes.last() == 10 {
        Seq::empty()
    } else {
        tail_of(bytes.drop_last()).push(bytes.last())
    }
}

/// The texts of a sequence of lines.
pub open spec fn spelled(lines: Seq<Seq<u8>>) -> Seq<Seq<char>> {
    lines.map_values(|line: Seq<u8>| text::lossy_text(line))
}

/// Collects bytes, and hands out a line whenever its line end has come.
pub struct LineBuffer {
    buf: Vec<u8>,
}

impl LineBuffer {
    /// The bytes of the line that is not complete yet.
    pub closed spec fn pending(self) -> Seq<u8> {
        self.buf@
    }

    pub closed spec fn wf(self) -> bool {
        tail_of(self.buf@) == self.buf@ && lines_of(self.buf@).len() == 0
    }

    /// An empty buffer.
    pub fn new() -> (res: LineBuffer)
        ensures
            res.wf(),
            res.pending() == Seq::<u8>::empty(),
    {
        LineBuffer { buf: Vec::new() }
    }

    /// Takes bytes in, and gives the lines that they complete.
    pub fn write(&mut self, data: &[u8]) -> (res: Vec<String>)
        requires
            old(self).wf(),
        ensures
            final(self).wf(),
            text::texts(res@) == spelled(lines_of(old(self).pending() + data@)),
            final(self).pending() == tail_of(old(self).pending() + data@),
    {
        let mut lines: Vec<String> = Vec::new();
        let mut i: usize = 0;
        let ghost start = self.buf@;
        assert(start + data@.take(0) == start);
        assert(text::texts(lines@) == spelled(lines_of(start)));
        while i < data.len()
            invariant
                i <= data@.len(),
                self.wf(),
                text::texts(lines@) == spelled(lines_of(start + data@.take(i as int))),
                self.buf@ == tail_of(start + data@.take(i as int)),
            decreases data.len() - i,
        {
            let b: u8 = data[i];
            let ghost so_far = start + data@.take(i + 1);
            assert(so_far.drop_last() == start + data@.take(i as int));
            assert(so_far.last() == b);
            if b == 10 {
                let ghost before = lines@;
                let line = text::decode_lossy(&self.buf);
                lines.push(line);
                assert(text::texts(lines@) == text::texts(before).push(line@));
                assert(spelled(lines_of(so_far)) == spelled(
                    lines_of(start + data@.take(i as int)),
                ).push(text::lossy_text(self.buf@)));
                self.buf = Vec::new();
            } else {
                let ghost held = self.buf@;
                self.buf.push(b);
                assert(self.buf@.drop_last() == held);
            }
            i += 1;
        }
        assert(data@.take(i as int) == data@);
        lines
    }
}

/// Lines and the rest do not depend on how the bytes were cut into writes: two writes complete
/// the lines that one write of both would, and leave the same rest.
pub proof fn law_writes_join(pending: Seq<u8>, a: Seq<u8>, b: Seq<u8>)
    ensures
        lines_of(pending + (a + b)) == lines_of(pending + a) + lines_of(tail_of(pending + a) + b),
        tail_of(pending + (a + b)) == tail_of(tail_of(pending + a) + b),
    decreases b.len(),
{
    let whole = pending + (a + b);
    let first = pending + a;
    let rest = tail_of(first) + b;
    if b.len() == 0 {
        assert(whole == first);
        assert(rest == tail_of(first));
        lemma_tail_has_no_lines(first);
        assert(lines_of(first) + lines_of(rest) == lines_of(first));
    } else {
        law_writes_join(pending, a, b.drop_last());
        assert(whole.drop_last() == pending + (a + b.drop_last()));
        assert(rest.drop_last() == tail_of(first) + b.drop_last());
        assert(whole.last() == b.last());
        assert(rest.last() == b.last());
        if b.last() == 10 {
            assert(lines_of(first) + lines_of(rest.drop_last()).push(tail_of(rest.drop_last()))
                == (lines_of(first) + lines_of(rest.drop_last())).push(
                tail_of(rest.drop_last()),
            ));
        }
    }
}

/// The bytes behind the last line end hold no line.
proof fn lemma_tail_has_no_lines(bytes: Seq<u8>)
    ensures
        lines_of(tail_of(bytes)).len() == 0,
        tail_of(tail_of(bytes)) == tail_of(bytes),
    decreases bytes.len(),
{
    if bytes.len() > 0 && bytes.last() != 10 {
        lemma_tail_has_no_lines(bytes.drop_last());
        assert(tail_of(bytes).drop_last() == tail_of(bytes.drop_last()));
    }
}

/// Bytes are cut at their line ends and nowhere else: the lines, each with a line end behind it, and
/// the rest are the bytes that came, and neither a line nor the rest holds a line end.
pub proof fn law_lines_are_cut_at_line_ends(bytes: Seq<u8>)
    ensures
        rejoined(lines_of(bytes)) + tail_of(bytes) == bytes,
        forall|i: int|
            0 <= i < lines_of(bytes).len() ==> !(#[trigger] lines_of(bytes)[i]).contains(10u8),
        !tail_of(bytes).contains(10u8),
    decreases bytes.len(),
{
    if bytes.len() > 0 {
        let front = bytes.drop_last();
        law_lines_are_cut_at_line_ends(front);
        assert(bytes == front.push(bytes.last()));
        if bytes.last() == 10 {
            let lines = lines_of(bytes);
            assert(lines.drop_last() == lines_of(front));
            assert(lines.last() == tail_of(front));
            assert(rejoined(lines) + tail_of(bytes) == bytes);
            assert forall|i: int| 0 <= i < lines.len() implies !(#[trigger] lines[i]).contains(
                10u8,
            ) by {
                if i < lines_of(front).len() {
                    assert(lines[i] == lines_of(front)[i]);
                }
            }
        } else {
            assert(rejoined(lines_of(bytes)) + tail_of(bytes) == bytes);
            let tail = tail_of(bytes);
            assert forall|i: int| 0 <= i < tail.len() implies tail[i] != 10u8 by {
                if i < tail_of(front).len() {
                    assert(tail[i] == tail_of(front)[i]);
                    assert(tail_of(front).contains(tail_of(front)[i]));
                }
            }
        }
    }
}

/// Lines, each with a line end behind it, one after the other.
pub open spec fn rejoined(lines: Seq<Seq<u8>>) -> Seq<u8>
    decreases lines.len(),
{
    if lines.len() == 0 {
        Seq::empty()
    } else {
        rejoined(lines.drop_last()) + lines.last().push(10u8)
    }
}

/// Each line is spelled from its own bytes, in order.
pub proof fn law_lines_are_spelled(lines: Seq<Seq<u8>>, i: int)
    ensures
        spelled(lines).len() == lines.len(),
        0 <= i < lines.len() ==> spelled(lines)[i] == text::lossy_text(lines[i]),
{
}

/// A command says what it was made with, under the same names, and its id is its own.
pub proof fn law_commands_are_told(
    req: u64,
    name: String,
    one: Option<String>,
    filter: Option<String>,
    watch: bool,
)
    ensures
        (EngineCmd::Groups { req })@ == (Request::Groups { req: req as int }),
        (EngineCmd::Streams { req, group: name })@ == (Request::Streams {
            req: req as int,
            group: name@,
        }),
        (EngineCmd::Logs { req, group: name, stream: one, filter, watch })@ == (Request::Logs {
            req: req as int,
            group: name@,
            stream: text::opt_text(one),
            filter: text::opt_text(filter),
            watch,
        }),
        (EngineCmd::Shards { req, stream: name })@ == (Request::Shards {
            req: req as int,
            stream: name@,
        }),
        (EngineCmd::Search { req, stream: name, shard: one, filter, watch })@ == (Request::Search {
            req: req as int,
            stream: name@,
            shard: text::opt_text(one),
            filter: text::opt_text(filter),
            watch,
        }),
        (EngineCmd::Groups { req })@.id() == req,
        (EngineCmd::Streams { req, group: name })@.id() == req,
        (EngineCmd::Logs { req, group: name, stream: one, filter, watch })@.id() == req,
        (EngineCmd::Shards { req, stream: name })@.id() == req,
        (EngineCmd::Search { req, stream: name, shard: one, filter, watch })@.id() == req,
{
}

/// What is said where a part does not start, or where the caller is not known.
pub proof fn law_startup_texts(why: String)
    ensures
        part_text(Part::Runtime) == "failed to start runtime"@,
        part_text(Part::CloudWatch) == "CloudWatch client"@,
        part_text(Part::Kinesis) == "Kinesis client"@,
        identity_error_text(IdentityError::Client(why)) == "STS client: "@ + why@,
        identity_error_text(IdentityError::Lookup(why)) == "identity lookup failed: "@ + why@,
{
}

/// A command is closed once: the last message says that it is done, no other does, and all of them
/// are the command's own.
pub proof fn law_commands_are_closed_once(req: u64, messages: Seq<Msg>, i: int)
    requires
        closes(req, messages),
    ensures
        messages.len() > 0,
        messages[messages.len() - 1] == (Msg::Done { req }),
        0 <= i < messages.len() - 1 ==> match messages[i] {
            Msg::Items { req: r, .. } => r == req,
            Msg::Error { req: r, .. } => r == req,
            Msg::Done { .. } => false,
            _ => false,
        },
{
}

/// A view of logs reads the group that was asked for: of it the one stream that was named, by that
/// very name, or all streams where none was. It filters and watches as asked, and prints stream and
/// time without color.
pub proof fn law_views_of_logs(
    group: Seq<char>,
    stream: Option<Seq<char>>,
    filter: Option<Seq<char>>,
    watch: bool,
    start: Option<i64>,
    cfg: AwsLogsConfig,
)
    requires
        is_logs_config(group, stream, filter, watch, start, cfg),
    ensures
        cfg.log_group_name matches Some(g) && g@ == group,
        stream matches Some(s) ==> (cfg.explicit_streams matches Some(names) && names@.len() == 1
            && names@[0]@ == stream->0),
        stream is None ==> cfg.explicit_streams is None && (cfg.log_stream_name matches Some(s)
            && s@ == "ALL"@),
        filter is None ==> cfg.filter_pattern is None,
        filter is Some ==> (cfg.filter_pattern matches Some(f) && f@ == filter->0),
        cfg.start == start && cfg.end is None && cfg.watch == watch,
        cfg.color == ColorPreference::Never,
        !cfg.output_group_enabled && cfg.output_stream_enabled && cfg.output_timestamp_enabled,
        !cfg.output_ingestion_time_enabled && cfg.query is None && cfg.log_group_prefix is None,
        logs::duration_parts(cfg.watch_interval) == (1u64, 0u32),
{
    if let (Some(names), Some(s)) = (cfg.explicit_streams, stream) {
        assert(text::texts(names@).len() == names@.len());
        assert(text::texts(names@)[0] == names@[0]@);
    }
}

/// A view of records reads the stream that was asked for: of it the one shard that was named, or
/// all. It filters by text and watches as asked, and prints shard and time without color.
pub proof fn law_views_of_records(
    stream: Seq<char>,
    shard: Option<Seq<char>>,
    filter: Option<Seq<char>>,
    watch: bool,
    start: i64,
    cfg: KinesisSearchConfig,
)
    requires
        is_search_config(stream, shard, filter, watch, start, cfg),
    ensures
        cfg.stream_name@ == stream,
        shard is Some ==> cfg.shard_ids@.len() == 1 && cfg.shard_ids@[0]@ == shard->0,
        shard is None ==> cfg.shard_ids@.len() == 0,
        filter is None ==> cfg.filter_pattern is None,
        filter is Some ==> (cfg.filter_pattern matches Some(f) && f@ == filter->0),
        !cfg.regex && cfg.query is None,
        cfg.start == Some(start) && cfg.end is None && cfg.watch == watch,
        cfg.color == ColorPreference::Never,
        cfg.output_shard_enabled && cfg.output_timestamp_enabled,
        logs::duration_parts(cfg.watch_interval) == (1u64, 0u32),
{
    assert(text::texts(cfg.shard_ids@).len() == cfg.shard_ids@.len());
    if cfg.shard_ids@.len() > 0 {
        assert(text::texts(cfg.shard_ids@)[0] == cfg.shard_ids@[0]@);
    }
}

/// A single stream that is not watched is shown with all of its history; any other view looks back
/// thirty minutes from what the clock shows.
pub proof fn law_views_look_back(start: Option<i64>, one_stream: bool, watch: bool)
    requires
        starts_now(start, one_stream, watch),
    ensures
        one_stream && !watch ==> start is None,
        !one_stream || watch ==> (start matches Some(t) && exists|now: i64|
            0 <= now && #[trigger] time::clock_shows(now) && t == now - 30 * 60 * 1000),
{
}

/// The work for a request is what it asks for, under the request's id.
pub proof fn law_work_serves_the_request(request: Request, work: Work)
    requires
        serves(request, work),
    ensures
        work_id(work) == request.id(),
        request is Groups <==> work is Groups,
        request is Streams <==> work is Streams,
        request is Logs <==> work is Logs,
        request is Shards <==> work is Shards,
        request is Search <==> work is Search,
        request matches Request::Streams { req, group } ==> (work matches Work::Streams { req: r, cfg }
            && cfg.log_group_name is Some && cfg.log_group_name->0@ == group),
        request matches Request::Shards { req, stream } ==> (work matches Work::Shards {
            req: r,
            stream: name,
        } && name@ == stream),
        request matches Request::Logs { req, group, stream, filter, watch } ==> (
        work matches Work::Logs { req: r, cfg } && is_logs_config(
            group,
            stream,
            filter,
            watch,
            cfg.start,
            cfg,
        ) && starts_now(cfg.start, stream is Some, watch)),
        request matches Request::Search { req, stream, shard, filter, watch } ==> (
        work matches Work::Search { req: r, cfg } && cfg.start is Some && is_search_config(
            stream,
            shard,
            filter,
            watch,
            cfg.start->0,
            cfg,
        ) && exists|now: i64|
            0 <= now && #[trigger] time::clock_shows(now) && cfg.start->0 == now - 30 * 60 * 1000),
        request is Groups ==> (work matches Work::Groups { req: r, cfg } && cfg.is_default()),
{
    if let Request::Search { req, stream, shard, filter, watch } = request {
        if let Work::Search { req: r, cfg } = work {
            let now = choose|now: i64| #[trigger]
                time::clock_shows(now) && is_search_config(
                    stream,
                    shard,
                    filter,
                    watch,
                    (now - DEFAULT_LOOKBACK_MIN * 60_000) as i64,
                    cfg,
                );
            assert(time::clock_shows(now));
            assert(cfg.start->0 == now - 30 * 60 * 1000);
        }
    }
}

/// Shards and records come from Kinesis, everything else from CloudWatch; and each work has the id
/// that it was made with.
pub proof fn law_services(req: u64, cfg: AwsLogsConfig, search: KinesisSearchConfig, stream: String)
    ensures
        service_text(Work::Groups { req, cfg }) == "CloudWatch"@,
        service_text(Work::Streams { req, cfg }) == "CloudWatch"@,
        service_text(Work::Logs { req, cfg }) == "CloudWatch"@,
        service_text(Work::Shards { req, stream }) == "Kinesis"@,
        service_text(Work::Search { req, cfg: search }) == "Kinesis"@,
        work_id(Work::Groups { req, cfg }) == req,
        work_id(Work::Streams { req, cfg }) == req,
        work_id(Work::Logs { req, cfg }) == req,
        work_id(Work::Shards { req, stream }) == req,
        work_id(Work::Search { req, cfg: search }) == req,
{
}

} // verus!
