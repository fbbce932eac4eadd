//! The command line: its arguments, the configurations that they stand for, and how a result
//! becomes an exit code and a message.

use std::time::Duration;

use vstd::prelude::*;

use crate::client::AwsCredentialOptions;
use crate::exceptions::AwsLogsError;
use crate::kinesis::KinesisSearchConfig;
use crate::logs;
use crate::logs::{AwsLogsConfig, Color, ColorPreference};
use crate::text;
use crate::time;

verus! {

/// A command line. Without a command there is only the help to show.
#[derive(Debug)]
pub struct Cli {
    pub command: Option<Command>,
}

#[derive(Debug)]
pub enum Command {
    /// Get logs.
    Get(GetArgs),
    /// List groups.
    Groups(GroupsArgs),
    /// List streams.
    Streams(StreamsArgs),
    /// Read a Kinesis stream.
    Kinesis(KinesisCommand),
    /// Browse logs and records in the terminal.
    Tui(CommonAwsArgs),
}

#[derive(Debug)]
pub enum KinesisCommand {
    /// List shards.
    Shards(KinesisShardsArgs),
    /// Search records.
    Search(KinesisSearchArgs),
}

/// Where credentials, region and endpoint come from.
#[derive(Debug, Clone)]
pub struct CommonAwsArgs {
    pub aws_access_key_id: Option<String>,
    pub aws_secret_access_key: Option<String>,
    pub aws_session_token: Option<String>,
    pub aws_profile: Option<String>,
    pub aws_region: Option<String>,
    pub aws_endpoint_url: Option<String>,
}

impl CommonAwsArgs {
    /// The same, as the clients take it.
    pub fn into_credential_options(self) -> (res: AwsCredentialOptions)
        ensures
            res == (AwsCredentialOptions {
                profile: self.aws_profile,
                region: self.aws_region,
                access_key_id: self.aws_access_key_id,
                secret_access_key: self.aws_secret_access_key,
                session_token: self.aws_session_token,
                endpoint_url: self.aws_endpoint_url,
            }),
    {
        AwsCredentialOptions {
            profile: self.aws_profile,
            region: self.aws_region,
            access_key_id: self.aws_access_key_id,
            secret_access_key: self.aws_secret_access_key,
            session_token: self.aws_session_token,
            endpoint_url: self.aws_endpoint_url,
        }
    }
}

/// When to color output.
#[derive(Debug, Clone, Copy, PartialEq, Eq, Structural)]
pub enum ColorWhen {
    Auto,
    Always,
    Never,
}

impl From<ColorWhen> for ColorPreference {
    fn from(value: ColorWhen) -> (res: ColorPreference) {
        match value {
            ColorWhen::Auto => ColorPreference::Auto,
            ColorWhen::Always => ColorPreference::Always,
            ColorWhen::Never => ColorPreference::Never,
        }
    }
}

impl vstd::std_specs::convert::FromSpecImpl<ColorWhen> for ColorPreference {
    open spec fn obeys_from_spec() -> bool {
        true
    }

    open spec fn from_spec(value: ColorWhen) -> ColorPreference {
        match value {
            ColorWhen::Auto => ColorPreference::Auto,
            ColorWhen::Always => ColorPreference::Always,
            ColorWhen::Never => ColorPreference::Never,
        }
    }
}

/// The arguments of `get`.
#[derive(Debug)]
pub struct GetArgs {
    pub log_group_name: String,
    pub log_stream_name: String,
    /// A CloudWatch filter pattern.
    pub filter_pattern: Option<String>,
    /// Look for new events again and again.
    pub watch: bool,
    /// Seconds between two looks.
    pub watch_interval: u64,
    pub output_group_enabled: bool,
    pub output_stream_enabled: bool,
    pub output_timestamp_enabled: bool,
    pub output_ingestion_time_enabled: bool,
    pub start: String,
    pub end: Option<String>,
    pub color: ColorWhen,
    /// A JMESPath query.
    pub query: Option<String>,
    pub common: CommonAwsArgs,
}

/// The arguments of `groups`.
#[derive(Debug)]
pub struct GroupsArgs {
    /// List only groups whose names begin with this.
    pub log_group_prefix: Option<String>,
    pub common: CommonAwsArgs,
}

/// The arguments of `streams`.
#[derive(Debug)]
pub struct StreamsArgs {
    pub log_group_name: String,
    pub start: String,
    pub end: Option<String>,
    pub common: CommonAwsArgs,
}

/// The arguments of `kinesis shards`.
#[derive(Debug)]
pub struct KinesisShardsArgs {
    pub stream_name: String,
    pub common: CommonAwsArgs,
}

/// The arguments of `kinesis search`.
#[derive(Debug)]
pub struct KinesisSearchArgs {
    pub stream_name: String,
    /// What to find in a payload.
    pub filter_pattern: Option<String>,
    /// `filter_pattern` is a regular expression, not a text.
    pub regex: bool,
    /// The shards to read; none named means all.
    pub shard_ids: Vec<String>,
    /// Without a start, the oldest record is the first.
    pub start: Option<String>,
    pub end: Option<String>,
    /// Look for new records again and again.
    pub watch: bool,
    /// Seconds between two looks.
    pub watch_interval: u64,
    pub output_shard_enabled: bool,
    pub output_timestamp_enabled: bool,
    pub color: ColorWhen,
    /// A JMESPath query.
    pub query: Option<String>,
    pub common: CommonAwsArgs,
}

// ── configurations ──────────────────────────────────────────────────────────
/// What reading the two ends of a window gives: the end is looked at after the start, and an
/// end that is not given stays open.
pub open spec fn window_read(
    start: Option<Seq<char>>,
    end: Option<Seq<char>>,
    res: Result<(Option<i64>, Option<i64>), AwsLogsError>,
) -> bool {
    match res {
        Ok((from, to)) => {
            &&& time::read_today(start, Ok(from))
            &&& time::read_today(end, Ok(to))
        },
        Err(e) => {
            ||| (start is Some && time::read_today(start, Err(e)))
            ||| {
                &&& exists|from: Option<i64>| time::read_today(start, Ok(from))
                &&& end is Some
                &&& time::read_today(end, Err(e))
            }
        },
    }
}

/// Reads the two ends of a window against the clock of the machine.
pub fn read_window(start: Option<&str>, end: &Option<String>) -> (res: Result<
    (Option<i64>, Option<i64>),
    AwsLogsError,
>)
    ensures
        window_read(time::argument(start), text::opt_text(*end), res),
{
    let from = match time::parse_datetime(start) {
        Ok(from) => from,
        Err(e) => return Err(e),
    };
    assert(time::read_today(time::argument(start), Ok(from)));
    let to = match end {
        Some(s) => match time::parse_datetime(Some(s.as_str())) {
            Ok(to) => to,
            Err(e) => return Err(e),
        },
        None => None,
    };
    Ok((from, to))
}

impl GetArgs {
    /// The configuration of a `get` between the two times.
    pub open spec fn configures(
        self,
        start: Option<i64>,
        end: Option<i64>,
        cfg: AwsLogsConfig,
    ) -> bool {
        &&& text::opt_text(cfg.log_group_name) == Some(self.log_group_name@)
        &&& text::opt_text(cfg.log_stream_name) == Some(self.log_stream_name@)
        &&& cfg.log_group_prefix is None
        &&& cfg.filter_pattern == self.filter_pattern
        &&& cfg.explicit_streams is None
        &&& cfg.start == start
        &&& cfg.end == end
        &&& cfg.watch == self.watch
        &&& logs::duration_parts(cfg.watch_interval) == (self.watch_interval, 0u32)
        &&& cfg.color == match self.color {
            ColorWhen::Auto => ColorPreference::Auto,
            ColorWhen::Always => ColorPreference::Always,
            ColorWhen::Never => ColorPreference::Never,
        }
        &&& cfg.output_group_enabled == self.output_group_enabled
        &&& cfg.output_stream_enabled == self.output_stream_enabled
        &&& cfg.output_timestamp_enabled == self.output_timestamp_enabled
        &&& cfg.output_ingestion_time_enabled == self.output_ingestion_time_enabled
        &&& cfg.query == self.query
    }

    /// The configuration of a `get` between the two times.
    pub fn config(&self, start: Option<i64>, end: Option<i64>) -> (res: AwsLogsConfig)
        ensures
            self.configures(start, end, res),
    {
        AwsLogsConfig {
            log_group_name: Some(self.log_group_name.clone()),
            log_stream_name: Some(self.log_stream_name.clone()),
            log_group_prefix: None,
            filter_pattern: text::copy_opt(&self.filter_pattern),
            explicit_streams: None,
            start,
            end,
            watch: self.watch,
            watch_interval: Duration::from_secs(self.watch_interval),
            color: ColorPreference::from(self.color),
            output_group_enabled: self.output_group_enabled,
            output_stream_enabled: self.output_stream_enabled,
            output_timestamp_enabled: self.output_timestamp_enabled,
            output_ingestion_time_enabled: self.output_ingestion_time_enabled,
            query: text::copy_opt(&self.query),
        }
    }

    /// The configuration of a `get`, its window read against the clock of the machine.
    pub fn settings(&self) -> (res: Result<AwsLogsConfig, AwsLogsError>)
        ensures
            match res {
                Ok(cfg) => {
                    &&& self.configures(cfg.start, cfg.end, cfg)
                    &&& window_read(Some(self.start@), text::opt_text(self.end), Ok((cfg.start, cfg.end)))
                },
                Err(e) => window_read(Some(self.start@), text::opt_text(self.end), Err(e)),
            },
    {
        match read_window(Some(self.start.as_str()), &self.end) {
            Ok((start, end)) => Ok(self.config(start, end)),
            Err(e) => Err(e),
        }
    }
}

impl GroupsArgs {
    /// The configuration of a `groups`: the default, with the prefix.
    pub fn config(&self) -> (res: AwsLogsConfig)
        ensures
            res.log_group_prefix == self.log_group_prefix,
            (AwsLogsConfig { log_group_prefix: None, ..res }).is_default(),
    {
        let base = AwsLogsConfig::default();
        AwsLogsConfig { log_group_prefix: text::copy_opt(&self.log_group_prefix), ..base }
    }
}

impl StreamsArgs {
    /// The configuration of a `streams` between the two times: the default, with group and
    /// window.
    pub open spec fn configures(
        self,
        start: Option<i64>,
        end: Option<i64>,
        cfg: AwsLogsConfig,
    ) -> bool {
        &&& text::opt_text(cfg.log_group_name) == Some(self.log_group_name@)
        &&& cfg.start == start
        &&& cfg.end == end
        &&& (AwsLogsConfig { log_group_name: None, start: None, end: None, ..cfg }).is_default()
    }

    /// The configuration of a `streams` between the two times.
    pub fn config(&self, start: Option<i64>, end: Option<i64>) -> (res: AwsLogsConfig)
        ensures
            self.configures(start, end, res),
    {
        let base = AwsLogsConfig::default();
        AwsLogsConfig { log_group_name: Some(self.log_group_name.clone()), start, end, ..base }
    }

    /// The configuration of a `streams`, its window read against the clock of the machine.
    pub fn settings(&self) -> (res: Result<AwsLogsConfig, AwsLogsError>)
        ensures
            match res {
                Ok(cfg) => {
                    &&& self.configures(cfg.start, cfg.end, cfg)
                    &&& window_read(Some(self.start@), text::opt_text(self.end), Ok((cfg.start, cfg.end)))
                },
                Err(e) => window_read(Some(self.start@), text::opt_text(self.end), Err(e)),
            },
    {
        match read_window(Some(self.start.as_str()), &self.end) {
            Ok((start, end)) => Ok(self.config(start, end)),
            Err(e) => Err(e),
        }
    }
}

impl KinesisShardsArgs {
    /// The configuration of a `kinesis shards`: the default, with the stream.
    pub fn config(&self) -> (res: KinesisSearchConfig)
        ensures
            res.is_default_for(self.stream_name@),
    {
        let base = KinesisSearchConfig::default();
        KinesisSearchConfig { stream_name: self.stream_name.clone(), ..base }
    }
}

impl KinesisSearchArgs {
    /// The configuration of a `kinesis search` between the two times.
    pub open spec fn configures(
        self,
        start: Option<i64>,
        end: Option<i64>,
        cfg: KinesisSearchConfig,
    ) -> bool {
        &&& cfg.stream_name@ == self.stream_name@
        &&& cfg.filter_pattern == self.filter_pattern
        &&& cfg.regex == self.regex
        &&& cfg.shard_ids@ == self.shard_ids@
        &&& cfg.start == start
        &&& cfg.end == end
        &&& cfg.watch == self.watch
        &&& logs::duration_parts(cfg.watch_interval) == (self.watch_interval, 0u32)
        &&& cfg.color == match self.color {
            ColorWhen::Auto => ColorPreference::Auto,
            ColorWhen::Always => ColorPreference::Always,
            ColorWhen::Never => ColorPreference::Never,
        }
        &&& cfg.output_shard_enabled == self.output_shard_enabled
        &&& cfg.output_timestamp_enabled == self.output_timestamp_enabled
        &&& cfg.query == self.query
    }

    /// The configuration of a `kinesis search` between the two times.
    pub fn config(&self, start: Option<i64>, end: Option<i64>) -> (res: KinesisSearchConfig)
        ensures
            self.configures(start, end, res),
    {
        KinesisSearchConfig {
            stream_name: self.stream_name.clone(),
            filter_pattern: text::copy_opt(&self.filter_pattern),
            regex: self.regex,
            shard_ids: text::copy_all(&self.shard_ids),
            start,
            end,
            watch: self.watch,
            watch_interval: Duration::from_secs(self.watch_interval),
            color: ColorPreference::from(self.color),
            output_shard_enabled: self.output_shard_enabled,
            output_timestamp_enabled: self.output_timestamp_enabled,
            query: text::copy_opt(&self.query),
        }
    }

    /// The configuration of a `kinesis search`, its window read against the clock of the machine.
    pub fn settings(&self) -> (res: Result<KinesisSearchConfig, AwsLogsError>)
        ensures
            match res {
                Ok(cfg) => {
                    &&& self.configures(cfg.start, cfg.end, cfg)
                    &&& window_read(
                        text::opt_text(self.start),
                        text::opt_text(self.end),
                        Ok((cfg.start, cfg.end)),
                    )
                },
                Err(e) => window_read(
                    text::opt_text(self.start),
                    text::opt_text(self.end),
                    Err(e),
                ),
            },
    {
        let start = match &self.start {
            Some(s) => Some(s.as_str()),
            None => None,
        };
        match read_window(start, &self.end) {
            Ok((from, to)) => Ok(self.config(from, to)),
            Err(e) => Err(e),
        }
    }
}

// ── results ─────────────────────────────────────────────────────────────────
/// The messages of an error and its causes as `top: cause: root cause`.
pub fn full_chain(chain: &Vec<String>) -> (res: String)
    ensures
        res@ == text::joined(text::texts(chain@), ": "@),
{
    text::join(chain.as_slice(), ": ")
}

/// The messages of an error and its causes, one on a line.
pub open spec fn chain_lines(chain: Seq<String>) -> Seq<char> {
    text::joined(text::texts(chain), "\n"@)
}

/// Access was denied, or a token has expired.
pub open spec fn access_failed(chain: Seq<String>) -> bool {
    ||| text::occurs(chain_lines(chain), "AccessDeniedException"@)
    ||| text::occurs(chain_lines(chain), "ExpiredTokenException"@)
}

/// What to show where access was denied or a token has expired.
pub fn aws_access_or_expired_hint(chain: &Vec<String>) -> (res: Option<String>)
    ensures
        text::opt_text(res) == if access_failed(chain@) {
            Some(chain_lines(chain@))
        } else {
            None
        },
{
    let joined = text::join(chain.as_slice(), "\n");
    if text::contains(joined.as_str(), "AccessDeniedException") || text::contains(
        joined.as_str(),
        "ExpiredTokenException",
    ) {
        Some(joined)
    } else {
        None
    }
}

/// The exit code and the message of a failure, the line end inside the color.
pub open spec fn failure(err: AwsLogsError) -> (int, Seq<char>) {
    match err {
        AwsLogsError::Aws(chain) => if access_failed(chain@) {
            (4, logs::ansi_text(chain_lines(chain@) + "\n"@, Color::Yellow))
        } else {
            (
                err.exit_code(),
                logs::ansi_text(text::joined(text::texts(chain@), ": "@) + "\n"@, Color::Red),
            )
        },
        _ => (err.exit_code(), logs::ansi_text(err.hint_text() + "\n"@, Color::Red)),
    }
}

fn colored_line(line: &str, color: Color) -> (res: String)
    ensures
        res@ == logs::ansi_text(line@ + "\n"@, color),
{
    let mut out = line.to_string();
    out.append("\n");
    logs::ansi_colored(out.as_str(), color)
}

/// The exit code that a result stands for, and what to write to the standard error.
pub fn handle_result(result: Result<(), AwsLogsError>) -> (res: (i32, String))
    ensures
        match result {
            Ok(()) => res.0 == 0 && res.1@.len() == 0,
            Err(err) => res.0 == failure(err).0 && res.1@ == failure(err).1,
        },
{
    match result {
        Ok(()) => (0, String::new()),
        Err(err) => {
            let code = err.code();
            if let AwsLogsError::Aws(chain) = &err {
                if let Some(hint) = aws_access_or_expired_hint(chain) {
                    return (4, colored_line(hint.as_str(), Color::Yellow));
                }
                return (code, colored_line(full_chain(chain).as_str(), Color::Red));
            }
            (code, colored_line(err.hint().as_str(), Color::Red))
        },
    }
}

// ── laws ────────────────────────────────────────────────────────────────────
/// Only success has the exit code zero, and the kinds of failure can be told by their codes.
pub proof fn law_exit_codes(err: AwsLogsError)
    ensures
        failure(err).0 != 0,
        failure(err).0 == 3 <==> err is UnknownDate,
        failure(err).0 == 6 <==> err is TooManyStreamsFiltered,
        failure(err).0 == 7 <==> err is NoStreamsFiltered,
        failure(err).0 == 4 <==> (err matches AwsLogsError::Aws(chain) && access_failed(chain@)),
        failure(err).0 == 1 <==> (err matches AwsLogsError::Aws(chain) && !access_failed(chain@)),
{
}

/// An error without causes is shown by its own message.
pub proof fn law_single_messages(err: AwsLogsError)
    requires
        err matches AwsLogsError::Aws(chain) ==> chain@.len() == 1 && !access_failed(chain@),
    ensures
        failure(err) == (err.exit_code(), logs::ansi_text(err.hint_text() + "\n"@, Color::Red)),
{
    if let AwsLogsError::Aws(chain) = err {
        assert(text::texts(chain@) == seq![chain@[0]@]);
    }
}

/// What is shown of a failure: where access was denied or a token has expired, every message on a
/// line of its own in yellow and the code 4; else the messages from the outermost to the root in
/// red, or the failure's own message, and the failure's own code. The line ends inside the color.
pub proof fn law_failures_are_shown(err: AwsLogsError)
    ensures
        err matches AwsLogsError::Aws(chain) ==> {
            let lines = text::joined(text::texts(chain@), "\n"@);
            let denied = text::occurs(lines, "AccessDeniedException"@) || text::occurs(
                lines,
                "ExpiredTokenException"@,
            );
            &&& denied ==> failure(err).0 == 4 && failure(err).1 == "\x1b[33m"@ + (lines + "\n"@)
                + "\x1b[0m"@
            &&& !denied ==> failure(err).0 == 1 && failure(err).1 == "\x1b[31m"@ + (text::joined(
                text::texts(chain@),
                ": "@,
            ) + "\n"@) + "\x1b[0m"@
        },
        !(err is Aws) ==> failure(err).0 == err.exit_code() && failure(err).1 == "\x1b[31m"@ + (
        err.hint_text() + "\n"@) + "\x1b[0m"@,
{
    if let AwsLogsError::Aws(chain) = err {
        logs::law_colors(text::joined(text::texts(chain@), "\n"@) + "\n"@);
        logs::law_colors(text::joined(text::texts(chain@), ": "@) + "\n"@);
    } else {
        logs::law_colors(err.hint_text() + "\n"@);
    }
}

/// A denied access or an expired token is seen in whatever message it stands.
pub proof fn law_denials_are_seen(chain: Seq<String>, i: int)
    requires
        0 <= i < chain.len(),
        text::occurs(chain[i]@, "AccessDeniedException"@) || text::occurs(
            chain[i]@,
            "ExpiredTokenException"@,
        ),
    ensures
        access_failed(chain),
{
    let all = text::texts(chain);
    let (front, back) = lemma_joined_around(all, "\n"@, i);
    assert(all[i] == chain[i]@);
    if text::occurs(chain[i]@, "AccessDeniedException"@) {
        lemma_occurs_inside(front, chain[i]@, back, "AccessDeniedException"@);
    } else {
        lemma_occurs_inside(front, chain[i]@, back, "ExpiredTokenException"@);
    }
}

/// A part stands in the join of all parts.
proof fn lemma_joined_around(parts: Seq<Seq<char>>, sep: Seq<char>, i: int) -> (res: (
    Seq<char>,
    Seq<char>,
))
    requires
        0 <= i < parts.len(),
    ensures
        text::joined(parts, sep) == res.0 + parts[i] + res.1,
    decreases parts.len(),
{
    let none = Seq::<char>::empty();
    if parts.len() == 1 {
        assert(none + parts[i] + none == parts[i]);
        (none, none)
    } else if i == parts.len() - 1 {
        let front = text::joined(parts.drop_last(), sep) + sep;
        assert(front + parts[i] + none == front + parts[i]);
        (front, none)
    } else {
        let (front, back) = lemma_joined_around(parts.drop_last(), sep, i);
        let more = back + sep + parts.last();
        assert(front + parts[i] + back + sep + parts.last() == front + parts[i] + more);
        (front, more)
    }
}

/// What stands in a part stands in the whole.
proof fn lemma_occurs_inside(front: Seq<char>, part: Seq<char>, back: Seq<char>, pat: Seq<char>)
    requires
        text::occurs(part, pat),
    ensures
        text::occurs(front + part + back, pat),
{
    let at = choose|at: int| text::occurs_at(part, pat, at);
    let whole = front + part + back;
    assert(whole.subrange(front.len() + at, front.len() + at + pat.len()) == part.subrange(
        at,
        at + pat.len(),
    ));
    assert(text::occurs_at(whole, pat, front.len() + at));
}

/// The arguments of `get` reach its configuration, each under its own name, with the window's start
/// as start and its end as end.
pub proof fn law_get_arguments(
    args: GetArgs,
    start: Option<i64>,
    end: Option<i64>,
    cfg: AwsLogsConfig,
)
    requires
        args.configures(start, end, cfg),
    ensures
        cfg.log_group_name matches Some(g) && g@ == args.log_group_name@,
        cfg.log_stream_name matches Some(s) && s@ == args.log_stream_name@,
        cfg.log_group_prefix is None && cfg.explicit_streams is None,
        cfg.filter_pattern == args.filter_pattern && cfg.query == args.query,
        cfg.start == start && cfg.end == end,
        cfg.watch == args.watch,
        logs::duration_parts(cfg.watch_interval) == (args.watch_interval, 0u32),
        args.color is Auto ==> cfg.color is Auto,
        args.color is Always ==> cfg.color is Always,
        args.color is Never ==> cfg.color is Never,
        cfg.output_group_enabled == args.output_group_enabled,
        cfg.output_stream_enabled == args.output_stream_enabled,
        cfg.output_timestamp_enabled == args.output_timestamp_enabled,
        cfg.output_ingestion_time_enabled == args.output_ingestion_time_enabled,
{
}

/// The arguments of `streams` reach its configuration, and everything else is the default.
pub proof fn law_streams_arguments(
    args: StreamsArgs,
    start: Option<i64>,
    end: Option<i64>,
    cfg: AwsLogsConfig,
)
    requires
        args.configures(start, end, cfg),
    ensures
        cfg.log_group_name matches Some(g) && g@ == args.log_group_name@,
        cfg.start == start && cfg.end == end,
        cfg.log_stream_name is None && cfg.log_group_prefix is None && cfg.filter_pattern is None,
        cfg.explicit_streams is None && cfg.query is None && !cfg.watch,
{
}

/// The arguments of `kinesis search` reach its configuration, each under its own name.
pub proof fn law_search_arguments(
    args: KinesisSearchArgs,
    start: Option<i64>,
    end: Option<i64>,
    cfg: KinesisSearchConfig,
)
    requires
        args.configures(start, end, cfg),
    ensures
        cfg.stream_name@ == args.stream_name@,
        cfg.filter_pattern == args.filter_pattern && cfg.regex == args.regex,
        cfg.query == args.query,
        cfg.shard_ids@ == args.shard_ids@,
        cfg.start == start && cfg.end == end,
        cfg.watch == args.watch,
        logs::duration_parts(cfg.watch_interval) == (args.watch_interval, 0u32),
        args.color is Auto ==> cfg.color is Auto,
        args.color is Always ==> cfg.color is Always,
        args.color is Never ==> cfg.color is Never,
        cfg.output_shard_enabled == args.output_shard_enabled,
        cfg.output_timestamp_enabled == args.output_timestamp_enabled,
{
}

/// The start of a window is read from its own argument, and the end from its own. Where a window is
/// refused, the error names the argument that is no date, the start before the end.
pub proof fn law_windows_are_read(
    start: Option<Seq<char>>,
    end: Option<Seq<char>>,
    res: Result<(Option<i64>, Option<i64>), AwsLogsError>,
)
    requires
        window_read(start, end, res),
        start matches Some(s) ==> time::relative_form(s) is None,
        end matches Some(s) ==> time::relative_form(s) is None,
    ensures
        match res {
            Ok((from, to)) => {
                &&& start is None ==> from is None
                &&& end is None ==> to is None
                &&& start is Some && start->0.len() > 0 ==> (from matches Some(t)
                    && time::absolute_seconds(start->0) == Some(t / 1000) && t % 1000 == 0)
                &&& end is Some && end->0.len() > 0 ==> (to matches Some(t)
                    && time::absolute_seconds(end->0) == Some(t / 1000) && t % 1000 == 0)
            },
            Err(e) => e matches AwsLogsError::UnknownDate(raw) && if start is Some
                && start->0.len() > 0 && time::absolute_seconds(start->0) is None {
                raw@ == start->0
            } else {
                end is Some && raw@ == end->0 && time::absolute_seconds(end->0) is None
            },
        },
{
}

/// Each end of a window is what its own argument means today, be it relative or not.
pub proof fn law_windows_are_read_today(
    start: Option<Seq<char>>,
    end: Option<Seq<char>>,
    res: Result<(Option<i64>, Option<i64>), AwsLogsError>,
)
    requires
        window_read(start, end, res),
    ensures
        res matches Ok((from, to)) ==> time::read_today(start, Ok(from)) && time::read_today(
            end,
            Ok(to),
        ),
        res matches Err(e) ==> time::read_today(start, Err(e)) || time::read_today(end, Err(e)),
{
}

/// When to color output is asked for in the same words as it is configured.
pub proof fn law_color_arguments(value: ColorWhen)
    ensures
        value is Auto <==> <ColorPreference as vstd::std_specs::convert::FromSpec<
            ColorWhen,
        >>::from_spec(value) is Auto,
        value is Always <==> <ColorPreference as vstd::std_specs::convert::FromSpec<
            ColorWhen,
        >>::from_spec(value) is Always,
{
}

} // verus!
