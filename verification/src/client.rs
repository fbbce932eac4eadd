//! What is exchanged with the AWS services, as plain values: requests, replies, and the pure
//! part of turning one into the other.

use vstd::prelude::*;

use crate::text;

verus! {

// ── CloudWatch ──────────────────────────────────────────────────────────────
/// A log stream and the span of time that it covers, in milliseconds since the epoch.
#[derive(Debug, Clone)]
pub struct StreamMeta {
    pub name: String,
    pub first_event_timestamp: Option<i64>,
    pub last_ingestion_time: Option<i64>,
}

/// One log event.
#[derive(Debug, Clone)]
pub struct LogEvent {
    pub event_id: String,
    pub timestamp: i64,
    pub ingestion_time: i64,
    pub message: String,
    pub log_stream_name: String,
}

/// What to ask for in a `filter_log_events` request.
#[derive(Debug, Clone)]
pub struct FilterParams {
    pub log_group_name: String,
    pub log_stream_names: Vec<String>,
    pub start_time: Option<i64>,
    pub end_time: Option<i64>,
    pub filter_pattern: Option<String>,
    pub interleaved: bool,
}

/// One page of log events, and the token of the next page.
#[derive(Debug, Clone)]
pub struct FilterResponse {
    pub events: Vec<LogEvent>,
    pub next_token: Option<String>,
}

impl Default for StreamMeta {
    fn default() -> (res: Self)
        ensures
            res.name@.len() == 0,
            res.first_event_timestamp is None,
            res.last_ingestion_time is None,
    {
        StreamMeta { name: String::new(), first_event_timestamp: None, last_ingestion_time: None }
    }
}

impl Default for FilterParams {
    fn default() -> (res: Self)
        ensures
            res.log_group_name@.len() == 0,
            res.log_stream_names@.len() == 0,
            res.start_time is None,
            res.end_time is None,
            res.filter_pattern is None,
            !res.interleaved,
    {
        FilterParams {
            log_group_name: String::new(),
            log_stream_names: Vec::new(),
            start_time: None,
            end_time: None,
            filter_pattern: None,
            interleaved: false,
        }
    }
}

impl Default for FilterResponse {
    fn default() -> (res: Self)
        ensures
            res.events@.len() == 0,
            res.next_token is None,
    {
        FilterResponse { events: Vec::new(), next_token: None }
    }
}

/// Where credentials, region and endpoint come from; what is absent is left to the SDK.
#[derive(Debug, Clone)]
pub struct AwsCredentialOptions {
    pub profile: Option<String>,
    pub region: Option<String>,
    pub access_key_id: Option<String>,
    pub secret_access_key: Option<String>,
    pub session_token: Option<String>,
    pub endpoint_url: Option<String>,
}

impl Default for AwsCredentialOptions {
    fn default() -> (res: Self)
        ensures
            res.profile is None,
            res.region is None,
            res.access_key_id is None,
            res.secret_access_key is None,
            res.session_token is None,
            res.endpoint_url is None,
    {
        AwsCredentialOptions {
            profile: None,
            region: None,
            access_key_id: None,
            secret_access_key: None,
            session_token: None,
            endpoint_url: None,
        }
    }
}

/// A key pair, with a session token or none, that takes the place of the SDK's own search for
/// credentials.
#[derive(Debug, Clone)]
pub struct StaticCredentials {
    pub access_key_id: String,
    pub secret_access_key: String,
    pub session_token: Option<String>,
}

impl AwsCredentialOptions {
    /// The key pair that was given, if both halves were.
    pub fn static_credentials(&self) -> (res: Option<StaticCredentials>)
        ensures
            res is Some == (self.access_key_id is Some && self.secret_access_key is Some),
            res matches Some(c) ==> {
                &&& c.access_key_id@ == self.access_key_id->0@
                &&& c.secret_access_key@ == self.secret_access_key->0@
                &&& text::opt_text(c.session_token) == text::opt_text(self.session_token)
            },
    {
        match (&self.access_key_id, &self.secret_access_key) {
            (Some(key), Some(secret)) => Some(
                StaticCredentials {
                    access_key_id: key.clone(),
                    secret_access_key: secret.clone(),
                    session_token: text::copy_opt(&self.session_token),
                },
            ),
            _ => None,
        }
    }
}

/// The names that are there, in order.
pub open spec fn present(names: Seq<Option<String>>) -> Seq<Seq<char>>
    decreases names.len(),
{
    if names.len() == 0 {
        Seq::empty()
    } else {
        match names.last() {
            Some(name) => present(names.drop_last()).push(name@),
            None => present(names.drop_last()),
        }
    }
}

/// The names of a page of groups; a page without a list has none.
pub open spec fn page_names(page: Option<Vec<Option<String>>>) -> Seq<Seq<char>> {
    match page {
        Some(names) => present(names@),
        None => Seq::empty(),
    }
}

/// Adds the names of a page of groups to those of the pages before it. A group without a name
/// is passed over.
pub fn add_group_page(out: &mut Vec<String>, page: Option<Vec<Option<String>>>)
    ensures
        text::texts(final(out)@) == text::texts(old(out)@) + page_names(page),
{
    let names = match page {
        Some(names) => names,
        None => {
            return ;
        },
    };
    let mut i: usize = 0;
    assert(present(names@.take(0)) == Seq::<Seq<char>>::empty());
    while i < names.len()
        invariant
            i <= names@.len(),
            text::texts(out@) == text::texts(old(out)@) + present(names@.take(i as int)),
        decreases names.len() - i,
    {
        assert(names@.take(i + 1).drop_last() == names@.take(i as int));
        if let Some(name) = &names[i] {
            let ghost before = out@;
            out.push(name.clone());
            assert(text::texts(out@) == text::texts(before).push(name@));
        }
        i += 1;
    }
    assert(names@.take(i as int) == names@);
}

/// A stream as the service lists it.
#[derive(Debug, Clone)]
pub struct ListedStream {
    pub name: Option<String>,
    pub first_event_timestamp: Option<i64>,
    pub last_ingestion_time: Option<i64>,
}

/// The name of a stream and the span that it covers.
pub open spec fn meta_parts(s: StreamMeta) -> (Seq<char>, Option<i64>, Option<i64>) {
    (s.name@, s.first_event_timestamp, s.last_ingestion_time)
}

/// The streams that have a name, in order.
pub open spec fn named_streams(streams: Seq<ListedStream>) -> Seq<
    (Seq<char>, Option<i64>, Option<i64>),
>
    decreases streams.len(),
{
    if streams.len() == 0 {
        Seq::empty()
    } else {
        let s = streams.last();
        match s.name {
            Some(name) => named_streams(streams.drop_last()).push(
                (name@, s.first_event_timestamp, s.last_ingestion_time),
            ),
            None => named_streams(streams.drop_last()),
        }
    }
}

/// The streams of a page; a page without a list has none.
pub open spec fn page_streams(page: Option<Vec<ListedStream>>) -> Seq<
    (Seq<char>, Option<i64>, Option<i64>),
> {
    match page {
        Some(streams) => named_streams(streams@),
        None => Seq::empty(),
    }
}

/// The names and spans of a sequence of streams.
pub open spec fn metas_parts(s: Seq<StreamMeta>) -> Seq<(Seq<char>, Option<i64>, Option<i64>)> {
    s.map_values(|m: StreamMeta| meta_parts(m))
}

/// Adds the streams of a page to those of the pages before it. A stream without a name is
/// passed over.
pub fn add_stream_page(out: &mut Vec<StreamMeta>, page: Option<Vec<ListedStream>>)
    ensures
        metas_parts(final(out)@) == metas_parts(old(out)@) + page_streams(page),
{
    let streams = match page {
        Some(streams) => streams,
        None => {
            return ;
        },
    };
    let mut i: usize = 0;
    assert(named_streams(streams@.take(0)) == Seq::<(Seq<char>, Option<i64>, Option<i64>)>::empty());
    while i < streams.len()
        invariant
            i <= streams@.len(),
            metas_parts(out@) == metas_parts(old(out)@) + named_streams(streams@.take(i as int)),
        decreases streams.len() - i,
    {
        assert(streams@.take(i + 1).drop_last() == streams@.take(i as int));
        if let Some(name) = &streams[i].name {
            let ghost before = out@;
            out.push(
                StreamMeta {
                    name: name.clone(),
                    first_event_timestamp: streams[i].first_event_timestamp,
                    last_ingestion_time: streams[i].last_ingestion_time,
                },
            );
            assert(metas_parts(out@) == metas_parts(before).push(
                (
                    name@,
                    streams@[i as int].first_event_timestamp,
                    streams@[i as int].last_ingestion_time,
                ),
            ));
        }
        i += 1;
    }
    assert(streams@.take(i as int) == streams@);
}

/// An event as the service sends it.
#[derive(Debug, Clone)]
pub struct SentEvent {
    pub event_id: Option<String>,
    pub timestamp: Option<i64>,
    pub ingestion_time: Option<i64>,
    pub message: Option<String>,
    pub log_stream_name: Option<String>,
}

/// Everything that an event holds.
pub ghost struct EventParts {
    pub event_id: Seq<char>,
    pub timestamp: int,
    pub ingestion_time: int,
    pub message: Seq<char>,
    pub log_stream_name: Seq<char>,
}

impl LogEvent {
    pub open spec fn parts(self) -> EventParts {
        EventParts {
            event_id: self.event_id@,
            timestamp: self.timestamp as int,
            ingestion_time: self.ingestion_time as int,
            message: self.message@,
            log_stream_name: self.log_stream_name@,
        }
    }
}

/// What a sequence of events holds.
pub open spec fn events_parts(events: Seq<LogEvent>) -> Seq<EventParts> {
    events.map_values(|e: LogEvent| e.parts())
}

/// The text of an optional string, empty where there is none.
pub open spec fn text_or_empty(s: Option<String>) -> Seq<char> {
    match s {
        Some(t) => t@,
        None => Seq::empty(),
    }
}

/// The number, or zero where there is none.
pub open spec fn number_or_zero(n: Option<i64>) -> int {
    match n {
        Some(v) => v as int,
        None => 0,
    }
}

/// The events that have an id, in order; what else is absent is zero or empty.
pub open spec fn identified(events: Seq<SentEvent>) -> Seq<EventParts>
    decreases events.len(),
{
    if events.len() == 0 {
        Seq::empty()
    } else {
        let e = events.last();
        match e.event_id {
            Some(id) => identified(events.drop_last()).push(
                EventParts {
                    event_id: id@,
                    timestamp: number_or_zero(e.timestamp),
                    ingestion_time: number_or_zero(e.ingestion_time),
                    message: text_or_empty(e.message),
                    log_stream_name: text_or_empty(e.log_stream_name),
                },
            ),
            None => identified(events.drop_last()),
        }
    }
}

/// The page of events in a reply. An event without an id is dropped.
pub fn filter_response(events: Option<Vec<SentEvent>>, next_token: Option<String>) -> (res:
    FilterResponse)
    ensures
        events_parts(res.events@) == match events {
            Some(sent) => identified(sent@),
            None => Seq::empty(),
        },
        res.next_token == next_token,
{
    let sent = match events {
        Some(sent) => sent,
        None => {
            let none: Vec<LogEvent> = Vec::new();
            assert(events_parts(none@) == Seq::<EventParts>::empty());
            return FilterResponse { events: none, next_token };
        },
    };
    let mut out: Vec<LogEvent> = Vec::new();
    let mut i: usize = 0;
    assert(identified(sent@.take(0)) == events_parts(out@));
    while i < sent.len()
        invariant
            i <= sent@.len(),
            events_parts(out@) == identified(sent@.take(i as int)),
        decreases sent.len() - i,
    {
        assert(sent@.take(i + 1).drop_last() == sent@.take(i as int));
        let e = &sent[i];
        if let Some(id) = &e.event_id {
            let ghost before = out@;
            let event = LogEvent {
                event_id: id.clone(),
                timestamp: match e.timestamp {
                    Some(t) => t,
                    None => 0,
                },
                ingestion_time: match e.ingestion_time {
                    Some(t) => t,
                    None => 0,
                },
                message: text::copy_or_empty(&e.message),
                log_stream_name: text::copy_or_empty(&e.log_stream_name),
            };
            out.push(event);
            assert(events_parts(out@) == events_parts(before).push(event.parts()));
        }
        i += 1;
    }
    assert(sent@.take(i as int) == sent@);
    FilterResponse { events: out, next_token }
}

// ── Kinesis ─────────────────────────────────────────────────────────────────
/// A shard of a stream.
#[derive(Debug, Clone)]
pub struct ShardInfo {
    pub shard_id: String,
}

/// A single record, with the shard it came from.
#[derive(Debug, Clone)]
pub struct KinesisRecord {
    pub shard_id: String,
    pub sequence_number: String,
    pub partition_key: String,
    /// Approximate arrival time in milliseconds since the epoch, when the server reports it.
    pub approximate_arrival_timestamp: Option<i64>,
    pub data: Vec<u8>,
}

/// The reply to one `get_records` request.
#[derive(Debug, Clone)]
pub struct GetRecordsResponse {
    pub records: Vec<KinesisRecord>,
    /// Iterator of the next request; `None` once the shard is closed and drained.
    pub next_shard_iterator: Option<String>,
    /// How far the reply is behind the tip of the shard; `Some(0)` at the tip itself.
    pub millis_behind_latest: Option<i64>,
}

impl Default for GetRecordsResponse {
    fn default() -> (res: Self)
        ensures
            res.records@.len() == 0,
            res.next_shard_iterator is None,
            res.millis_behind_latest is None,
    {
        GetRecordsResponse {
            records: Vec::new(),
            next_shard_iterator: None,
            millis_behind_latest: None,
        }
    }
}

/// Where a shard iterator starts to read.
#[derive(Debug, Clone, Copy, PartialEq, Eq, Structural)]
pub enum ShardIteratorPosition {
    /// Oldest untrimmed record in the shard.
    TrimHorizon,
    /// Only records added after the iterator is created.
    Latest,
    /// First record at or after the given time, in milliseconds since the epoch.
    AtTimestamp(i64),
}

/// How to ask for a page of shards: the first by the stream's name, each later one by the
/// token of the page before, and never by both.
#[derive(Debug)]
pub enum ShardsRequest {
    Stream(String),
    Token(String),
}

impl ShardsRequest {
    /// Whether the request goes by a token, and the token or the stream's name.
    pub open spec fn parts(self) -> (bool, Seq<char>) {
        match self {
            ShardsRequest::Stream(name) => (false, name@),
            ShardsRequest::Token(token) => (true, token@),
        }
    }
}

/// The request that follows a page whose reply carried `token`; there is none before the first.
pub fn shards_request(stream_name: &str, token: Option<String>) -> (res: ShardsRequest)
    ensures
        res.parts() == match token {
            Some(t) => (true, t@),
            None => (false, stream_name@),
        },
        token matches Some(t) ==> res == ShardsRequest::Token(t),
        token is None ==> (res matches ShardsRequest::Stream(name) && name@ == stream_name@),
{
    match token {
        Some(t) => ShardsRequest::Token(t),
        None => ShardsRequest::Stream(stream_name.to_string()),
    }
}

/// A record as the service sends it; an arrival time that cannot be told in milliseconds is
/// there, without a number.
#[derive(Debug)]
pub struct SentRecord {
    pub sequence_number: String,
    pub partition_key: String,
    pub arrival: Option<Option<i64>>,
    pub data: Vec<u8>,
}

/// The record that a shard sent.
pub fn kinesis_record(shard_id: &str, sent: SentRecord) -> (res: KinesisRecord)
    ensures
        res.shard_id@ == shard_id@,
        res.sequence_number == sent.sequence_number,
        res.partition_key == sent.partition_key,
        res.data == sent.data,
        res.approximate_arrival_timestamp == match sent.arrival {
            Some(Some(t)) => Some(t),
            Some(None) => Some(0i64),
            None => None,
        },
{
    KinesisRecord {
        shard_id: shard_id.to_string(),
        sequence_number: sent.sequence_number,
        partition_key: sent.partition_key,
        approximate_arrival_timestamp: match sent.arrival {
            Some(Some(t)) => Some(t),
            Some(None) => Some(0),
            None => None,
        },
        data: sent.data,
    }
}

// ── identity ────────────────────────────────────────────────────────────────
/// Who the caller is to AWS.
#[derive(Debug, Clone)]
pub struct CallerIdentity {
    pub account_id: String,
    /// Region of the session, empty if none was configured.
    pub region: String,
}

impl Default for CallerIdentity {
    fn default() -> (res: Self)
        ensures
            res.account_id@.len() == 0,
            res.region@.len() == 0,
    {
        CallerIdentity { account_id: String::new(), region: String::new() }
    }
}

/// The identity in a reply that names an account or none.
pub fn caller_identity(account: Option<String>, region: &str) -> (res: CallerIdentity)
    ensures
        res.account_id@ == text_or_empty(account),
        account matches Some(id) ==> res.account_id@ == id@,
        account is None ==> res.account_id@.len() == 0,
        res.region@ == region@,
{
    CallerIdentity {
        account_id: match account {
            Some(id) => id,
            None => String::new(),
        },
        region: region.to_string(),
    }
}

// ── laws ────────────────────────────────────────────────────────────────────
/// Everything that an event or a stream holds can be told.
pub proof fn law_nothing_is_hidden(events: Seq<LogEvent>, metas: Seq<StreamMeta>, i: int)
    ensures
        events_parts(events).len() == events.len(),
        0 <= i < events.len() ==> {
            let parts = events_parts(events)[i];
            &&& parts == events[i].parts()
            &&& parts.event_id == events[i].event_id@
            &&& parts.timestamp == events[i].timestamp
            &&& parts.ingestion_time == events[i].ingestion_time
            &&& parts.message == events[i].message@
            &&& parts.log_stream_name == events[i].log_stream_name@
        },
        metas_parts(metas).len() == metas.len(),
        0 <= i < metas.len() ==> {
            let parts = metas_parts(metas)[i];
            &&& parts.0 == metas[i].name@
            &&& parts.1 == metas[i].first_event_timestamp
            &&& parts.2 == metas[i].last_ingestion_time
        },
{
}

/// The groups of a page are exactly those that have a name, in order, each under its name.
pub proof fn law_groups_of_a_page(page: Vec<Option<String>>) -> (at: Seq<int>)
    ensures
        text::picks(at, page@.len() as int, |i: int| page@[i] is Some),
        page_names(Some(page)).len() == at.len(),
        forall|k: int|
            0 <= k < at.len() ==> #[trigger] page_names(Some(page))[k] == page@[at[k]]->0@,
        page_names(None).len() == 0,
{
    let at = lemma_groups_to(page@, page@.len() as int);
    assert(page@.take(page@.len() as int) == page@);
    at
}

proof fn lemma_groups_to(names: Seq<Option<String>>, n: int) -> (at: Seq<int>)
    requires
        0 <= n <= names.len(),
    ensures
        text::picks(at, n, |i: int| names[i] is Some),
        present(names.take(n)).len() == at.len(),
        forall|k: int|
            0 <= k < at.len() ==> #[trigger] present(names.take(n))[k] == names[at[k]]->0@,
    decreases n,
{
    if n == 0 {
        Seq::empty()
    } else {
        let before = lemma_groups_to(names, n - 1);
        text::lemma_picks_next(before, n - 1, |i: int| names[i] is Some);
        assert(names.take(n).drop_last() == names.take(n - 1));
        assert(names.take(n).last() == names[n - 1]);
        if names[n - 1] is Some {
            before.push(n - 1)
        } else {
            before
        }
    }
}

/// The streams of a page are exactly those that have a name, in order, each with its name and with
/// the two ends of its span as they were listed, whichever of them are there.
pub proof fn law_streams_of_a_page(page: Vec<ListedStream>) -> (at: Seq<int>)
    ensures
        text::picks(at, page@.len() as int, |i: int| page@[i].name is Some),
        page_streams(Some(page)).len() == at.len(),
        forall|k: int|
            0 <= k < at.len() ==> {
                let kept = #[trigger] page_streams(Some(page))[k];
                let listed = page@[at[k]];
                &&& kept.0 == listed.name->0@
                &&& kept.1 == listed.first_event_timestamp
                &&& kept.2 == listed.last_ingestion_time
            },
        page_streams(None).len() == 0,
{
    let at = lemma_streams_to(page@, page@.len() as int);
    assert(page@.take(page@.len() as int) == page@);
    at
}

proof fn lemma_streams_to(streams: Seq<ListedStream>, n: int) -> (at: Seq<int>)
    requires
        0 <= n <= streams.len(),
    ensures
        text::picks(at, n, |i: int| streams[i].name is Some),
        named_streams(streams.take(n)).len() == at.len(),
        forall|k: int|
            0 <= k < at.len() ==> {
                let kept = #[trigger] named_streams(streams.take(n))[k];
                let listed = streams[at[k]];
                &&& kept.0 == listed.name->0@
                &&& kept.1 == listed.first_event_timestamp
                &&& kept.2 == listed.last_ingestion_time
            },
    decreases n,
{
    if n == 0 {
        Seq::empty()
    } else {
        let before = lemma_streams_to(streams, n - 1);
        text::lemma_picks_next(before, n - 1, |i: int| streams[i].name is Some);
        assert(streams.take(n).drop_last() == streams.take(n - 1));
        assert(streams.take(n).last() == streams[n - 1]);
        if streams[n - 1].name is Some {
            before.push(n - 1)
        } else {
            before
        }
    }
}

/// The event is the one that was sent: it has the id, and of everything else that the
/// sent event names exactly that; what it does not name is zero or empty.
spec fn holds_what_was_sent(event: EventParts, sent: SentEvent) -> bool {
    &&& sent.event_id matches Some(id) && event.event_id == id@
    &&& sent.timestamp matches Some(t) ==> event.timestamp == t
    &&& sent.timestamp is None ==> event.timestamp == 0
    &&& sent.ingestion_time matches Some(t) ==> event.ingestion_time == t
    &&& sent.ingestion_time is None ==> event.ingestion_time == 0
    &&& sent.message matches Some(m) ==> event.message == m@
    &&& sent.message is None ==> event.message.len() == 0
    &&& sent.log_stream_name matches Some(n) ==> event.log_stream_name == n@
    &&& sent.log_stream_name is None ==> event.log_stream_name.len() == 0
}

/// The events of a page are exactly those that were sent with an id, in order, each with its own
/// stream name, times and message.
pub proof fn law_events_of_a_page(sent: Seq<SentEvent>) -> (at: Seq<int>)
    ensures
        text::picks(at, sent.len() as int, |i: int| sent[i].event_id is Some),
        identified(sent).len() == at.len(),
        forall|k: int|
            0 <= k < at.len() ==> {
                let event = #[trigger] identified(sent)[k];
                let s = sent[at[k]];
                &&& event.event_id == s.event_id->0@
                &&& s.timestamp matches Some(t) ==> event.timestamp == t
                &&& s.timestamp is None ==> event.timestamp == 0
                &&& s.ingestion_time matches Some(t) ==> event.ingestion_time == t
                &&& s.ingestion_time is None ==> event.ingestion_time == 0
                &&& s.message matches Some(m) ==> event.message == m@
                &&& s.message is None ==> event.message.len() == 0
                &&& s.log_stream_name matches Some(n) ==> event.log_stream_name == n@
                &&& s.log_stream_name is None ==> event.log_stream_name.len() == 0
            },
{
    let at = lemma_events_to(sent, sent.len() as int);
    assert(sent.take(sent.len() as int) == sent);
    assert forall|k: int| 0 <= k < at.len() implies holds_what_was_sent(
        #[trigger] identified(sent)[k],
        sent[at[k]],
    ) by {
        assert(holds_what_was_sent(identified(sent.take(sent.len() as int))[k], sent[at[k]]));
    }
    at
}

proof fn lemma_events_to(sent: Seq<SentEvent>, n: int) -> (at: Seq<int>)
    requires
        0 <= n <= sent.len(),
    ensures
        text::picks(at, n, |i: int| sent[i].event_id is Some),
        identified(sent.take(n)).len() == at.len(),
        forall|k: int|
            0 <= k < at.len() ==> holds_what_was_sent(
                #[trigger] identified(sent.take(n))[k],
                sent[at[k]],
            ),
    decreases n,
{
    if n == 0 {
        Seq::empty()
    } else {
        let before = lemma_events_to(sent, n - 1);
        text::lemma_picks_next(before, n - 1, |i: int| sent[i].event_id is Some);
        assert(sent.take(n).drop_last() == sent.take(n - 1));
        assert(sent.take(n).last() == sent[n - 1]);
        if sent[n - 1].event_id is Some {
            before.push(n - 1)
        } else {
            before
        }
    }
}

/// An event that was sent with an id and a stream is on the page, with that id and that stream.
pub proof fn law_no_event_loses_its_stream(sent: Seq<SentEvent>, i: int)
    requires
        0 <= i < sent.len(),
        sent[i].event_id is Some,
        sent[i].log_stream_name is Some,
    ensures
        exists|k: int|
            0 <= k < identified(sent).len() && (#[trigger] identified(sent)[k]).event_id
                == sent[i].event_id->0@ && identified(sent)[k].log_stream_name
                == sent[i].log_stream_name->0@,
{
    let at = law_events_of_a_page(sent);
    let keep = |j: int| sent[j].event_id is Some;
    assert(keep(i));
    let k = choose|k: int| 0 <= k < at.len() && at[k] == i;
    assert(identified(sent)[k].event_id == sent[at[k]].event_id->0@);
}

/// A page of shards is asked for by the stream's name or by a token, and which of them it is can be
/// told.
pub proof fn law_shard_requests_are_told(name: String, token: String)
    ensures
        ShardsRequest::Stream(name).parts() == (false, name@),
        ShardsRequest::Token(token).parts() == (true, token@),
{
}

} // verus!
