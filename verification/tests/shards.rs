//! Search in Kinesis streams.

use std::time::Duration;

use awslogs::client::{
    kinesis_record, shards_request, GetRecordsResponse, KinesisRecord, SentRecord, ShardInfo,
    ShardIteratorPosition, ShardsRequest,
};
use awslogs::kinesis::{KinesisAction, KinesisRun, Pause};
use awslogs::logs::ColorPreference;
use awslogs::{AwsLogsError, KinesisSearch, KinesisSearchConfig};

fn config() -> KinesisSearchConfig {
    KinesisSearchConfig {
        stream_name: "stream".to_string(),
        color: ColorPreference::Never,
        output_shard_enabled: false,
        ..Default::default()
    }
}

fn search_of(cfg: KinesisSearchConfig) -> KinesisSearch {
    KinesisSearch::new(cfg).ok().unwrap()
}

fn record(arrival: Option<i64>, data: &[u8]) -> KinesisRecord {
    KinesisRecord {
        shard_id: "shard-1".to_string(),
        sequence_number: "1".to_string(),
        partition_key: "k".to_string(),
        approximate_arrival_timestamp: arrival,
        data: data.to_vec(),
    }
}

#[test]
fn defaults_of_a_search() {
    let cfg = KinesisSearchConfig::default();
    assert_eq!(cfg.stream_name, "");
    assert_eq!(cfg.watch_interval, Duration::from_secs(1));
    assert!(cfg.output_shard_enabled && !cfg.output_timestamp_enabled);
    assert!(!cfg.watch && !cfg.regex);
    assert_eq!(cfg.color, ColorPreference::Auto);
}

#[test]
fn records_are_matched_by_text_or_pattern() {
    let line = |pattern: Option<&str>, regex: bool, data: &[u8]| {
        let cfg = KinesisSearchConfig {
            filter_pattern: pattern.map(|p| p.to_string()),
            regex,
            ..config()
        };
        search_of(cfg).format_record(&record(None, data), 0, false)
    };
    assert_eq!(line(None, false, b"hello \n").as_deref(), Some("hello"));
    assert_eq!(line(Some("ell"), false, b"hello").as_deref(), Some("hello"));
    assert_eq!(line(Some("e.l"), false, b"hello"), None);
    assert_eq!(line(Some("e.l"), true, b"hello").as_deref(), Some("hello"));
    assert_eq!(line(Some("^l"), true, b"hello"), None);
    assert_eq!(line(Some("llo"), true, b"hello").as_deref(), Some("hello"));
    assert_eq!(line(Some("l-o"), true, b"hello"), None);
    assert_eq!(line(Some(""), false, b"").as_deref(), Some(""));
    // Bytes that are no UTF-8 are replaced.
    assert_eq!(
        line(None, false, b"a\xffb").as_deref(),
        Some("a\u{fffd}b")
    );
    assert_eq!(
        line(None, false, "\u{1f44d}".as_bytes()).as_deref(),
        Some("\u{1f44d}")
    );
}

#[test]
fn record_lines_have_their_columns() {
    let cfg = KinesisSearchConfig {
        output_shard_enabled: true,
        output_timestamp_enabled: true,
        query: Some("a".to_string()),
        ..config()
    };
    let search = search_of(cfg);
    assert_eq!(
        search.format_record(&record(Some(1_500), br#"{"a": "x"}"#), 9, false),
        Some("shard-1   1970-01-01T00:00:01.500Z x".to_string())
    );
    assert_eq!(
        search.format_record(&record(None, b"{"), 1, true),
        Some(
            "\x1b[36mshard-1\x1b[0m \x1b[33m1970-01-01T00:00:00.000Z\x1b[0m {".to_string()
        )
    );
    assert_eq!(
        search.format_payload("s", Some(0), "p".to_string(), 2, false),
        Some("s  1970-01-01T00:00:00.000Z p".to_string())
    );
}

fn message_of(e: AwsLogsError) -> String {
    match e {
        AwsLogsError::Aws(chain) => chain[0].clone(),
        other => panic!("{other:?}"),
    }
}

#[test]
fn bad_queries_are_told_before_bad_patterns() {
    let bad = |query: Option<&str>, pattern: &str, regex: bool| {
        KinesisSearch::new(KinesisSearchConfig {
            query: query.map(|q| q.to_string()),
            filter_pattern: Some(pattern.to_string()),
            regex,
            ..config()
        })
        .err()
        .map(message_of)
    };
    assert!(bad(Some("["), "(", true)
        .unwrap()
        .starts_with("invalid JMESPath: "));
    assert!(bad(Some("a"), "(", true)
        .unwrap()
        .starts_with("invalid pattern: "));
    assert_eq!(bad(Some("a"), "(", false), None);
    assert_eq!(bad(None, "a", true), None);
}

#[test]
fn shards_are_configured_or_listed() {
    let listed = vec![
        ShardInfo {
            shard_id: "a".to_string(),
        },
        ShardInfo {
            shard_id: "b".to_string(),
        },
    ];
    let all = search_of(config());
    assert!(all.lists_shards());
    assert_eq!(all.resolve_shards(&listed), vec!["a", "b"]);
    let one = search_of(KinesisSearchConfig {
        shard_ids: vec!["c".to_string()],
        ..config()
    });
    assert!(!one.lists_shards());
    assert_eq!(one.resolve_shards(&listed), vec!["c"]);
}

fn reply(
    records: Vec<KinesisRecord>,
    next: Option<&str>,
    behind: Option<i64>,
) -> GetRecordsResponse {
    GetRecordsResponse {
        records,
        next_shard_iterator: next.map(|s| s.to_string()),
        millis_behind_latest: behind,
    }
}

fn fetches(search: &KinesisSearch, run: &KinesisRun, shard: &str, iter: &str) {
    match search.action(run) {
        KinesisAction::Fetch {
            shard_id,
            iterator,
            limit,
        } => assert_eq!(
            (shard_id.as_str(), iterator.as_str(), limit),
            (shard, iter, 1000)
        ),
        other => panic!("{other:?}"),
    }
}

fn opens(search: &KinesisSearch, run: &KinesisRun, shard: &str, at: ShardIteratorPosition) {
    match search.action(run) {
        KinesisAction::Open { shard_id, position } => {
            assert_eq!((shard_id.as_str(), position), (shard, at))
        }
        other => panic!("{other:?}"),
    }
}

fn opened(search: &KinesisSearch, run: &mut KinesisRun, iter: Option<&str>) -> Pause {
    search.opened(run, iter.map(|s| s.to_string()))
}

fn watching() -> KinesisSearch {
    search_of(KinesisSearchConfig {
        watch: true,
        watch_interval: Duration::from_secs(3),
        ..config()
    })
}

#[test]
fn watched_shards_take_turns() {
    let search = watching();
    let wait = Pause::Interval(Duration::from_secs(3));
    let mut run = search.begin_search(vec!["a".to_string(), "b".to_string()]);
    assert_eq!(opened(&search, &mut run, Some("a1")), Pause::Nothing);
    // Up to its tip, a shard keeps the turn.
    let (_, pause) = search.records(&mut run, reply(vec![], Some("a2"), Some(9)));
    assert_eq!(pause, Pause::Millis(250));
    fetches(&search, &run, "a", "a2");
    let (lines, pause) =
        search.records(&mut run, reply(vec![record(None, b"x")], Some("a3"), Some(0)));
    assert_eq!((lines, pause), (vec!["x".to_string()], Pause::Nothing));
    opens(&search, &run, "b", ShardIteratorPosition::TrimHorizon);
    assert_eq!(opened(&search, &mut run, Some("b1")), Pause::Nothing);
    fetches(&search, &run, "b", "b1");
    let (lines, pause) =
        search.records(&mut run, reply(vec![record(None, b"y")], Some("b2"), Some(0)));
    assert_eq!((lines, pause), (vec!["y".to_string()], wait));
    // The round is over: the first shard is read on from where it was left.
    fetches(&search, &run, "a", "a3");
    let (_, pause) = search.records(&mut run, reply(vec![], Some("a4"), Some(0)));
    assert_eq!(pause, Pause::Nothing);
    fetches(&search, &run, "b", "b2");
    // A shard that ends is left out from then on.
    let (_, pause) = search.records(&mut run, reply(vec![], None, Some(0)));
    assert_eq!(pause, wait);
    fetches(&search, &run, "a", "a4");
    let (_, pause) = search.records(&mut run, reply(vec![], Some("a5"), Some(0)));
    assert_eq!(pause, wait);
    fetches(&search, &run, "a", "a5");
    let (_, pause) = search.records(&mut run, reply(vec![], None, None));
    assert_eq!(pause, Pause::Nothing);
    assert!(matches!(search.action(&run), KinesisAction::Done));
}

#[test]
fn rounds_pass_over_shards_without_iterator() {
    let search = watching();
    let mut run = search.begin_search(vec!["a".to_string(), "b".to_string(), "c".to_string()]);
    opened(&search, &mut run, Some("a1"));
    search.records(&mut run, reply(vec![], Some("a2"), Some(0)));
    assert_eq!(opened(&search, &mut run, None), Pause::Nothing);
    opens(&search, &run, "c", ShardIteratorPosition::TrimHorizon);
    assert_eq!(
        opened(&search, &mut run, None),
        Pause::Interval(Duration::from_secs(3))
    );
    fetches(&search, &run, "a", "a2");
}

#[test]
fn shards_are_read_one_after_the_other() {
    let search = search_of(config());
    let mut run = search.begin_search(vec!["a".to_string(), "b".to_string(), "c".to_string()]);
    opens(&search, &run, "a", ShardIteratorPosition::TrimHorizon);
    assert_eq!(opened(&search, &mut run, Some("a1")), Pause::Nothing);
    fetches(&search, &run, "a", "a1");
    let (lines, pause) = search.records(
        &mut run,
        reply(vec![record(None, b"x"), record(None, b"y")], Some("a2"), Some(9)),
    );
    assert_eq!(lines, vec!["x", "y"]);
    assert_eq!(pause, Pause::Millis(250));
    fetches(&search, &run, "a", "a2");
    // At the tip, the next shard has its turn.
    let (_, pause) = search.records(&mut run, reply(vec![], Some("a3"), Some(0)));
    assert_eq!(pause, Pause::Nothing);
    opens(&search, &run, "b", ShardIteratorPosition::TrimHorizon);
    // A shard without iterator is passed over.
    assert_eq!(opened(&search, &mut run, None), Pause::Nothing);
    opens(&search, &run, "c", ShardIteratorPosition::TrimHorizon);
    assert_eq!(opened(&search, &mut run, Some("c1")), Pause::Nothing);
    // A drained shard ends.
    let (_, pause) = search.records(&mut run, reply(vec![], None, None));
    assert_eq!(pause, Pause::Nothing);
    assert!(matches!(search.action(&run), KinesisAction::Done));
}

#[test]
fn watched_shards_are_looked_at_again() {
    let search = search_of(KinesisSearchConfig {
        watch: true,
        watch_interval: Duration::from_millis(1_500),
        start: Some(77),
        ..config()
    });
    let mut run = search.begin_search(vec!["a".to_string()]);
    opens(&search, &run, "a", ShardIteratorPosition::AtTimestamp(77));
    assert_eq!(opened(&search, &mut run, Some("a1")), Pause::Nothing);
    let (_, pause) = search.records(&mut run, reply(vec![], Some("a2"), Some(0)));
    assert_eq!(pause, Pause::Interval(Duration::from_millis(1_500)));
    fetches(&search, &run, "a", "a2");
    let (_, pause) = search.records(&mut run, reply(vec![], Some("a3"), None));
    assert_eq!(pause, Pause::Millis(250));
}

#[test]
fn a_record_past_the_window_ends_its_shard() {
    let search = search_of(KinesisSearchConfig {
        end: Some(10),
        watch: true,
        ..config()
    });
    let mut run = search.begin_search(vec!["a".to_string(), "b".to_string()]);
    assert_eq!(opened(&search, &mut run, Some("a1")), Pause::Nothing);
    let (lines, pause) = search.records(
        &mut run,
        reply(
            vec![
                record(Some(9), b"nine"),
                record(None, b"unknown"),
                record(Some(10), b"ten"),
                record(Some(11), b"eleven"),
                record(Some(3), b"three"),
            ],
            Some("a2"),
            Some(5),
        ),
    );
    assert_eq!(lines, vec!["nine", "unknown", "ten"]);
    assert_eq!(pause, Pause::Nothing);
    opens(&search, &run, "b", ShardIteratorPosition::TrimHorizon);
}

#[test]
fn shard_columns_are_as_wide_as_the_names() {
    let search = search_of(KinesisSearchConfig {
        output_shard_enabled: true,
        ..config()
    });
    let mut run = search.begin_search(vec!["shard-1".to_string(), "shard-22".to_string()]);
    assert_eq!(opened(&search, &mut run, Some("i")), Pause::Nothing);
    let (lines, _) = search.records(&mut run, reply(vec![record(None, b"m")], None, None));
    assert_eq!(lines, vec!["shard-1  m"]);
}

#[test]
fn searches_without_work_are_done() {
    let search = search_of(config());
    let run = search.begin_search(vec![]);
    assert!(matches!(search.action(&run), KinesisAction::Done));
    let objects = reply(vec![record(None, b"x"), record(None, b"{}")], None, None);
    assert!(search.is_searchable(&objects));
    let steps = search_of(KinesisSearchConfig {
        query: Some("a[1::2147483647]".to_string()),
        ..config()
    });
    assert!(!steps.is_searchable(&objects));
    assert!(steps.is_searchable(&reply(vec![record(None, b"x"), record(None, b"\xff{}")], None, None)));
}

#[test]
fn shard_pages_go_by_name_then_by_token() {
    assert!(matches!(shards_request("s", None), ShardsRequest::Stream(name) if name == "s"));
    assert!(
        matches!(shards_request("s", Some("t".to_string())), ShardsRequest::Token(t) if t == "t")
    );
}

#[test]
fn sent_records_keep_what_they_hold() {
    let sent = |arrival| SentRecord {
        sequence_number: "7".to_string(),
        partition_key: "k".to_string(),
        arrival,
        data: vec![1, 2],
    };
    let rec = kinesis_record("shard", sent(Some(Some(5))));
    assert_eq!(rec.shard_id, "shard");
    assert_eq!(rec.sequence_number, "7");
    assert_eq!(rec.partition_key, "k");
    assert_eq!(rec.data, vec![1, 2]);
    assert_eq!(rec.approximate_arrival_timestamp, Some(5));
    let at = |arrival| kinesis_record("shard", sent(arrival)).approximate_arrival_timestamp;
    assert_eq!(at(Some(None)), Some(0));
    assert_eq!(at(None), None);
}
