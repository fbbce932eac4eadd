//! Colors, columns, timestamps, queries and pages.

use std::time::Duration;

use awslogs::client::{FilterResponse, LogEvent, StreamMeta};
use awslogs::logs::{
    ansi_colored, check_matched, filter_streams_by_window, ljust, longest_name, maybe_color,
    millis_to_iso, rstrip, AwsLogs, AwsLogsConfig, Color, ColorPreference, LogsNext, LogsPlan,
    LogsRun, StreamPattern, MAX_EVENTS_PER_CALL,
};
use awslogs::query::{has_fitting_slices, reshape, Found};
use awslogs::text;
use awslogs::time::parse_datetime_at;
use awslogs::AwsLogsError;

#[test]
fn ljust_pads_to_width() {
    assert_eq!(ljust("foo", 5), "foo  ");
    assert_eq!(ljust("foobar", 3), "foobar");
}

#[test]
fn millis_to_iso_matches_python_format() {
    assert_eq!(millis_to_iso(0), "1970-01-01T00:00:00.000Z");
    assert_eq!(millis_to_iso(1_500), "1970-01-01T00:00:01.500Z");
    assert_eq!(millis_to_iso(5_006), "1970-01-01T00:00:05.006Z");
}

#[test]
fn ansi_colored_matches_termcolor() {
    assert_eq!(ansi_colored("AAA", Color::Green), "\x1b[32mAAA\x1b[0m");
    assert_eq!(ansi_colored("DDD", Color::Cyan), "\x1b[36mDDD\x1b[0m");
}

#[test]
fn colors_have_their_codes() {
    assert_eq!(Color::Yellow.code(), 33);
    assert_eq!(Color::Blue.code(), 34);
    assert_eq!(Color::Red.code(), 31);
    assert_eq!(maybe_color("x", Color::Red, true), "\x1b[31mx\x1b[0m");
    assert_eq!(maybe_color("x", Color::Red, false), "x");
    assert!(ColorPreference::Always.enabled());
    assert!(!ColorPreference::Never.enabled());
    assert!(ColorPreference::Auto.enabled_on(true));
    assert!(!ColorPreference::Auto.enabled_on(false));
    assert_eq!(
        ColorPreference::Auto.enabled(),
        supports_color::on(supports_color::Stream::Stdout).is_some()
    );
}

#[test]
fn columns_count_characters() {
    assert_eq!(ljust("\u{1f44d}", 3), "\u{1f44d}  ");
    assert_eq!(ljust("", 0), "");
    assert_eq!(longest_name(&vec![]), 10);
    assert_eq!(
        longest_name(&vec!["a".to_string(), "\u{1f44d}".to_string(), "bc".to_string()]),
        4
    );
    assert_eq!(rstrip("a b \t\u{2003}\n"), "a b");
    assert_eq!(rstrip(" \n"), "");
    assert_eq!(rstrip(" a"), " a");
}

#[test]
fn timestamps_far_from_the_epoch() {
    assert_eq!(millis_to_iso(-1), "1969-12-31T23:59:59.999Z");
    assert_eq!(millis_to_iso(1_472_610_205_000), "2016-08-31T02:23:25.000Z");
    assert_eq!(millis_to_iso(951_782_400_000), "2000-02-29T00:00:00.000Z");
    assert_eq!(millis_to_iso(253_402_300_800_000), "+10000-01-01T00:00:00.000Z");
    assert_eq!(millis_to_iso(-62_167_219_200_001), "-0001-12-31T23:59:59.999Z");
    // Out of the calendar's range.
    assert_eq!(millis_to_iso(i64::MAX), "1970-01-01T00:00:00.000Z");
    assert_eq!(millis_to_iso(i64::MIN), "1970-01-01T00:00:00.000Z");
}

#[test]
fn printed_timestamps_can_be_read() {
    for millis in [
        0,
        1_500,
        -1,
        951_782_400_000,
        1_472_610_205_123,
        253_402_300_799_999,
        -62_167_219_200_000,
    ] {
        let text = millis_to_iso(millis);
        assert_eq!(
            parse_datetime_at(Some(&text), 0).unwrap(),
            Some(i64::div_euclid(millis, 1000) * 1000),
            "{text}"
        );
    }
}

#[test]
fn timestamps_tell_instants_apart() {
    let texts: Vec<String> = [0, 1, 999, 1_000, 60_000, 86_400_000, 31_536_000_000]
        .iter()
        .map(|&m| millis_to_iso(m))
        .collect();
    for (i, a) in texts.iter().enumerate() {
        assert_eq!(a.len(), 24);
        for b in &texts[i + 1..] {
            assert_ne!(a, b);
        }
    }
}

fn meta(name: &str, first: Option<i64>, last: Option<i64>) -> StreamMeta {
    StreamMeta {
        name: name.to_string(),
        first_event_timestamp: first,
        last_ingestion_time: last,
    }
}

#[test]
fn windows_and_unknown_spans() {
    let metas = vec![
        meta("unknown", None, None),
        meta("half", Some(100), None),
        meta("early", Some(1), Some(4)),
        meta("edge", Some(1), Some(5)),
        meta("late", Some(8), Some(9)),
        meta("upside down", Some(7), Some(6)),
    ];
    assert_eq!(
        filter_streams_by_window(&metas, Some(5), Some(7)),
        vec!["unknown", "half", "edge"]
    );
    // A wider window keeps what a narrower one does.
    assert_eq!(
        filter_streams_by_window(&metas, Some(4), Some(8)),
        vec!["unknown", "half", "early", "edge", "late"]
    );
    assert_eq!(
        filter_streams_by_window(&metas, None, None),
        vec!["unknown", "half", "early", "edge", "late"]
    );
    assert_eq!(
        filter_streams_by_window(&[meta("old", Some(-9), Some(-1))], None, None),
        Vec::<String>::new()
    );
    assert_eq!(
        filter_streams_by_window(&metas, Some(7), Some(5)),
        vec!["unknown", "half"]
    );
}

fn texts(n: usize) -> Vec<String> {
    (0..n).map(|i| format!("s{i}")).collect()
}

#[test]
fn requests_name_one_to_a_hundred_streams() {
    assert_eq!(check_matched("p", texts(100)).unwrap(), texts(100));
    assert_eq!(check_matched("p", texts(1)).unwrap(), vec!["s0"]);
    match check_matched("p", texts(101)) {
        Err(AwsLogsError::TooManyStreamsFiltered {
            pattern,
            count,
            limit,
        }) => assert_eq!((pattern.as_str(), count, limit), ("p", 101, 100)),
        other => panic!("{other:?}"),
    }
    match check_matched("p", vec![]) {
        Err(AwsLogsError::NoStreamsFiltered(pattern)) => assert_eq!(pattern, "p"),
        other => panic!("{other:?}"),
    }
}

fn message_of(e: AwsLogsError) -> String {
    match e {
        AwsLogsError::Aws(chain) => {
            assert_eq!(chain.len(), 1);
            chain[0].clone()
        }
        other => panic!("{other:?}"),
    }
}

#[test]
fn patterns_are_anchored() {
    let names = vec!["web-1".to_string(), "my-web".to_string(), "".to_string()];
    let select = |p: &str| StreamPattern::new(p).ok().unwrap().select(&names);
    assert_eq!(select("web"), vec!["web-1"]);
    assert_eq!(select("my"), vec!["my-web"]);
    assert_eq!(select("web-"), vec!["web-1"]);
    assert_eq!(select("b"), Vec::<String>::new());
    assert_eq!(select("web/1"), Vec::<String>::new());
    assert_eq!(select("ALL"), names);
    assert_eq!(select(""), names);
    let e = StreamPattern::new("(").err().unwrap();
    assert!(message_of(e).starts_with("invalid pattern: "));
}

#[test]
fn alternatives_are_anchored() {
    let all = ["AAA", "ABA", "ACA", "BAA", "BBA", "BBB", "CAC"];
    let names: Vec<String> = all.iter().map(|s| s.to_string()).collect();
    let select = |p: &str| StreamPattern::new(p).ok().unwrap().select(&names);
    assert_eq!(select("B|AC"), vec!["ACA", "BAA", "BBA", "BBB"]);
    assert_eq!(select("AC|B"), vec!["ACA", "BAA", "BBA", "BBB"]);
    assert_eq!(select("C|"), names);
    // Short plain patterns compile, however many alternatives they have.
    let many = vec!["AC"; 333].join("|");
    assert_eq!((many.len(), select(&many)), (998, vec!["ACA".to_string()]));
    let long = "A".repeat(1000);
    assert_eq!(select(&long), Vec::<String>::new());
    let bars = "|".repeat(1000);
    assert_eq!(select(&bars), names);
    assert_eq!(select("(?:A|B)B"), vec!["ABA", "BBA", "BBB"]);
    let metas: Vec<StreamMeta> = all
        .iter()
        .map(|s| StreamMeta {
            name: s.to_string(),
            first_event_timestamp: Some(0),
            last_ingestion_time: Some(i64::MAX),
        })
        .collect();
    let logs = logs_of(named(Some("g"), Some("B|AC")));
    let expected = vec!["ACA", "BAA", "BBA", "BBB"];
    assert_eq!(logs.streams_matching(&metas, "B|AC").unwrap(), expected);
    match logs.plan_logs() {
        Ok(LogsPlan::Match(pattern)) => {
            assert_eq!(logs.choose_streams(&pattern, &metas).unwrap(), expected)
        }
        _ => panic!("a pattern is matched"),
    }
}

fn logs_of(cfg: AwsLogsConfig) -> AwsLogs {
    AwsLogs::new(cfg).ok().unwrap()
}

fn named(group: Option<&str>, stream: Option<&str>) -> AwsLogsConfig {
    AwsLogsConfig {
        log_group_name: group.map(|s| s.to_string()),
        log_stream_name: stream.map(|s| s.to_string()),
        color: ColorPreference::Never,
        ..Default::default()
    }
}

#[test]
fn plans_what_to_read() {
    let none = logs_of(named(None, Some("x")));
    assert_eq!(
        message_of(none.plan_logs().err().unwrap()),
        "log_group_name required"
    );
    assert_eq!(
        message_of(none.streams_group(None).err().unwrap()),
        "log_group_name required"
    );
    assert_eq!(
        message_of(none.begin_logs(vec![]).err().unwrap()),
        "log_group_name required"
    );
    assert!(matches!(
        logs_of(named(Some("g"), None)).plan_logs(),
        Ok(LogsPlan::Streams(s)) if s.is_empty()
    ));
    assert!(matches!(
        logs_of(named(Some("g"), Some("ALL"))).plan_logs(),
        Ok(LogsPlan::Streams(s)) if s.is_empty()
    ));
    assert!(matches!(
        logs_of(named(Some("g"), Some("web.*"))).plan_logs(),
        Ok(LogsPlan::Match(_))
    ));
    let explicit = AwsLogsConfig {
        explicit_streams: Some(vec!["a(b".to_string()]),
        ..named(Some("g"), Some("a(b"))
    };
    assert!(matches!(
        logs_of(explicit).plan_logs(),
        Ok(LogsPlan::Streams(s)) if s == vec!["a(b"]
    ));
    let bad = logs_of(named(Some("g"), Some("a(b")));
    assert!(message_of(bad.plan_logs().err().unwrap()).starts_with("invalid pattern: "));
}

fn event(id: &str, message: &str) -> LogEvent {
    LogEvent {
        event_id: id.to_string(),
        timestamp: 1_500,
        ingestion_time: 5_006,
        message: message.to_string(),
        log_stream_name: "st".to_string(),
    }
}

#[test]
fn lines_have_their_columns() {
    let cfg = AwsLogsConfig {
        output_timestamp_enabled: true,
        output_ingestion_time_enabled: true,
        ..named(Some("g"), None)
    };
    let logs = logs_of(cfg);
    assert_eq!(
        logs.format_event(&event("1", "hi there \n"), "g", 3, 4, false),
        "g   st   1970-01-01T00:00:01.500Z 1970-01-01T00:00:05.006Z hi there"
    );
    assert_eq!(
        logs.format_event(&event("1", ""), "g", 1, 2, true),
        "\x1b[32mg\x1b[0m \x1b[36mst\x1b[0m \
         \x1b[33m1970-01-01T00:00:01.500Z\x1b[0m \x1b[34m1970-01-01T00:00:05.006Z\x1b[0m "
    );
}

fn one_event(message: &str) -> FilterResponse {
    FilterResponse {
        events: vec![event("1", message)],
        next_token: None,
    }
}

fn queried(query: &str, message: &str) -> String {
    let cfg = AwsLogsConfig {
        output_group_enabled: false,
        output_stream_enabled: false,
        query: Some(query.to_string()),
        ..named(Some("g"), None)
    };
    let logs = logs_of(cfg);
    assert!(logs.is_searchable(&one_event(message)));
    logs.format_event(&event("1", message), "g", 1, 1, false)
}

#[test]
fn queries_reshape_objects() {
    assert_eq!(queried("a.b", r#"{"a": {"b": "c "}}"#), "c");
    assert_eq!(queried("a", r#"{"a": [1, 2]}"#), "[1,2]");
    assert_eq!(queried("a[::2]", r#"{"a": [1, 2, 3]}"#), "[1,3]");
    assert_eq!(queried("nothing", r#"{"a": 1}"#), "null");
    // What is no object, no JSON, or makes the search fail stays as it is.
    assert_eq!(queried("a", r#"["a"]"#), r#"["a"]"#);
    assert_eq!(queried("a", r#"{"a": "#), r#"{"a":"#);
    assert_eq!(queried("abs(a)", r#"{"a": "x"}"#), r#"{"a": "x"}"#);
    assert_eq!(queried("a", "plain"), "plain");
    assert_eq!(queried("a", ""), "");
}

#[test]
fn queries_that_do_not_compile() {
    let cfg = AwsLogsConfig {
        query: Some("[".to_string()),
        ..Default::default()
    };
    let message = message_of(AwsLogs::new(cfg).err().unwrap());
    assert!(message.starts_with("invalid JMESPath: "), "{message}");
}

#[test]
fn found_values_take_the_place_of_objects() {
    let json = || Some(Found::Json("7".to_string()));
    assert_eq!(reshape("{}".to_string(), json()), "7");
    assert_eq!(reshape("x".to_string(), json()), "x");
    assert_eq!(
        reshape("{}".to_string(), Some(Found::Text("t".to_string()))),
        "t"
    );
    assert_eq!(reshape("{}".to_string(), None), "{}");
}

#[test]
fn slices_fit() {
    for query in [
        "a[1:2:3]",
        "a[1234567890]",
        "a[0:999999999:-1]",
        "a[?b == ':1234567890']",
        r"a[?b == '\':1234567890']",
        "{a: b1234567890}",
        "a[::2147483647]",
        "a[0:5:2147483647]",
        "a[:: -2147483647]",
        "a[2000000000::2]",
    ] {
        assert!(has_fitting_slices(query), "{query}");
    }
    for query in ["a[1::2147483647]", "a[-1::2147483647]", "b.a[ 7 : 9 : 2147483647 ]"] {
        assert!(!has_fitting_slices(query), "{query}");
        let logs = logs_of(AwsLogsConfig {
            query: Some(query.to_string()),
            ..Default::default()
        });
        // Only what looks like an object is searched.
        assert!(!logs.is_searchable(&one_event("{}")));
        assert!(logs.is_searchable(&one_event("plain {}")));
        assert_eq!(
            logs.format_event(&event("1", "plain {}"), "g", 1, 1, false),
            "g st plain {}"
        );
    }
    assert_eq!(queried("a[::2147483647]", r#"{"a": [1, 2]}"#), "[1]");
    assert_eq!(queried("a[::-2147483647]", r#"{"a": [1, 2]}"#), "[2]");
    assert_eq!(queried("a[5::2147483642]", r#"{"a": [1, 2]}"#), "[]");
}

fn page(ids: &[&str], token: Option<&str>) -> FilterResponse {
    FilterResponse {
        events: ids.iter().map(|id| event(id, id)).collect(),
        next_token: token.map(|t| t.to_string()),
    }
}

fn bare() -> AwsLogsConfig {
    AwsLogsConfig {
        output_group_enabled: false,
        output_stream_enabled: false,
        ..named(Some("g"), None)
    }
}

#[test]
fn pages_ask_for_the_next() {
    let cfg = AwsLogsConfig {
        start: Some(3),
        end: Some(4),
        filter_pattern: Some("f".to_string()),
        ..bare()
    };
    let logs = logs_of(cfg);
    let mut run = logs.begin_logs(vec!["s1".to_string()]).unwrap();
    let (params, token) = logs.request(&run);
    assert_eq!(params.log_group_name, "g");
    assert_eq!(params.log_stream_names, vec!["s1"]);
    assert_eq!((params.start_time, params.end_time), (Some(3), Some(4)));
    assert_eq!(params.filter_pattern.as_deref(), Some("f"));
    assert!(params.interleaved);
    assert_eq!(token, None);
    let (lines, next) = logs.page(&mut run, page(&["a", "b"], Some("t1")));
    assert_eq!(lines, vec!["a", "b"]);
    assert_eq!(next, LogsNext::Fetch);
    assert_eq!(logs.request(&run).1.as_deref(), Some("t1"));
    let (lines, next) = logs.page(&mut run, page(&["b", "c"], None));
    assert_eq!(lines, vec!["c"]);
    assert_eq!(next, LogsNext::Done);
    assert_eq!(logs.request(&run).1, None);
}

#[test]
fn watching_waits_and_repeats_print_nothing() {
    let cfg = AwsLogsConfig {
        watch: true,
        watch_interval: Duration::from_millis(7_500),
        ..bare()
    };
    let logs = logs_of(cfg);
    let mut run = logs.begin_logs(vec![]).unwrap();
    let (lines, next) = logs.page(&mut run, page(&["a", "a", "b"], None));
    assert_eq!(lines, vec!["a", "b"]);
    assert_eq!(next, LogsNext::Wait(Duration::from_millis(7_500)));
    let (lines, _) = logs.page(&mut run, page(&["b", "a", "b"], None));
    assert_eq!(lines, Vec::<String>::new());
}

#[test]
fn cutting_pages_elsewhere_prints_the_same() {
    let logs = logs_of(bare());
    let ids = ["a", "b", "a", "c", "b", "d"];
    let mut whole = LogsRun::new("g".to_string(), vec![], false);
    let expected = logs.page(&mut whole, page(&ids, None)).0;
    assert_eq!(expected, vec!["a", "b", "c", "d"]);
    for cut in 0..ids.len() {
        let mut run = LogsRun::new("g".to_string(), vec![], false);
        let mut lines = logs.page(&mut run, page(&ids[..cut], Some("t"))).0;
        lines.extend(logs.page(&mut run, page(&ids[cut..], None)).0);
        assert_eq!(lines, expected);
    }
}

#[test]
fn old_ids_are_forgotten() {
    let logs = logs_of(bare());
    let mut run = LogsRun::new("g".to_string(), vec![], false);
    let ids: Vec<String> = (0..MAX_EVENTS_PER_CALL).map(|i| format!("{i}")).collect();
    let refs: Vec<&str> = ids.iter().map(|s| s.as_str()).collect();
    let (lines, _) = logs.page(&mut run, page(&refs[0..5000], Some("t")));
    assert_eq!(lines.len(), 5000);
    let (lines, _) = logs.page(&mut run, page(&refs[5000..], Some("t")));
    assert_eq!(lines.len(), 5000);
    assert_eq!(logs.page(&mut run, page(&["0", "new"], Some("t"))).0, vec!["new"]);
    // `new` took the place of `0`, which then takes that of `1`.
    assert_eq!(logs.page(&mut run, page(&["0"], Some("t"))).0, vec!["0"]);
    assert_eq!(
        logs.page(&mut run, page(&["2", "new", "0"], Some("t"))).0,
        Vec::<String>::new()
    );
    assert_eq!(logs.page(&mut run, page(&["1"], Some("t"))).0, vec!["1"]);
}

#[test]
fn stream_columns_are_as_wide_as_the_names() {
    let cfg = AwsLogsConfig {
        output_group_enabled: false,
        ..named(Some("g"), None)
    };
    let logs = logs_of(cfg);
    let mut run = logs
        .begin_logs(vec!["st".to_string(), "stream".to_string()])
        .unwrap();
    assert_eq!(
        logs.page(&mut run, page(&["m"], None)).0,
        vec!["st     m"]
    );
    let mut run = logs.begin_logs(vec![]).unwrap();
    assert_eq!(
        logs.page(&mut run, page(&["m"], None)).0,
        vec!["st         m"]
    );
}

#[test]
fn text_operations() {
    assert!(text::contains("abcabd", "abd"));
    assert!(text::contains("x", ""));
    assert!(!text::contains("ab", "abc"));
    assert!(text::has_prefix("Error: x", "Error"));
    assert!(!text::has_prefix("Err", "Error"));
    assert_eq!(text::trim("\u{a0} a b\t"), "a b");
    assert_eq!(
        text::join(&["a".to_string(), "b".to_string(), "".to_string()], ", "),
        "a, b, "
    );
    assert_eq!(text::decimal(0), "0");
    assert_eq!(text::decimal(u64::MAX), "18446744073709551615");
    assert_eq!(text::byte_length("a\u{e9}"), 3);
    assert!(text::same_text("a\u{e9}", "a\u{e9}"));
    assert!(!text::same_text("a", "b"));
    assert!(!text::same_text("a", "ab"));
}
