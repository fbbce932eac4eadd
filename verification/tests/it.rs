//! Whole commands, from their arguments to what they print, against replies made up here.

use std::collections::VecDeque;

use awslogs::cli::{handle_result, ColorWhen, CommonAwsArgs, GetArgs, GroupsArgs, StreamsArgs};
use awslogs::client::{add_group_page, FilterResponse, LogEvent, StreamMeta};
use awslogs::logs::{
    filter_streams_by_window, AwsLogs, AwsLogsConfig, ColorPreference, LogsNext, LogsPlan,
    ALL_WILDCARD,
};
use awslogs::AwsLogsError;

fn stream(name: &str) -> StreamMeta {
    StreamMeta {
        name: name.to_string(),
        first_event_timestamp: Some(0),
        last_ingestion_time: Some(i64::MAX),
    }
}

fn stream_with(name: &str, first: i64, ingestion: i64) -> StreamMeta {
    StreamMeta {
        name: name.to_string(),
        first_event_timestamp: Some(first),
        last_ingestion_time: Some(ingestion),
    }
}

fn event(id: u32, timestamp: i64, ingestion: i64, message: &str, stream: &str) -> LogEvent {
    LogEvent {
        event_id: id.to_string(),
        timestamp,
        ingestion_time: ingestion,
        message: message.to_string(),
        log_stream_name: stream.to_string(),
    }
}

fn abcde_filter_responses() -> Vec<FilterResponse> {
    vec![
        FilterResponse {
            events: vec![
                event(1, 0, 5000, "Hello 1", "DDD"),
                event(2, 0, 5000, "Hello 2", "EEE"),
                event(3, 0, 5006, "Hello 3 \u{1f44e}", "DDD"),
            ],
            next_token: Some("token".to_string()),
        },
        FilterResponse {
            events: vec![
                event(4, 0, 5000, "Hello 4", "EEE"),
                event(5, 0, 5000, "Hello 5", "DDD"),
                event(6, 0, 5009, "Hello 6 \u{1f44d}", "EEE"),
            ],
            next_token: Some("token".to_string()),
        },
        FilterResponse {
            events: vec![],
            next_token: None,
        },
    ]
}

fn common() -> CommonAwsArgs {
    CommonAwsArgs {
        aws_access_key_id: None,
        aws_secret_access_key: None,
        aws_session_token: None,
        aws_profile: None,
        aws_region: None,
        aws_endpoint_url: None,
    }
}

fn get_args(group: &str, stream: &str, color: ColorWhen) -> GetArgs {
    GetArgs {
        log_group_name: group.to_string(),
        log_stream_name: stream.to_string(),
        filter_pattern: None,
        watch: false,
        watch_interval: 1,
        output_group_enabled: true,
        output_stream_enabled: true,
        output_timestamp_enabled: false,
        output_ingestion_time_enabled: false,
        start: "5m".to_string(),
        end: None,
        color,
        query: None,
        common: common(),
    }
}

fn get(
    args: &GetArgs,
    metas: &[StreamMeta],
    responses: Vec<FilterResponse>,
    out: &mut String,
) -> Result<(), AwsLogsError> {
    let logs = AwsLogs::new(args.settings()?)?;
    let streams = match logs.plan_logs()? {
        LogsPlan::Streams(streams) => streams,
        LogsPlan::Match(pattern) => logs.choose_streams(&pattern, metas)?,
    };
    let mut run = logs.begin_logs(streams)?;
    let mut replies: VecDeque<FilterResponse> = responses.into();
    loop {
        let (params, _token) = logs.request(&run);
        assert_eq!(params.log_group_name, args.log_group_name);
        let reply = replies.pop_front().unwrap_or_default();
        assert!(logs.is_searchable(&reply));
        let (lines, next) = logs.page(&mut run, reply);
        for line in lines {
            out.push_str(&line);
            out.push('\n');
        }
        match next {
            LogsNext::Fetch => {}
            LogsNext::Wait(_) => panic!("nothing is watched"),
            LogsNext::Done => return Ok(()),
        }
    }
}

/// The exit code, the standard output and the standard error of a `get`.
fn run_get(
    args: &GetArgs,
    metas: &[StreamMeta],
    responses: Vec<FilterResponse>,
) -> (i32, String, String) {
    let mut out = String::new();
    let (code, err) = handle_result(get(args, metas, responses, &mut out));
    (code, out, err)
}

fn ddd_eee() -> Vec<StreamMeta> {
    vec![stream("DDD"), stream("EEE")]
}

#[test]
fn test_get_groups() {
    let mut groups = Vec::new();
    add_group_page(
        &mut groups,
        Some(vec![
            Some("A".to_string()),
            Some("B".to_string()),
            Some("C".to_string()),
        ]),
    );
    add_group_page(&mut groups, None);
    add_group_page(
        &mut groups,
        Some(vec![
            Some("D".to_string()),
            None,
            Some("E".to_string()),
            Some("F".to_string()),
            Some("G".to_string()),
        ]),
    );
    assert_eq!(groups, vec!["A", "B", "C", "D", "E", "F", "G"]);
}

#[test]
fn test_get_groups_with_log_group_prefix() {
    let args = GroupsArgs {
        log_group_prefix: Some("log_group_prefix".to_string()),
        common: common(),
    };
    let logs = AwsLogs::new(args.config()).unwrap();
    assert_eq!(
        logs.config().log_group_prefix.as_deref(),
        Some("log_group_prefix")
    );
}

#[test]
fn test_get_streams() {
    let metas = vec![
        stream("A"),
        stream("B"),
        stream("C"),
        stream("D"),
        stream("E"),
        stream("F"),
        stream("G"),
    ];
    let cfg = AwsLogsConfig {
        log_group_name: Some("group".to_string()),
        ..Default::default()
    };
    let logs = AwsLogs::new(cfg).unwrap();
    assert_eq!(logs.streams_group(None).unwrap(), "group");
    assert_eq!(logs.streams_group(Some("other")).unwrap(), "other");
    assert_eq!(
        logs.get_streams(&metas),
        vec!["A", "B", "C", "D", "E", "F", "G"]
    );
}

#[test]
fn test_get_streams_filtered_by_date() {
    let metas = vec![
        stream_with("A", 0, 1),
        stream_with("B", 0, 6),
        stream("C"),
        stream_with("D", i64::MAX - 1, i64::MAX),
        stream_with("E", 0, 5),
    ];
    let result = filter_streams_by_window(&metas, Some(5), Some(7));
    assert_eq!(result, vec!["B", "C", "E"]);
}

#[test]
fn test_streams_matching() {
    let streams = vec![
        stream("AAA"),
        stream("ABA"),
        stream("ACA"),
        stream("BAA"),
        stream("BBA"),
        stream("BBB"),
        stream("CAC"),
    ];
    let logs = AwsLogs::new(AwsLogsConfig::default()).unwrap();
    assert_eq!(
        logs.streams_matching(&streams, ALL_WILDCARD).unwrap(),
        vec!["AAA", "ABA", "ACA", "BAA", "BBA", "BBB", "CAC"]
    );
    assert_eq!(
        logs.streams_matching(&streams, "A").unwrap(),
        vec!["AAA", "ABA", "ACA"]
    );
    assert_eq!(
        logs.streams_matching(&streams, "A[AC]A").unwrap(),
        vec!["AAA", "ACA"]
    );
}

#[test]
fn test_main_get() {
    let args = get_args("AAA", "DDD", ColorWhen::Never);
    let (code, stdout, _) = run_get(&args, &ddd_eee(), abcde_filter_responses());
    let expected = "AAA DDD Hello 1\n\
                    AAA EEE Hello 2\n\
                    AAA DDD Hello 3 \u{1f44e}\n\
                    AAA EEE Hello 4\n\
                    AAA DDD Hello 5\n\
                    AAA EEE Hello 6 \u{1f44d}\n";
    assert_eq!(stdout, expected);
    assert_eq!(code, 0);
}

#[test]
fn test_main_get_with_color() {
    let args = get_args("AAA", "DDD", ColorWhen::Always);
    let (code, stdout, _) = run_get(&args, &ddd_eee(), abcde_filter_responses());
    let expected = "\x1b[32mAAA\x1b[0m \x1b[36mDDD\x1b[0m Hello 1\n\
                    \x1b[32mAAA\x1b[0m \x1b[36mEEE\x1b[0m Hello 2\n\
                    \x1b[32mAAA\x1b[0m \x1b[36mDDD\x1b[0m Hello 3 \u{1f44e}\n\
                    \x1b[32mAAA\x1b[0m \x1b[36mEEE\x1b[0m Hello 4\n\
                    \x1b[32mAAA\x1b[0m \x1b[36mDDD\x1b[0m Hello 5\n\
                    \x1b[32mAAA\x1b[0m \x1b[36mEEE\x1b[0m Hello 6 \u{1f44d}\n";
    assert_eq!(stdout, expected);
    assert_eq!(code, 0);
}

#[test]
fn test_main_get_query() {
    let responses = vec![
        FilterResponse {
            events: vec![
                event(1, 0, 5000, r#"{"foo": "bar"}"#, "DDD"),
                event(2, 0, 5000, r#"{"foo": {"bar": "baz"}}"#, "EEE"),
                event(3, 0, 5006, "Hello 3 \u{1f44e}", "DDD"),
            ],
            next_token: Some("token".to_string()),
        },
        FilterResponse::default(),
    ];
    let args = GetArgs {
        query: Some("foo".to_string()),
        ..get_args("AAA", "DDD", ColorWhen::Always)
    };
    let (code, stdout, _) = run_get(&args, &ddd_eee(), responses);
    let expected = "\x1b[32mAAA\x1b[0m \x1b[36mDDD\x1b[0m bar\n\
                    \x1b[32mAAA\x1b[0m \x1b[36mEEE\x1b[0m {\"bar\":\"baz\"}\n\
                    \x1b[32mAAA\x1b[0m \x1b[36mDDD\x1b[0m Hello 3 \u{1f44e}\n";
    assert_eq!(stdout, expected);
    assert_eq!(code, 0);
}

#[test]
fn test_get_nogroup() {
    let args = GetArgs {
        output_group_enabled: false,
        ..get_args("AAA", "DDD", ColorWhen::Never)
    };
    let (code, stdout, _) = run_get(&args, &ddd_eee(), abcde_filter_responses());
    let expected = "DDD Hello 1\n\
                    EEE Hello 2\n\
                    DDD Hello 3 \u{1f44e}\n\
                    EEE Hello 4\n\
                    DDD Hello 5\n\
                    EEE Hello 6 \u{1f44d}\n";
    assert_eq!(stdout, expected);
    assert_eq!(code, 0);
}

#[test]
fn test_get_nostream() {
    let args = GetArgs {
        output_stream_enabled: false,
        ..get_args("AAA", "DDD", ColorWhen::Never)
    };
    let (code, stdout, _) = run_get(&args, &ddd_eee(), abcde_filter_responses());
    let expected = "AAA Hello 1\n\
                    AAA Hello 2\n\
                    AAA Hello 3 \u{1f44e}\n\
                    AAA Hello 4\n\
                    AAA Hello 5\n\
                    AAA Hello 6 \u{1f44d}\n";
    assert_eq!(stdout, expected);
    assert_eq!(code, 0);
}

fn bare_args() -> GetArgs {
    GetArgs {
        output_group_enabled: false,
        output_stream_enabled: false,
        ..get_args("AAA", "DDD", ColorWhen::Never)
    }
}

#[test]
fn test_get_nogroup_nostream() {
    let (code, stdout, _) = run_get(&bare_args(), &ddd_eee(), abcde_filter_responses());
    let expected = "Hello 1\n\
                    Hello 2\n\
                    Hello 3 \u{1f44e}\n\
                    Hello 4\n\
                    Hello 5\n\
                    Hello 6 \u{1f44d}\n";
    assert_eq!(stdout, expected);
    assert_eq!(code, 0);
}

#[test]
fn test_get_timestamp() {
    let args = GetArgs {
        output_timestamp_enabled: true,
        ..bare_args()
    };
    let (code, stdout, _) = run_get(&args, &ddd_eee(), abcde_filter_responses());
    let expected = "1970-01-01T00:00:00.000Z Hello 1\n\
                    1970-01-01T00:00:00.000Z Hello 2\n\
                    1970-01-01T00:00:00.000Z Hello 3 \u{1f44e}\n\
                    1970-01-01T00:00:00.000Z Hello 4\n\
                    1970-01-01T00:00:00.000Z Hello 5\n\
                    1970-01-01T00:00:00.000Z Hello 6 \u{1f44d}\n";
    assert_eq!(stdout, expected);
    assert_eq!(code, 0);
}

#[test]
fn test_get_ingestion_time() {
    let args = GetArgs {
        output_ingestion_time_enabled: true,
        ..bare_args()
    };
    let (code, stdout, _) = run_get(&args, &ddd_eee(), abcde_filter_responses());
    let expected = "1970-01-01T00:00:05.000Z Hello 1\n\
                    1970-01-01T00:00:05.000Z Hello 2\n\
                    1970-01-01T00:00:05.006Z Hello 3 \u{1f44e}\n\
                    1970-01-01T00:00:05.000Z Hello 4\n\
                    1970-01-01T00:00:05.000Z Hello 5\n\
                    1970-01-01T00:00:05.009Z Hello 6 \u{1f44d}\n";
    assert_eq!(stdout, expected);
    assert_eq!(code, 0);
}

#[test]
fn test_get_timestamp_and_ingestion_time() {
    let args = GetArgs {
        output_timestamp_enabled: true,
        output_ingestion_time_enabled: true,
        ..bare_args()
    };
    let (code, stdout, _) = run_get(&args, &ddd_eee(), abcde_filter_responses());
    let expected = "1970-01-01T00:00:00.000Z 1970-01-01T00:00:05.000Z Hello 1\n\
                    1970-01-01T00:00:00.000Z 1970-01-01T00:00:05.000Z Hello 2\n\
                    1970-01-01T00:00:00.000Z 1970-01-01T00:00:05.006Z Hello 3 \u{1f44e}\n\
                    1970-01-01T00:00:00.000Z 1970-01-01T00:00:05.000Z Hello 4\n\
                    1970-01-01T00:00:00.000Z 1970-01-01T00:00:05.000Z Hello 5\n\
                    1970-01-01T00:00:00.000Z 1970-01-01T00:00:05.009Z Hello 6 \u{1f44d}\n";
    assert_eq!(stdout, expected);
    assert_eq!(code, 0);
}

#[test]
fn test_main_get_deduplication() {
    let responses = vec![
        FilterResponse {
            events: vec![
                event(1, 0, 0, "Hello 1", "DDD"),
                event(2, 0, 0, "Hello 2", "EEE"),
                event(3, 0, 0, "Hello 3", "DDD"),
            ],
            next_token: Some("token".to_string()),
        },
        FilterResponse {
            events: vec![
                event(1, 0, 0, "Hello 1", "EEE"),
                event(2, 0, 0, "Hello 2", "DDD"),
                event(3, 0, 0, "Hello 3", "EEE"),
            ],
            next_token: Some("token".to_string()),
        },
        FilterResponse::default(),
    ];
    let args = get_args("AAA", "DDD", ColorWhen::Never);
    let (code, stdout, _) = run_get(&args, &ddd_eee(), responses);
    let expected = "AAA DDD Hello 1\nAAA EEE Hello 2\nAAA DDD Hello 3\n";
    assert_eq!(stdout, expected);
    assert_eq!(code, 0);
}

#[test]
fn test_main_get_no_matching_streams() {
    let args = get_args("AAA", "foo.*", ColorWhen::Auto);
    let (code, _stdout, stderr) = run_get(&args, &ddd_eee(), vec![]);
    let expected =
        "\x1b[31mNo streams match your pattern 'foo.*' for the given time period.\n\x1b[0m";
    assert_eq!(stderr, expected);
    assert_eq!(code, 7);
}

#[test]
fn test_main_groups() {
    let mut groups = Vec::new();
    add_group_page(
        &mut groups,
        Some(vec![
            Some("AAA".to_string()),
            Some("BBB".to_string()),
            Some("CCC".to_string()),
        ]),
    );
    let (code, stderr) = handle_result(Ok(()));
    assert_eq!(groups.join("\n") + "\n", "AAA\nBBB\nCCC\n");
    assert_eq!(stderr, "");
    assert_eq!(code, 0);
}

#[test]
fn test_main_streams() {
    let args = StreamsArgs {
        log_group_name: "AAA".to_string(),
        start: "1h".to_string(),
        end: None,
        common: common(),
    };
    let logs = AwsLogs::new(args.settings().unwrap()).unwrap();
    assert_eq!(logs.streams_group(None).unwrap(), "AAA");
    assert_eq!(
        logs.get_streams(&ddd_eee()).join("\n") + "\n",
        "DDD\nEEE\n"
    );
}

#[test]
fn test_unknown_date_error() {
    let args = GetArgs {
        start: "X".to_string(),
        ..get_args("AAA", "BBB", ColorWhen::Auto)
    };
    let (code, _stdout, stderr) = run_get(&args, &[], vec![]);
    let expected = "\x1b[31mawslogs doesn't understand 'X' as a date.\n\x1b[0m";
    assert_eq!(stderr, expected);
    assert_eq!(code, 3);
}

#[test]
fn test_too_many_streams_returns_code_6() {
    let streams: Vec<StreamMeta> = (0..200).map(|i| stream(&format!("A{i:03}"))).collect();
    let args = get_args("AAA", "A", ColorWhen::Auto);
    let (code, _stdout, stderr) = run_get(&args, &streams, vec![]);
    assert!(stderr.contains("AWS API limits the number of streams"));
    assert_eq!(code, 6);
}

#[test]
fn test_color_preference_default_is_auto() {
    assert_eq!(AwsLogsConfig::default().color, ColorPreference::Auto);
}
