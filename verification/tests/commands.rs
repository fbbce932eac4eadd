//! Arguments, credentials, replies of the services, errors and exit codes.

use std::time::Duration;

use awslogs::cli::{
    aws_access_or_expired_hint, full_chain, handle_result, read_window, Cli, ColorWhen, Command,
    CommonAwsArgs, GetArgs, GroupsArgs, KinesisSearchArgs, KinesisShardsArgs, StreamsArgs,
};
use awslogs::client::{
    add_stream_page, caller_identity, filter_response, AwsCredentialOptions, ListedStream,
    SentEvent,
};
use awslogs::logs::ColorPreference;
use awslogs::AwsLogsError;

fn common() -> CommonAwsArgs {
    CommonAwsArgs {
        aws_access_key_id: Some("key".to_string()),
        aws_secret_access_key: Some("word".to_string()),
        aws_session_token: Some("session".to_string()),
        aws_profile: Some("profile".to_string()),
        aws_region: Some("region".to_string()),
        aws_endpoint_url: Some("url".to_string()),
    }
}

fn chain(messages: &[&str]) -> Vec<String> {
    messages.iter().map(|m| m.to_string()).collect()
}

#[test]
fn credentials_come_from_the_arguments() {
    let opts = common().into_credential_options();
    assert_eq!(opts.profile.as_deref(), Some("profile"));
    assert_eq!(opts.region.as_deref(), Some("region"));
    assert_eq!(opts.access_key_id.as_deref(), Some("key"));
    assert_eq!(opts.secret_access_key.as_deref(), Some("word"));
    assert_eq!(opts.session_token.as_deref(), Some("session"));
    assert_eq!(opts.endpoint_url.as_deref(), Some("url"));
    let pair = opts.static_credentials().unwrap();
    assert_eq!(pair.access_key_id, "key");
    assert_eq!(pair.secret_access_key, "word");
    assert_eq!(pair.session_token.as_deref(), Some("session"));
}

#[test]
fn half_a_key_pair_is_none() {
    let half = AwsCredentialOptions {
        access_key_id: Some("key".to_string()),
        ..Default::default()
    };
    assert!(half.static_credentials().is_none());
    assert!(AwsCredentialOptions::default()
        .static_credentials()
        .is_none());
}

#[test]
fn color_arguments_are_preferences() {
    assert_eq!(ColorPreference::from(ColorWhen::Auto), ColorPreference::Auto);
    assert_eq!(
        ColorPreference::from(ColorWhen::Always),
        ColorPreference::Always
    );
    assert_eq!(
        ColorPreference::from(ColorWhen::Never),
        ColorPreference::Never
    );
}

fn get_args() -> GetArgs {
    GetArgs {
        log_group_name: "g".to_string(),
        log_stream_name: "s".to_string(),
        filter_pattern: Some("f".to_string()),
        watch: true,
        watch_interval: 9,
        output_group_enabled: false,
        output_stream_enabled: true,
        output_timestamp_enabled: true,
        output_ingestion_time_enabled: false,
        start: "1/1/2013".to_string(),
        end: Some("2/1/2013".to_string()),
        color: ColorWhen::Always,
        query: Some("q".to_string()),
        common: common(),
    }
}

const DAY: i64 = 86_400_000;
const START: i64 = 1_356_998_400_000;

#[test]
fn get_arguments_are_a_configuration() {
    let cfg = get_args().settings().unwrap();
    assert_eq!(cfg.log_group_name.as_deref(), Some("g"));
    assert_eq!(cfg.log_stream_name.as_deref(), Some("s"));
    assert_eq!(cfg.log_group_prefix, None);
    assert_eq!(cfg.filter_pattern.as_deref(), Some("f"));
    assert_eq!(cfg.explicit_streams, None);
    assert_eq!((cfg.start, cfg.end), (Some(START), Some(START + DAY)));
    assert_eq!((cfg.watch, cfg.watch_interval), (true, Duration::from_secs(9)));
    assert_eq!(cfg.color, ColorPreference::Always);
    assert!(!cfg.output_group_enabled && cfg.output_stream_enabled);
    assert!(cfg.output_timestamp_enabled && !cfg.output_ingestion_time_enabled);
    assert_eq!(cfg.query.as_deref(), Some("q"));
}

#[test]
fn windows_are_read_start_first() {
    let bad_end = GetArgs {
        end: Some("?".to_string()),
        ..get_args()
    };
    assert!(matches!(bad_end.settings(), Err(AwsLogsError::UnknownDate(s)) if s == "?"));
    assert!(matches!(
        read_window(Some("!"), &Some("?".to_string())),
        Err(AwsLogsError::UnknownDate(s)) if s == "!"
    ));
    assert_eq!(
        read_window(Some("1/1/2013"), &None).unwrap(),
        (Some(START), None)
    );
    assert_eq!(
        read_window(None, &Some("1/1/2013".to_string())).unwrap(),
        (None, Some(START))
    );
    assert_eq!(
        read_window(Some(""), &Some("".to_string())).unwrap(),
        (None, None)
    );
}

#[test]
fn other_arguments_are_configurations() {
    let groups = GroupsArgs {
        log_group_prefix: Some("p".to_string()),
        common: common(),
    };
    let cfg = groups.config();
    assert_eq!(cfg.log_group_prefix.as_deref(), Some("p"));
    assert_eq!(cfg.log_group_name, None);
    let streams = StreamsArgs {
        log_group_name: "g".to_string(),
        start: "1/1/2013".to_string(),
        end: None,
        common: common(),
    };
    let cfg = streams.settings().unwrap();
    assert_eq!(cfg.log_group_name.as_deref(), Some("g"));
    assert_eq!((cfg.start, cfg.end), (Some(START), None));
    assert_eq!(cfg.log_stream_name, None);
}

#[test]
fn kinesis_arguments_are_configurations() {
    let shards = KinesisShardsArgs {
        stream_name: "k".to_string(),
        common: common(),
    };
    let cfg = shards.config();
    assert_eq!(cfg.stream_name, "k");
    assert!(cfg.shard_ids.is_empty() && cfg.filter_pattern.is_none());
    let search = |start: Option<&str>| KinesisSearchArgs {
        stream_name: "k".to_string(),
        filter_pattern: Some("f".to_string()),
        regex: true,
        shard_ids: vec!["a".to_string(), "b".to_string()],
        start: start.map(|s| s.to_string()),
        end: Some("2/1/2013".to_string()),
        watch: true,
        watch_interval: 9,
        output_shard_enabled: false,
        output_timestamp_enabled: true,
        color: ColorWhen::Never,
        query: Some("q".to_string()),
        common: common(),
    };
    let cfg = search(Some("1/1/2013")).settings().unwrap();
    assert_eq!(cfg.stream_name, "k");
    assert_eq!(cfg.filter_pattern.as_deref(), Some("f"));
    assert!(cfg.regex);
    assert_eq!(cfg.shard_ids, vec!["a", "b"]);
    assert_eq!((cfg.start, cfg.end), (Some(START), Some(START + DAY)));
    assert_eq!((cfg.watch, cfg.watch_interval), (true, Duration::from_secs(9)));
    assert!(!cfg.output_shard_enabled && cfg.output_timestamp_enabled);
    assert_eq!(cfg.color, ColorPreference::Never);
    assert_eq!(cfg.query.as_deref(), Some("q"));
    // Without a start, the oldest record is the first.
    assert_eq!(search(None).settings().unwrap().start, None);
    assert!(matches!(
        search(Some("?")).settings(),
        Err(AwsLogsError::UnknownDate(s)) if s == "?"
    ));
}

#[test]
fn the_front_end_is_a_command() {
    let cli = Cli {
        command: Some(Command::Tui(common())),
    };
    match cli.command {
        Some(Command::Tui(args)) => {
            let given = common().into_credential_options();
            let opts = args.into_credential_options();
            assert_eq!(opts.profile, given.profile);
            assert_eq!(opts.region, given.region);
        }
        other => panic!("{other:?}"),
    }
}

#[test]
fn errors_have_codes_and_hints() {
    let date = AwsLogsError::UnknownDate("X".to_string());
    assert_eq!(date.code(), 3);
    assert_eq!(date.hint(), "awslogs doesn't understand 'X' as a date.");
    let many = AwsLogsError::TooManyStreamsFiltered {
        pattern: "p".to_string(),
        count: 120,
        limit: 100,
    };
    assert_eq!(many.code(), 6);
    assert_eq!(
        many.hint(),
        "The number of streams that match your pattern 'p' is '120'. AWS API limits the number \
         of streams you can filter by to 100.It might be helpful to you to not filter streams by \
         any pattern and filter the output of awslogs."
    );
    let none = AwsLogsError::NoStreamsFiltered("p".to_string());
    assert_eq!(none.code(), 7);
    assert_eq!(
        none.hint(),
        "No streams match your pattern 'p' for the given time period."
    );
    let aws = AwsLogsError::Aws(chain(&["top", "cause"]));
    assert_eq!(aws.code(), 1);
    assert_eq!(aws.hint(), "top");
}

#[test]
fn chains_are_shown_whole() {
    assert_eq!(full_chain(&chain(&["top", "cause", "root"])), "top: cause: root");
    let err = AwsLogsError::Aws(chain(&["dispatch failure", "timeout"]));
    assert_eq!(
        handle_result(Err(err)),
        (1, "\x1b[31mdispatch failure: timeout\n\x1b[0m".to_string())
    );
}

#[test]
fn denied_access_has_its_own_code() {
    for marker in ["AccessDeniedException", "ExpiredTokenException"] {
        let messages = chain(&["service error", &format!("{marker}: no")]);
        let hint = format!("service error\n{marker}: no");
        assert_eq!(
            aws_access_or_expired_hint(&messages),
            Some(hint.clone())
        );
        assert_eq!(
            handle_result(Err(AwsLogsError::Aws(messages))),
            (4, format!("\x1b[33m{hint}\n\x1b[0m"))
        );
    }
    assert_eq!(aws_access_or_expired_hint(&chain(&["AccessDenied"])), None);
    // Only errors from below are looked into.
    let err = AwsLogsError::UnknownDate("AccessDeniedException".to_string());
    assert_eq!(handle_result(Err(err)).0, 3);
}

#[test]
fn success_says_nothing() {
    assert_eq!(handle_result(Ok(())), (0, String::new()));
}

#[test]
fn stream_pages_keep_named_streams() {
    let listed = |name: Option<&str>, first, last| ListedStream {
        name: name.map(|n| n.to_string()),
        first_event_timestamp: first,
        last_ingestion_time: last,
    };
    let mut out = Vec::new();
    add_stream_page(
        &mut out,
        Some(vec![
            listed(Some("a"), Some(1), None),
            listed(None, Some(1), Some(2)),
        ]),
    );
    add_stream_page(&mut out, None);
    add_stream_page(&mut out, Some(vec![listed(Some("b"), None, Some(2))]));
    let seen: Vec<_> = out
        .iter()
        .map(|m| {
            (
                m.name.as_str(),
                m.first_event_timestamp,
                m.last_ingestion_time,
            )
        })
        .collect();
    assert_eq!(seen, vec![("a", Some(1), None), ("b", None, Some(2))]);
}

#[test]
fn events_without_id_are_dropped() {
    let sent = vec![
        SentEvent {
            event_id: Some("1".to_string()),
            timestamp: Some(5),
            ingestion_time: Some(6),
            message: Some("m".to_string()),
            log_stream_name: Some("s".to_string()),
        },
        SentEvent {
            event_id: None,
            timestamp: Some(5),
            ingestion_time: Some(6),
            message: Some("m".to_string()),
            log_stream_name: Some("s".to_string()),
        },
        SentEvent {
            event_id: Some("2".to_string()),
            timestamp: None,
            ingestion_time: None,
            message: None,
            log_stream_name: None,
        },
    ];
    let resp = filter_response(Some(sent), Some("t".to_string()));
    assert_eq!(resp.next_token.as_deref(), Some("t"));
    assert_eq!(resp.events.len(), 2);
    assert_eq!(resp.events[0].message, "m");
    assert_eq!(resp.events[0].timestamp, 5);
    assert_eq!(resp.events[1].event_id, "2");
    assert_eq!(resp.events[1].timestamp, 0);
    assert_eq!(resp.events[1].message, "");
    assert!(filter_response(None, None).events.is_empty());
}

#[test]
fn identities_may_lack_the_account() {
    let id = caller_identity(Some("123".to_string()), "eu");
    assert_eq!((id.account_id.as_str(), id.region.as_str()), ("123", "eu"));
    assert_eq!(caller_identity(None, "").account_id, "");
    assert_eq!(awslogs::VERSION, "0.1.0");
}
