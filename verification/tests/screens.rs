//! The state of the terminal front-end, and what the engine does for it.

use awslogs::client::{CallerIdentity, ShardInfo};
use awslogs::engine::{
    closing, error_message, identity_messages, listing, logs_config, now_minus_minutes,
    search_config, shard_items, startup_message, stream_items, unavailable, work_of, EngineCmd,
    IdentityError, LineBuffer, Msg, Part, Work,
};
use awslogs::logs::ColorPreference;
use awslogs::time::{Clock, SystemClock};
use awslogs::tui::{App, Body, Effect, Key, Tone, OUTPUT_CAP};
use awslogs::AwsLogsError;

fn texts(items: &[&str]) -> Vec<String> {
    items.iter().map(|s| s.to_string()).collect()
}

/// The effects as short texts.
fn effects(app: &mut App) -> Vec<String> {
    app.take_effects()
        .into_iter()
        .map(|e| match e {
            Effect::Abort(req) => format!("abort {req}"),
            Effect::Send(cmd) => match &cmd {
                EngineCmd::Groups { req } => format!("{req} groups"),
                EngineCmd::Streams { req, group } => format!("{req} streams {group}"),
                EngineCmd::Logs {
                    req,
                    group,
                    stream,
                    filter,
                    watch,
                } => format!("{req} logs {group} {stream:?} {filter:?} {watch}"),
                EngineCmd::Shards { req, stream } => format!("{req} shards {stream}"),
                EngineCmd::Search {
                    req,
                    stream,
                    shard,
                    filter,
                    watch,
                } => format!("{req} search {stream} {shard:?} {filter:?} {watch}"),
            },
        })
        .collect()
}

fn press(app: &mut App, key: Key) -> Vec<String> {
    app.on_key(key, false);
    effects(app)
}

fn write(app: &mut App, text: &str) {
    for c in text.chars() {
        app.on_key(Key::Char(c), false);
    }
}

fn lines(app: &mut App, height: u16) -> Vec<String> {
    match app.draw(height).body {
        Body::Lines { lines } => lines,
        other => panic!("{other:?}"),
    }
}

/// A list of the groups `g1` and `g2`, asked for by the first command.
fn at_groups() -> App {
    let mut app = App::new();
    app.load_groups();
    assert_eq!(effects(&mut app), vec!["1 groups"]);
    app.on_msg(Msg::Started { req: 1 });
    app.on_msg(Msg::Items {
        req: 1,
        items: texts(&["g1", "g2"]),
    });
    app.on_msg(Msg::Done { req: 1 });
    app
}

/// The streams of `g2`.
fn at_streams() -> App {
    let mut app = at_groups();
    press(&mut app, Key::Down);
    assert_eq!(
        press(&mut app, Key::Enter),
        vec!["abort 1", "2 streams g2"]
    );
    app.on_msg(Msg::Items {
        req: 2,
        items: texts(&["[ALL streams]", "s1"]),
    });
    app
}

/// The logs of all streams of `g2`.
fn at_logs() -> App {
    let mut app = at_streams();
    assert_eq!(
        press(&mut app, Key::Enter),
        vec!["3 logs g2 None None false"]
    );
    app
}

#[test]
fn starts_without_anything() {
    let mut app = App::new();
    assert_eq!(app.request(), 0);
    assert!(!app.should_quit());
    let screen = app.draw(10);
    assert_eq!(screen.tab, 0);
    assert_eq!(screen.title, "  ");
    assert!(matches!(screen.body, Body::Note { text, wrap: false } if text == "  No log groups found."));
    assert_eq!(screen.status.len(), 1);
    assert_eq!(screen.status[0].text, " Account resolving\u{2026} ");
    assert_eq!(screen.status[0].tone, Tone::Plain);
}

#[test]
fn lists_groups() {
    let mut app = App::new();
    app.load_groups();
    let screen = app.draw(10);
    assert!(matches!(screen.body, Body::Note { text, wrap: false } if text == "  Loading\u{2026}"));
    assert_eq!(screen.status[1].text, "\u{b7} loading ");
    let mut app = at_groups();
    let screen = app.draw(10);
    assert_eq!(screen.title, " CloudWatch \u{b7} Groups (2) ");
    assert_eq!(
        screen.hints,
        " \u{2191}\u{2193} move \u{b7} Enter streams \u{b7} r reload \u{b7} Tab switch \u{b7} q quit "
    );
    match screen.body {
        Body::List { items, selected } => {
            assert_eq!(items, vec!["g1", "g2"]);
            assert_eq!(selected, Some(0));
        }
        other => panic!("{other:?}"),
    }
    assert_eq!(screen.status.len(), 1);
}

#[test]
fn moves_in_lists() {
    let mut app = at_groups();
    let selected = |app: &mut App| match app.draw(10).body {
        Body::List { selected, .. } => selected,
        other => panic!("{other:?}"),
    };
    press(&mut app, Key::Up);
    assert_eq!(selected(&mut app), Some(0));
    press(&mut app, Key::Char('j'));
    assert_eq!(selected(&mut app), Some(1));
    press(&mut app, Key::Down);
    assert_eq!(selected(&mut app), Some(1));
    press(&mut app, Key::Char('k'));
    assert_eq!(selected(&mut app), Some(0));
    // An empty list has nothing to select or to open.
    app.on_msg(Msg::Items {
        req: 1,
        items: vec![],
    });
    assert_eq!(press(&mut app, Key::Down), Vec::<String>::new());
    assert_eq!(press(&mut app, Key::Enter), Vec::<String>::new());
    assert!(matches!(app.draw(10).body, Body::Note { .. }));
}

#[test]
fn drills_into_logs_and_back() {
    let mut app = at_streams();
    assert_eq!(app.main_title(), "CloudWatch \u{b7} g2 \u{b7} Streams");
    press(&mut app, Key::Down);
    assert_eq!(
        press(&mut app, Key::Right),
        vec!["3 logs g2 Some(\"s1\") None false"]
    );
    assert_eq!(app.main_title(), "CloudWatch \u{b7} g2 \u{b7} s1");
    app.on_msg(Msg::Started { req: 3 });
    assert_eq!(press(&mut app, Key::Esc), vec!["abort 3"]);
    assert_eq!(app.main_title(), "CloudWatch \u{b7} g2 \u{b7} Streams");
    assert_eq!(press(&mut app, Key::Char('r')), vec!["5 streams g2"]);
    assert_eq!(press(&mut app, Key::Esc), vec!["6 groups"]);
    assert_eq!(press(&mut app, Key::Esc), Vec::<String>::new());
    assert_eq!(press(&mut app, Key::Char('r')), vec!["7 groups"]);
}

#[test]
fn stale_messages_are_ignored() {
    let mut app = at_logs();
    app.on_msg(Msg::Line {
        req: 2,
        line: "old".to_string(),
    });
    app.on_msg(Msg::Error {
        req: 2,
        text: "old".to_string(),
    });
    app.on_msg(Msg::Items {
        req: 2,
        items: texts(&["old"]),
    });
    app.on_msg(Msg::Done { req: 2 });
    let screen = app.draw(10);
    assert!(matches!(screen.body, Body::Note { text, wrap: true } if text == "  Loading\u{2026}"));
    assert_eq!(screen.status.len(), 2);
    // A command that starts too late is aborted.
    app.on_msg(Msg::Started { req: 2 });
    assert_eq!(effects(&mut app), vec!["abort 2"]);
    app.on_msg(Msg::Started { req: 3 });
    assert_eq!(effects(&mut app), Vec::<String>::new());
}

#[test]
fn errors_are_shown() {
    let mut app = at_logs();
    app.on_msg(Msg::Error {
        req: 3,
        text: "no".to_string(),
    });
    let screen = app.draw(10);
    assert_eq!(screen.status[1].text, "\u{b7} Error: no ");
    assert_eq!(screen.status[1].tone, Tone::Red);
    match screen.body {
        Body::Note { text, wrap } => {
            assert!(wrap);
            assert!(text.starts_with(
                "  No log events in the last 30 minutes for this group.\n\n  Press  w  to watch"
            ));
        }
        other => panic!("{other:?}"),
    }
    // Those of no command in particular always are.
    app.on_msg(Msg::Error {
        req: 0,
        text: "global".to_string(),
    });
    assert_eq!(app.draw(10).status[1].text, "\u{b7} Error: global ");
    app.on_msg(Msg::Identity {
        account_id: "42".to_string(),
    });
    assert_eq!(app.draw(10).status[0].text, " Account 42 ");
}

fn with_lines(n: usize) -> App {
    let mut app = at_logs();
    for i in 0..n {
        app.on_msg(Msg::Line {
            req: 3,
            line: format!("{i}"),
        });
    }
    app
}

#[test]
fn scrolls_and_follows() {
    let mut app = with_lines(30);
    assert_eq!(lines(&mut app, 5), vec!["27", "28", "29"]);
    press(&mut app, Key::Char('g'));
    assert_eq!(lines(&mut app, 5), vec!["0", "1", "2"]);
    press(&mut app, Key::Down);
    assert_eq!(lines(&mut app, 5), vec!["1", "2", "3"]);
    press(&mut app, Key::PageDown);
    assert_eq!(lines(&mut app, 5), vec!["11", "12", "13"]);
    press(&mut app, Key::PageUp);
    press(&mut app, Key::Up);
    press(&mut app, Key::Up);
    assert_eq!(lines(&mut app, 5), vec!["0", "1", "2"]);
    for _ in 0..5 {
        press(&mut app, Key::PageDown);
    }
    assert_eq!(lines(&mut app, 5), vec!["27", "28", "29"]);
    press(&mut app, Key::Char('g'));
    press(&mut app, Key::Char('G'));
    assert_eq!(lines(&mut app, 5), vec!["27", "28", "29"]);
    // A frame without room still shows one line.
    assert_eq!(lines(&mut app, 0), vec!["29"]);
    assert_eq!(lines(&mut app, 100).len(), 30);
}

#[test]
fn output_is_bounded() {
    let mut app = with_lines(3);
    lines(&mut app, 4);
    press(&mut app, Key::Char('g'));
    press(&mut app, Key::Down);
    assert_eq!(lines(&mut app, 4), vec!["1", "2"]);
    for i in 3..OUTPUT_CAP {
        app.on_msg(Msg::Line {
            req: 3,
            line: format!("{i}"),
        });
    }
    assert_eq!(lines(&mut app, 4), vec!["1", "2"]);
    // The oldest line goes, and what is shown stays where it is.
    app.on_msg(Msg::Line {
        req: 3,
        line: "last".to_string(),
    });
    assert_eq!(lines(&mut app, 4), vec!["1", "2"]);
    app.on_msg(Msg::Line {
        req: 3,
        line: "very last".to_string(),
    });
    assert_eq!(lines(&mut app, 4), vec!["2", "3"]);
    press(&mut app, Key::Char('G'));
    assert_eq!(lines(&mut app, 4), vec!["last", "very last"]);
}

#[test]
fn watches_and_filters() {
    let mut app = at_logs();
    app.on_msg(Msg::Started { req: 3 });
    assert_eq!(
        press(&mut app, Key::Char('w')),
        vec!["abort 3", "4 logs g2 None None true"]
    );
    let watching = &app.draw(9).status[2];
    assert_eq!(
        (watching.text.as_str(), watching.tone),
        ("\u{b7} watching ", Tone::Yellow)
    );
    assert_eq!(press(&mut app, Key::Char('/')), Vec::<String>::new());
    assert_eq!(
        app.main_title(),
        "CloudWatch filter pattern (empty = none)"
    );
    write(&mut app, " error! ");
    press(&mut app, Key::Backspace);
    press(&mut app, Key::Backspace);
    match app.draw(9).body {
        Body::Input { line, cursor } => {
            assert_eq!(line, ">  error");
            assert_eq!(cursor, 6);
        }
        other => panic!("{other:?}"),
    }
    assert_eq!(
        press(&mut app, Key::Enter),
        vec!["5 logs g2 None Some(\"error\") true"]
    );
    // The filter is offered again, and can be taken away.
    press(&mut app, Key::Char('/'));
    assert!(matches!(app.draw(9).body, Body::Input { line, .. } if line == "> error"));
    for _ in 0..9 {
        press(&mut app, Key::Backspace);
    }
    assert_eq!(
        press(&mut app, Key::Enter),
        vec!["6 logs g2 None None true"]
    );
    assert_eq!(
        press(&mut app, Key::Char('w')),
        vec!["7 logs g2 None None false"]
    );
}

#[test]
fn given_up_filters_change_nothing() {
    let mut app = with_lines(3);
    let before = lines(&mut app, 9);
    press(&mut app, Key::Char('/'));
    write(&mut app, "x");
    assert_eq!(press(&mut app, Key::Esc), Vec::<String>::new());
    assert_eq!(lines(&mut app, 9), before);
    assert_eq!(
        press(&mut app, Key::Char('w')),
        vec!["4 logs g2 None None true"]
    );
}

#[test]
fn goes_through_kinesis() {
    let mut app = at_groups();
    assert_eq!(press(&mut app, Key::Tab), vec!["abort 1"]);
    let screen = app.draw(9);
    assert_eq!(screen.tab, 1);
    assert_eq!(screen.title, " Kinesis stream name ");
    assert_eq!(screen.hints, " Enter submit \u{b7} Esc cancel ");
    write(&mut app, "  ");
    assert_eq!(press(&mut app, Key::Enter), Vec::<String>::new());
    let status = &app.draw(9).status[1];
    assert_eq!(
        (status.text.as_str(), status.tone),
        ("\u{b7} Enter a stream name ", Tone::White)
    );
    write(&mut app, "events ");
    assert_eq!(press(&mut app, Key::Enter), vec!["3 shards events"]);
    assert_eq!(app.main_title(), "Kinesis \u{b7} events \u{b7} Shards");
    app.on_msg(Msg::Done { req: 3 });
    assert!(
        matches!(app.draw(9).body, Body::Note { text, .. } if text == "  No shards found for this stream.")
    );
    app.on_msg(Msg::Items {
        req: 3,
        items: texts(&["[ALL shards]", "shard-1"]),
    });
    assert_eq!(
        press(&mut app, Key::Char('l')),
        vec!["4 search events None None false"]
    );
    assert_eq!(app.main_title(), "Kinesis \u{b7} events \u{b7} all shards");
    press(&mut app, Key::Char('/'));
    write(&mut app, "k");
    assert_eq!(
        press(&mut app, Key::Enter),
        vec!["5 search events None Some(\"k\") false"]
    );
    press(&mut app, Key::Left);
    press(&mut app, Key::Down);
    assert_eq!(
        press(&mut app, Key::Enter),
        vec!["7 search events Some(\"shard-1\") Some(\"k\") false"]
    );
    // And back to the groups.
    assert_eq!(press(&mut app, Key::Tab), vec!["8 groups"]);
    assert_eq!(press(&mut app, Key::Tab), vec!["9 shards events"]);
    assert_eq!(press(&mut app, Key::Char('h')), Vec::<String>::new());
    assert!(matches!(app.draw(9).body, Body::Input { line, .. } if line == "> events"));
    assert_eq!(press(&mut app, Key::Esc), vec!["11 shards events"]);
}

#[test]
fn leaves_the_stream_name_for_the_groups() {
    let mut app = at_groups();
    press(&mut app, Key::Tab);
    assert_eq!(press(&mut app, Key::Esc), vec!["3 groups"]);
    assert_eq!(app.draw(9).tab, 0);
}

#[test]
fn quits() {
    let mut app = at_groups();
    press(&mut app, Key::Char('q'));
    assert!(app.should_quit());
    let mut app = at_logs();
    press(&mut app, Key::Char('q'));
    assert!(app.should_quit());
    // Over the input line it is a letter like any other, and control ends it there too.
    let mut app = at_groups();
    press(&mut app, Key::Tab);
    press(&mut app, Key::Char('q'));
    assert!(!app.should_quit());
    app.on_key(Key::Char('c'), true);
    assert!(app.should_quit());
    let mut app = at_groups();
    app.on_key(Key::Char('c'), false);
    app.on_key(Key::Other, true);
    assert!(!app.should_quit());
}

#[test]
fn lines_come_whole() {
    let mut buffer = LineBuffer::new();
    assert_eq!(buffer.write(b"ab"), Vec::<String>::new());
    assert_eq!(buffer.write(b"c\nd\n\ne"), vec!["abc", "d", ""]);
    assert_eq!(buffer.write(b"\xff\n"), vec!["e\u{fffd}"]);
    // However the bytes are cut.
    let bytes = "one\ntw\u{1f44d}\nthree".as_bytes();
    let mut at_once = LineBuffer::new();
    let whole = at_once.write(bytes);
    for cut in 0..bytes.len() {
        let mut buffer = LineBuffer::new();
        let mut lines = buffer.write(&bytes[..cut]);
        lines.extend(buffer.write(&bytes[cut..]));
        assert_eq!(lines, whole);
        assert_eq!(buffer.write(b"\n"), vec!["three"]);
    }
}

#[test]
fn commands_are_served() {
    assert!(matches!(
        work_of(EngineCmd::Groups { req: 4 }),
        Work::Groups { req: 4, cfg } if cfg.log_group_name.is_none()
    ));
    assert!(matches!(
        work_of(EngineCmd::Streams { req: 5, group: "g".to_string() }),
        Work::Streams { req: 5, cfg } if cfg.log_group_name.as_deref() == Some("g")
    ));
    assert!(matches!(
        work_of(EngineCmd::Shards { req: 6, stream: "s".to_string() }),
        Work::Shards { req: 6, stream } if stream == "s"
    ));
    let logs = |stream: Option<&str>, watch| {
        match work_of(EngineCmd::Logs {
            req: 7,
            group: "g".to_string(),
            stream: stream.map(|s| s.to_string()),
            filter: Some("f".to_string()),
            watch,
        }) {
            Work::Logs { req: 7, cfg } => cfg,
            other => panic!("{other:?}"),
        }
    };
    let recent = |t: i64| {
        let age = SystemClock.utcnow() - t;
        (1_800_000..1_860_000).contains(&age)
    };
    assert_eq!(logs(Some("s"), false).start, None);
    assert!(recent(logs(Some("s"), true).start.unwrap()));
    assert!(recent(logs(None, false).start.unwrap()));
    match work_of(EngineCmd::Search {
        req: 8,
        stream: "s".to_string(),
        shard: Some("h".to_string()),
        filter: None,
        watch: true,
    }) {
        Work::Search { req, cfg } => {
            assert_eq!(req, 8);
            assert_eq!(cfg.shard_ids, vec!["h"]);
            assert!(recent(cfg.start.unwrap()));
            assert!(cfg.watch);
        }
        other => panic!("{other:?}"),
    }
    assert!(recent(now_minus_minutes(30)));
}

#[test]
fn views_have_their_configurations() {
    let cfg = logs_config(
        "g".to_string(),
        Some("s".to_string()),
        Some("f".to_string()),
        false,
        Some(5),
    );
    assert_eq!(cfg.log_group_name.as_deref(), Some("g"));
    assert_eq!(cfg.log_stream_name.as_deref(), Some("s"));
    assert_eq!(cfg.explicit_streams, Some(texts(&["s"])));
    assert_eq!(cfg.filter_pattern.as_deref(), Some("f"));
    assert_eq!(cfg.start, Some(5));
    assert_eq!(cfg.color, ColorPreference::Never);
    assert!(!cfg.output_group_enabled && cfg.output_timestamp_enabled);
    let all = logs_config("g".to_string(), None, None, true, None);
    assert_eq!(all.log_stream_name.as_deref(), Some("ALL"));
    assert_eq!(all.explicit_streams, None);
    assert!(all.watch);
    let search = search_config("s".to_string(), None, Some("f".to_string()), false, 9);
    assert_eq!(search.stream_name, "s");
    assert!(search.shard_ids.is_empty());
    assert_eq!(search.filter_pattern.as_deref(), Some("f"));
    assert_eq!(search.start, Some(9));
    assert!(search.output_shard_enabled && search.output_timestamp_enabled);
}

/// Messages as short texts.
fn shown(messages: Vec<Msg>) -> Vec<String> {
    messages
        .into_iter()
        .map(|m| match m {
            Msg::Identity { account_id } => format!("identity {account_id}"),
            Msg::Started { req } => format!("{req} started"),
            Msg::Items { req, items } => format!("{req} items {}", items.join(",")),
            Msg::Line { req, line } => format!("{req} line {line}"),
            Msg::Error { req, text } => format!("{req} error {text}"),
            Msg::Done { req } => format!("{req} done"),
        })
        .collect()
}

#[test]
fn answers_are_messages() {
    assert_eq!(
        stream_items(texts(&["a", "b"])),
        vec!["[ALL streams]", "a", "b"]
    );
    assert_eq!(
        shard_items(vec![ShardInfo {
            shard_id: "h".to_string()
        }]),
        vec!["[ALL shards]", "h"]
    );
    assert_eq!(
        shown(listing(3, Ok(texts(&["a"])))),
        vec!["3 items a", "3 done"]
    );
    let unknown = || AwsLogsError::UnknownDate("X".to_string());
    let hint = "awslogs doesn't understand 'X' as a date.";
    assert_eq!(
        shown(listing(3, Err(unknown()))),
        vec![format!("3 error {hint}"), "3 done".to_string()]
    );
    assert_eq!(shown(closing(4, Ok(()))), vec!["4 done"]);
    assert_eq!(
        shown(closing(4, Err(unknown()))),
        vec![format!("4 error {hint}"), "4 done".to_string()]
    );
    assert_eq!(
        shown(vec![error_message(4, &unknown())]),
        vec![format!("4 error {hint}")]
    );
    assert_eq!(EngineCmd::Groups { req: 9 }.req(), 9);
}

#[test]
fn parts_that_do_not_start_are_named() {
    assert_eq!(
        shown(vec![
            startup_message(Part::Runtime, "no thread"),
            startup_message(Part::CloudWatch, "no region"),
            startup_message(Part::Kinesis, "no region"),
        ]),
        vec![
            "0 error failed to start runtime: no thread",
            "0 error CloudWatch client: no region",
            "0 error Kinesis client: no region",
        ]
    );
    let without_client = |cmd| shown(unavailable(&work_of(cmd)));
    assert_eq!(
        without_client(EngineCmd::Groups { req: 5 }),
        vec!["5 error CloudWatch client unavailable", "5 done"]
    );
    let shards = EngineCmd::Shards {
        req: 6,
        stream: "s".to_string(),
    };
    assert_eq!(
        without_client(shards),
        vec!["6 error Kinesis client unavailable", "6 done"]
    );
}

#[test]
fn callers_are_named_before_errors() {
    let known = CallerIdentity {
        account_id: "42".to_string(),
        region: "eu".to_string(),
    };
    assert_eq!(shown(identity_messages(Ok(known))), vec!["identity 42"]);
    assert_eq!(
        shown(identity_messages(Err(IdentityError::Client("c".to_string())))),
        vec!["identity unavailable", "0 error STS client: c"]
    );
    assert_eq!(
        shown(identity_messages(Err(IdentityError::Lookup("l".to_string())))),
        vec!["identity unavailable", "0 error identity lookup failed: l"]
    );
}
