use monit::elapsed::Elapsed;
use monit::message::{Output, OutputMessage};
use monit::monitor::{exit_code, step, Action, Config, Event, Response, Sink, State, Termination};
use monit::status::HttpStatus;
use monit::timestamp::Timestamp;

fn config(one_shot: bool, has_output_file: bool) -> Config {
    Config {
        url: "http://example.com".to_string(),
        interval_seconds: 1,
        alert_threshold_seconds: 3,
        output_format: Output::Text,
        has_output_file,
        one_shot,
    }
}

fn response(second: u32, code: u16, secs: u64) -> Response {
    Response {
        datetime: Timestamp::new(2024, 1, 2, 3, 4, second).unwrap(),
        status_code: HttpStatus::new(code).unwrap(),
        elapsed: Elapsed::new(secs, 5_000_000).unwrap(),
    }
}

fn console(response: Response) -> State {
    State::Dispatching {
        response,
        sink: Sink::Console,
    }
}

fn file(response: Response) -> State {
    State::Dispatching {
        response,
        sink: Sink::File,
    }
}

/// What came of a run that was played through.
#[derive(Debug, PartialEq)]
struct Played {
    exit: Option<i32>,
    probes: usize,
    printed: Vec<String>,
    /// The kinds of the actions, in order: `P`robe, p`R`int, `A`ppend,
    /// `S`leep, e`X`it.
    trace: String,
}

/// Plays the part of the caller: answers each probe with the next of
/// `answers` (`None` for a request that fails) and appends to `log`. Stops
/// when the monitor asks for the process to end, or when the answers are
/// used up.
fn drive(config: &Config, answers: &[Option<Response>], log: &mut String) -> Played {
    let mut state = State::Idle;
    let mut event = Event::Start;
    let mut played = Played {
        exit: None,
        probes: 0,
        printed: Vec::new(),
        trace: String::new(),
    };
    loop {
        let (next, action) = step(config, state, event).unwrap();
        state = next;
        event = match action {
            Action::Probe { url } => {
                assert_eq!(url, config.url);
                if played.probes == answers.len() {
                    return played;
                }
                played.trace.push('P');
                played.probes += 1;
                match answers[played.probes - 1] {
                    Some(response) => Event::Responded(response),
                    None => Event::TransportFailed,
                }
            }
            Action::Print { line, .. } => {
                played.trace.push('R');
                played.printed.push(line);
                Event::Printed
            }
            Action::Append { entry } => {
                played.trace.push('A');
                log.push_str(&entry);
                Event::Appended
            }
            Action::Sleep { seconds } => {
                played.trace.push('S');
                assert_eq!(seconds, config.interval_seconds);
                Event::Woke
            }
            Action::Exit { reason } => {
                played.trace.push('X');
                assert_eq!(state, State::Terminated);
                played.exit = Some(exit_code(reason));
                return played;
            }
        };
    }
}

#[test]
fn one_shot_probes_once_and_exits_with_zero() {
    let config = config(true, false);
    let answers = [Some(response(5, 200, 0)), Some(response(6, 200, 0))];
    let mut log = String::new();
    let played = drive(&config, &answers, &mut log);
    assert_eq!(played.exit, Some(0));
    assert_eq!(played.probes, 1);
    assert_eq!(played.trace, "PRX");
    assert_eq!(played.printed, vec!["2024-01-02 03:04:05 http://example.com 200 0.005"]);
    assert_eq!(log, "");
}

#[test]
fn one_shot_with_a_log_file_writes_one_line() {
    let config = config(true, true);
    let answers = [Some(response(5, 200, 0))];
    let mut log = String::from("earlier\n");
    let played = drive(&config, &answers, &mut log);
    assert_eq!(played.exit, Some(0));
    assert_eq!(played.probes, 1);
    assert_eq!(played.trace, "PRAX");
    assert_eq!(log, "earlier\n2024-01-02 03:04:05 http://example.com 200 0.005\n");
}

#[test]
fn continuous_run_appends_one_line_for_each_probe() {
    let config = config(false, true);
    let answers = [
        Some(response(5, 200, 0)),
        Some(response(6, 500, 1)),
        Some(response(7, 200, 4)),
    ];
    let before = "kept as it is\n";
    let mut log = String::from(before);
    let played = drive(&config, &answers, &mut log);
    assert_eq!(played.exit, None);
    assert_eq!(played.probes, 3);
    assert_eq!(played.trace, "PRASPRASPRAS");
    assert!(log.starts_with(before));
    let added = &log[before.len()..];
    assert_eq!(
        added,
        "2024-01-02 03:04:05 http://example.com 200 0.005\n\
         2024-01-02 03:04:06 http://example.com 500 1.005\n\
         2024-01-02 03:04:07 http://example.com 200 4.005\n"
    );
    assert_eq!(added.matches('\n').count(), 3);
    assert!(log.ends_with('\n'));
    let lines: Vec<&str> = added.lines().collect();
    assert_eq!(lines, played.printed);
}

#[test]
fn continuous_run_without_a_log_file_appends_nothing() {
    let config = config(false, false);
    let answers = [Some(response(5, 200, 0)), Some(response(6, 200, 0))];
    let mut log = String::new();
    let played = drive(&config, &answers, &mut log);
    assert_eq!(played.exit, None);
    assert_eq!(played.probes, 2);
    assert_eq!(played.trace, "PRSPRS");
    assert_eq!(log, "");
}

#[test]
fn transport_failure_ends_the_run_and_writes_nothing() {
    let config = config(false, true);
    let answers = [Some(response(5, 200, 0)), None, Some(response(7, 200, 0))];
    let mut log = String::new();
    let played = drive(&config, &answers, &mut log);
    assert_eq!(played.probes, 2);
    assert_eq!(played.trace, "PRASPX");
    assert!(played.exit.is_some() && played.exit != Some(0));
    assert_eq!(log, "2024-01-02 03:04:05 http://example.com 200 0.005\n");
}

#[test]
fn transport_failure_in_one_shot_mode() {
    let config = config(true, true);
    let mut log = String::new();
    let played = drive(&config, &[None], &mut log);
    assert_eq!(played.exit, Some(1));
    assert_eq!(played.probes, 1);
    assert_eq!(played.trace, "PX");
    assert!(played.printed.is_empty());
    assert_eq!(log, "");
}

#[test]
fn start_asks_for_a_probe_of_the_url() {
    let config = config(false, false);
    assert_eq!(
        step(&config, State::Idle, Event::Start),
        Some((
            State::Probing,
            Action::Probe {
                url: "http://example.com".to_string()
            }
        ))
    );
}

#[test]
fn startup_failure_ends_the_run_before_any_probe() {
    let config = config(false, true);
    assert_eq!(
        step(&config, State::Idle, Event::StartupFailed),
        Some((
            State::Terminated,
            Action::Exit {
                reason: Termination::StartupFailure
            }
        ))
    );
}

#[test]
fn response_is_printed_with_its_line_and_alert() {
    let mut config = config(false, true);
    config.output_format = Output::Csv;
    let healthy = response(5, 200, 2);
    let slow = response(5, 200, 3);
    let broken = response(5, 503, 0);
    let line_of = |r: Response| {
        OutputMessage::new(r.datetime, config.url.clone(), Some(r.status_code), r.elapsed)
            .to_formatted(Output::Csv)
    };
    assert_eq!(
        step(&config, State::Probing, Event::Responded(healthy)),
        Some((
            console(healthy),
            Action::Print {
                line: r#""2024-01-02 03:04:05","http://example.com","200","2.005""#.to_string(),
                alerting: false
            }
        ))
    );
    assert_eq!(
        step(&config, State::Probing, Event::Responded(slow)),
        Some((
            console(slow),
            Action::Print {
                line: line_of(slow),
                alerting: true
            }
        ))
    );
    assert_eq!(
        step(&config, State::Probing, Event::Responded(broken)),
        Some((
            console(broken),
            Action::Print {
                line: line_of(broken),
                alerting: true
            }
        ))
    );
}

#[test]
fn print_follows_the_configured_format() {
    let mut config = config(false, false);
    config.output_format = Output::Json;
    match step(&config, State::Probing, Event::Responded(response(5, 200, 0))) {
        Some((_, Action::Print { line, alerting })) => {
            assert_eq!(
                line,
                r#"{"datetime": "2024-01-02 03:04:05","url": "http://example.com","statusCode": "200","responseTime": "0.005"}"#
            );
            assert!(!alerting);
        }
        other => panic!("{:?}", other),
    }
}

#[test]
fn printed_line_is_appended_next_where_there_is_a_log_file() {
    let r = response(5, 404, 0);
    assert_eq!(
        step(&config(false, true), console(r), Event::Printed),
        Some((
            file(r),
            Action::Append {
                entry: "2024-01-02 03:04:05 http://example.com 404 0.005\n".to_string()
            }
        ))
    );
    assert_eq!(
        step(&config(true, true), console(r), Event::Printed),
        Some((
            file(r),
            Action::Append {
                entry: "2024-01-02 03:04:05 http://example.com 404 0.005\n".to_string()
            }
        ))
    );
}

#[test]
fn appended_entry_is_the_printed_line_and_a_line_feed() {
    for format in [Output::Csv, Output::Json, Output::Text] {
        let mut config = config(false, true);
        config.output_format = format;
        config.url = "http://example.com/?q=\"a\",b".to_string();
        let r = response(9, 302, 7);
        let printed = match step(&config, State::Probing, Event::Responded(r)) {
            Some((_, Action::Print { line, .. })) => line,
            other => panic!("{:?}", other),
        };
        let entry = match step(&config, console(r), Event::Printed) {
            Some((_, Action::Append { entry })) => entry,
            other => panic!("{:?}", other),
        };
        assert_eq!(entry, format!("{}\n", printed));
    }
}

#[test]
fn printed_line_without_a_log_file_leads_to_sleep_or_exit() {
    let r = response(5, 200, 0);
    assert_eq!(
        step(&config(false, false), console(r), Event::Printed),
        Some((State::Sleeping, Action::Sleep { seconds: 1 }))
    );
    assert_eq!(
        step(&config(true, false), console(r), Event::Printed),
        Some((
            State::Terminated,
            Action::Exit {
                reason: Termination::Completed
            }
        ))
    );
}

#[test]
fn appended_line_leads_to_sleep_or_exit() {
    let r = response(5, 200, 0);
    assert_eq!(
        step(&config(false, true), file(r), Event::Appended),
        Some((State::Sleeping, Action::Sleep { seconds: 1 }))
    );
    assert_eq!(
        step(&config(true, true), file(r), Event::Appended),
        Some((
            State::Terminated,
            Action::Exit {
                reason: Termination::Completed
            }
        ))
    );
}

#[test]
fn sleep_lasts_the_configured_interval() {
    let mut config = config(false, false);
    config.interval_seconds = 30;
    assert_eq!(
        step(&config, console(response(5, 200, 0)), Event::Printed),
        Some((State::Sleeping, Action::Sleep { seconds: 30 }))
    );
}

#[test]
fn append_failure_ends_the_run() {
    let r = response(5, 200, 0);
    for one_shot in [false, true] {
        assert_eq!(
            step(&config(one_shot, true), file(r), Event::AppendFailed),
            Some((
                State::Terminated,
                Action::Exit {
                    reason: Termination::AppendFailure
                }
            ))
        );
    }
}

#[test]
fn waking_leads_to_the_next_probe() {
    assert_eq!(
        step(&config(false, false), State::Sleeping, Event::Woke),
        Some((
            State::Probing,
            Action::Probe {
                url: "http://example.com".to_string()
            }
        ))
    );
}

#[test]
fn each_state_awaits_its_own_events_only() {
    let config = config(false, true);
    let r = response(5, 200, 0);
    let states = [
        State::Idle,
        State::Probing,
        console(r),
        file(r),
        State::Sleeping,
        State::Terminated,
    ];
    let events = [
        Event::Start,
        Event::StartupFailed,
        Event::Responded(r),
        Event::TransportFailed,
        Event::Printed,
        Event::Appended,
        Event::AppendFailed,
        Event::Woke,
    ];
    for state in states {
        for event in events {
            let awaited = matches!(
                (state, event),
                (State::Idle, Event::Start)
                    | (State::Idle, Event::StartupFailed)
                    | (State::Probing, Event::Responded(_))
                    | (State::Probing, Event::TransportFailed)
                    | (
                        State::Dispatching {
                            sink: Sink::Console,
                            ..
                        },
                        Event::Printed
                    )
                    | (
                        State::Dispatching {
                            sink: Sink::File,
                            ..
                        },
                        Event::Appended
                    )
                    | (
                        State::Dispatching {
                            sink: Sink::File,
                            ..
                        },
                        Event::AppendFailed
                    )
                    | (State::Sleeping, Event::Woke)
            );
            assert_eq!(step(&config, state, event).is_some(), awaited);
        }
    }
}

#[test]
fn exit_codes() {
    assert_eq!(exit_code(Termination::Completed), 0);
    assert_eq!(exit_code(Termination::StartupFailure), 1);
    assert_eq!(exit_code(Termination::TransportFailure), 1);
    assert_eq!(exit_code(Termination::AppendFailure), 1);
}

#[test]
fn json_line_stays_on_one_line_whatever_the_url() {
    let mut config = config(false, true);
    config.url = "http://example.com/\nsecond".to_string();
    config.output_format = Output::Json;
    let r = response(5, 200, 0);
    match step(&config, State::Probing, Event::Responded(r)) {
        Some((_, Action::Print { line, .. })) => assert!(!line.contains('\n')),
        other => panic!("{:?}", other),
    }
    match step(&config, console(r), Event::Printed) {
        Some((_, Action::Append { entry })) => {
            assert_eq!(entry.matches('\n').count(), 1);
            assert!(entry.ends_with('\n'));
        }
        other => panic!("{:?}", other),
    }
}

#[test]
fn text_line_carries_a_line_feed_of_the_url() {
    let mut config = config(false, true);
    config.url = "http://example.com/\nsecond".to_string();
    match step(&config, State::Probing, Event::Responded(response(5, 200, 0))) {
        Some((_, Action::Print { line, .. })) => {
            assert_eq!(line, "2024-01-02 03:04:05 http://example.com/\nsecond 200 0.005");
        }
        other => panic!("{:?}", other),
    }
}
