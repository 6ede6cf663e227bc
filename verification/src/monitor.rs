//! The monitor loop as a state machine: the caller probes, prints, writes
//! and sleeps; the machine says what to do next.

use crate::alert::{alerting, is_alerting};
use crate::elapsed::Elapsed;
use crate::message::{rendered, Output, OutputMessage, Record};
use crate::sink::{file_entry, file_entry_text};
use crate::status::HttpStatus;
use crate::timestamp::Timestamp;
use vstd::prelude::*;

verus! {

/// What the monitor was started with. It is not changed during a run.
#[derive(Clone, Debug, PartialEq, Eq)]
pub struct Config {
    /// The URL to probe, as it was given.
    pub url: String,
    /// The pause between two probes, in seconds.
    pub interval_seconds: u64,
    /// The whole seconds from which on a response counts as an alert.
    pub alert_threshold_seconds: u64,
    /// The format of the rendered lines.
    pub output_format: Output,
    /// Whether the lines also go to a log file. Its path stays with the
    /// caller, who opens the file.
    pub has_output_file: bool,
    /// Whether the monitor stops after one probe.
    pub one_shot: bool,
}

/// A `Config` with its URL as a sequence of characters.
pub struct ConfigView {
    pub url: Seq<char>,
    pub interval_seconds: u64,
    pub alert_threshold_seconds: u64,
    pub output_format: Output,
    pub has_output_file: bool,
    pub one_shot: bool,
}

impl View for Config {
    type V = ConfigView;

    open spec fn view(&self) -> ConfigView {
        ConfigView {
            url: self.url@,
            interval_seconds: self.interval_seconds,
            alert_threshold_seconds: self.alert_threshold_seconds,
            output_format: self.output_format,
            has_output_file: self.has_output_file,
            one_shot: self.one_shot,
        }
    }
}

/// What a probe brought back: when the request was sent, the status of the
/// response, and the time from sending the request to receiving the
/// response's headers.
#[derive(Clone, Copy, Debug, PartialEq, Eq, Structural)]
pub struct Response {
    pub datetime: Timestamp,
    pub status_code: HttpStatus,
    pub elapsed: Elapsed,
}

/// The two places a line goes to, in the order in which it goes there.
#[derive(Clone, Copy, Debug, PartialEq, Eq, Structural)]
pub enum Sink {
    Console,
    File,
}

/// Where the monitor stands in its loop.
#[derive(Clone, Copy, Debug, PartialEq, Eq, Structural)]
pub enum State {
    /// The start of the loop, before any probe was made.
    Idle,
    /// A request is under way.
    Probing,
    /// The line of `response` is on its way to `sink`.
    Dispatching { response: Response, sink: Sink },
    /// The pause before the next probe.
    Sleeping,
    /// The run is over.
    Terminated,
}

/// What the caller reports to the monitor.
#[derive(Clone, Copy, Debug, PartialEq, Eq, Structural)]
pub enum Event {
    /// The run may begin.
    Start,
    /// The directory of the log file could not be made.
    StartupFailed,
    /// The probe was answered, with whatever status.
    Responded(Response),
    /// The probe was not answered: the request failed below HTTP.
    TransportFailed,
    /// The line was printed to the console.
    Printed,
    /// The line was appended to the log file.
    Appended,
    /// The line could not be appended to the log file.
    AppendFailed,
    /// The pause is over.
    Woke,
}

/// Why a run ended.
#[derive(Clone, Copy, Debug, PartialEq, Eq, Structural)]
pub enum Termination {
    /// The single probe of a one-shot run was made and its line dispatched.
    Completed,
    /// The directory of the log file could not be made.
    StartupFailure,
    /// A probe was not answered.
    TransportFailure,
    /// A line could not be appended to the log file.
    AppendFailure,
}

/// What the caller is to do next.
#[derive(Clone, Debug, PartialEq, Eq)]
pub enum Action {
    /// Note the local time, start a timer, and send one GET request to
    /// `url`, without a retry; then report `Responded` or `TransportFailed`.
    Probe { url: String },
    /// Print `line` to the console, in the colour for `alerting`; then
    /// report `Printed`.
    Print { line: String, alerting: bool },
    /// Append `entry` to the log file, as it is; then report `Appended` or
    /// `AppendFailed`.
    Append { entry: String },
    /// Pause for `seconds`, then report `Woke`.
    Sleep { seconds: u64 },
    /// End the process with the exit code of `reason`.
    Exit { reason: Termination },
}

/// An `Action` with its texts as sequences of characters.
pub enum ActionView {
    Probe { url: Seq<char> },
    Print { line: Seq<char>, alerting: bool },
    Append { entry: Seq<char> },
    Sleep { seconds: u64 },
    Exit { reason: Termination },
}

impl View for Action {
    type V = ActionView;

    open spec fn view(&self) -> ActionView {
        match *self {
            Action::Probe { url } => ActionView::Probe { url: url@ },
            Action::Print { line, alerting } => ActionView::Print { line: line@, alerting },
            Action::Append { entry } => ActionView::Append { entry: entry@ },
            Action::Sleep { seconds } => ActionView::Sleep { seconds },
            Action::Exit { reason } => ActionView::Exit { reason },
        }
    }
}

/// The exit code for each way a run can end: 0 for a completed one-shot
/// run, 1 for every failure.
pub open spec fn spec_exit_code(reason: Termination) -> i32 {
    match reason {
        Termination::Completed => 0,
        _ => 1,
    }
}

/// The exit code of the process for a run that ended for `reason`.
#[verifier::when_used_as_spec(spec_exit_code)]
pub fn exit_code(reason: Termination) -> (code: i32)
    ensures
        code == spec_exit_code(reason),
{
    match reason {
        Termination::Completed => 0,
        _ => 1,
    }
}

/// The record of a response to a probe of `url`.
pub open spec fn record_of(url: Seq<char>, response: Response) -> Record {
    Record {
        datetime: response.datetime,
        url,
        status_code: Some(response.status_code),
        elapsed: response.elapsed,
    }
}

/// The line of a response, in the configured format.
pub open spec fn line_of(config: ConfigView, response: Response) -> Seq<char> {
    rendered(record_of(config.url, response), config.output_format)
}

/// What is printed for a response: its line, and whether it is an alert.
pub open spec fn print_of(config: ConfigView, response: Response) -> ActionView {
    ActionView::Print {
        line: line_of(config, response),
        alerting: alerting(
            Some(response.status_code),
            response.elapsed.secs(),
            config.alert_threshold_seconds as nat,
        ),
    }
}

/// What is appended to the log file for a response: its line and a line
/// feed.
pub open spec fn append_of(config: ConfigView, response: Response) -> ActionView {
    ActionView::Append { entry: file_entry_text(line_of(config, response)) }
}

/// What follows the dispatch of a line: the end of a one-shot run, or else
/// the pause.
pub open spec fn after_dispatch(config: ConfigView) -> (State, ActionView) {
    if config.one_shot {
        (State::Terminated, ActionView::Exit { reason: Termination::Completed })
    } else {
        (State::Sleeping, ActionView::Sleep { seconds: config.interval_seconds })
    }
}

/// The transitions of the monitor: the next state and what to do, or `None`
/// for an event that the state does not await.
///
/// - `Idle`: on `Start`, probe; on `StartupFailed`, end the run.
/// - `Probing`: on `Responded`, print the line of the response; on
///   `TransportFailed`, end the run, with nothing dispatched.
/// - `Dispatching` to the console: on `Printed`, append the same line to
///   the log file if there is one; without one, the dispatch is over.
/// - `Dispatching` to the file: on `Appended`, the dispatch is over; on
///   `AppendFailed`, end the run.
/// - After a dispatch: end a one-shot run, or else sleep for the interval.
/// - `Sleeping`: on `Woke`, probe again. The loop is back at its start
///   then, and as nothing is awaited there, the next probe follows at once.
/// - `Terminated`: awaits nothing.
pub open spec fn spec_step(config: ConfigView, state: State, event: Event) -> Option<
    (State, ActionView),
> {
    match (state, event) {
        (State::Idle, Event::Start) => Some((State::Probing, ActionView::Probe { url: config.url })),
        (State::Idle, Event::StartupFailed) => Some(
            (State::Terminated, ActionView::Exit { reason: Termination::StartupFailure }),
        ),
        (State::Probing, Event::Responded(response)) => Some(
            (State::Dispatching { response, sink: Sink::Console }, print_of(config, response)),
        ),
        (State::Probing, Event::TransportFailed) => Some(
            (State::Terminated, ActionView::Exit { reason: Termination::TransportFailure }),
        ),
        (State::Dispatching { response, sink: Sink::Console }, Event::Printed) => {
            if config.has_output_file {
                Some((State::Dispatching { response, sink: Sink::File }, append_of(config, response)))
            } else {
                Some(after_dispatch(config))
            }
        },
        (State::Dispatching { sink: Sink::File, .. }, Event::Appended) => Some(
            after_dispatch(config),
        ),
        (State::Dispatching { sink: Sink::File, .. }, Event::AppendFailed) => Some(
            (State::Terminated, ActionView::Exit { reason: Termination::AppendFailure }),
        ),
        (State::Sleeping, Event::Woke) => Some(
            (State::Probing, ActionView::Probe { url: config.url }),
        ),
        _ => None,
    }
}

/// What `spec_step` returns, for values as they are at run time.
pub open spec fn step_result(r: Option<(State, Action)>) -> Option<(State, ActionView)> {
    match r {
        Some((state, action)) => Some((state, action@)),
        None => None,
    }
}

/// The line of a response, in the configured format.
fn render(config: &Config, response: Response) -> (r: String)
    ensures
        r@ == line_of(config@, response),
{
    let message = OutputMessage::new(
        response.datetime,
        config.url.clone(),
        Some(response.status_code),
        response.elapsed,
    );
    message.to_formatted(config.output_format)
}

/// What follows the dispatch of a line.
fn settle(config: &Config) -> (r: (State, Action))
    ensures
        (r.0, r.1@) == after_dispatch(config@),
{
    if config.one_shot {
        (State::Terminated, Action::Exit { reason: Termination::Completed })
    } else {
        (State::Sleeping, Action::Sleep { seconds: config.interval_seconds })
    }
}

/// One transition of the monitor: the next state and what the caller is to
/// do, or `None` where `state` does not await `event`.
pub fn step(config: &Config, state: State, event: Event) -> (r: Option<(State, Action)>)
    ensures
        step_result(r) == spec_step(config@, state, event),
{
    match (state, event) {
        (State::Idle, Event::Start) => Some((State::Probing, Action::Probe { url: config.url.clone() })),
        (State::Idle, Event::StartupFailed) => Some(
            (State::Terminated, Action::Exit { reason: Termination::StartupFailure }),
        ),
        (State::Probing, Event::Responded(response)) => {
            let line = render(config, response);
            let alerting = is_alerting(
                Some(response.status_code),
                response.elapsed,
                config.alert_threshold_seconds,
            );
            Some(
                (
                    State::Dispatching { response, sink: Sink::Console },
                    Action::Print { line, alerting },
                ),
            )
        },
        (State::Probing, Event::TransportFailed) => Some(
            (State::Terminated, Action::Exit { reason: Termination::TransportFailure }),
        ),
        (State::Dispatching { response, sink: Sink::Console }, Event::Printed) => {
            if config.has_output_file {
                let line = render(config, response);
                let entry = file_entry(line.as_str());
                Some((State::Dispatching { response, sink: Sink::File }, Action::Append { entry }))
            } else {
                Some(settle(config))
            }
        },
        (State::Dispatching { sink: Sink::File, .. }, Event::Appended) => Some(settle(config)),
        (State::Dispatching { sink: Sink::File, .. }, Event::AppendFailed) => Some(
            (State::Terminated, Action::Exit { reason: Termination::AppendFailure }),
        ),
        (State::Sleeping, Event::Woke) => Some(
            (State::Probing, Action::Probe { url: config.url.clone() }),
        ),
        _ => None,
    }
}

} // verus!
