//! Whole runs of the monitor: what it asks for over a sequence of events,
//! and what that does to the log file.

use crate::message::{lemma_json_line_is_one_line, lemma_rendered_is_one_line, fields_of};
use crate::monitor::{after_dispatch, append_of, line_of, print_of, record_of, spec_exit_code,
    spec_step, ActionView, ConfigView, Event, Response, Sink, State, Termination};
use crate::sink::{file_entry_text, is_entry, lemma_log_gains_one_line_each,
    lemma_log_keeps_prior_content, log_after};
use crate::text::{line_feeds, one_line};
use vstd::prelude::*;

verus! {

/// A run of the monitor from `state`: the events are taken in order, until
/// they are used up or one comes that the state does not await. Returns the
/// state reached and the actions asked for on the way.
#[verifier::opaque]
pub open spec fn run(config: ConfigView, state: State, events: Seq<Event>) -> (
    State,
    Seq<ActionView>,
)
    decreases events.len(),
{
    if events.len() == 0 {
        (state, Seq::empty())
    } else {
        match spec_step(config, state, events[0]) {
            Some((next, action)) => {
                let rest = run(config, next, events.skip(1));
                (rest.0, seq![action] + rest.1)
            },
            None => (state, Seq::empty()),
        }
    }
}

/// How many of the actions are probes.
pub open spec fn probes(actions: Seq<ActionView>) -> nat
    decreases actions.len(),
{
    if actions.len() == 0 {
        0
    } else if actions[0] is Probe {
        1 + probes(actions.skip(1))
    } else {
        probes(actions.skip(1))
    }
}

/// What the actions append to the log file, in order.
pub open spec fn appended(actions: Seq<ActionView>) -> Seq<Seq<char>>
    decreases actions.len(),
{
    if actions.len() == 0 {
        Seq::empty()
    } else {
        match actions[0] {
            ActionView::Append { entry } => seq![entry] + appended(actions.skip(1)),
            _ => appended(actions.skip(1)),
        }
    }
}

/// What is reported while a line is dispatched without a failure: that it
/// was printed and, with a log file, that it was appended.
pub open spec fn dispatch_events(config: ConfigView) -> Seq<Event> {
    if config.has_output_file {
        seq![Event::Printed, Event::Appended]
    } else {
        seq![Event::Printed]
    }
}

/// What the monitor asks for from a response to the end of its dispatch:
/// to print the line, then to append it if there is a log file, then what
/// follows a dispatch.
pub open spec fn dispatch_actions(config: ConfigView, response: Response) -> Seq<ActionView> {
    seq![print_of(config, response)] + printed_actions(config, response)
}

/// What the monitor asks for from a printed line to the end of its
/// dispatch: to append the line if there is a log file, then what follows a
/// dispatch.
pub open spec fn printed_actions(config: ConfigView, response: Response) -> Seq<ActionView> {
    if config.has_output_file {
        seq![append_of(config, response), after_dispatch(config).1]
    } else {
        seq![after_dispatch(config).1]
    }
}

/// The events of a run in which every probe is answered and every line
/// dispatched: for each response in turn, the response, the reports of the
/// dispatch and the end of the pause.
pub open spec fn rounds(config: ConfigView, responses: Seq<Response>) -> Seq<Event>
    decreases responses.len(),
{
    if responses.len() == 0 {
        Seq::empty()
    } else {
        seq![Event::Responded(responses[0])] + dispatch_events(config) + seq![Event::Woke] + rounds(
            config,
            responses.skip(1),
        )
    }
}

/// What the log file gains for the responses: the line of each with its
/// line feed, in order.
pub open spec fn entries_of(config: ConfigView, responses: Seq<Response>) -> Seq<Seq<char>> {
    Seq::new(responses.len(), |i: int| file_entry_text(line_of(config, responses[i])))
}

/// Without an event, nothing is asked for and the state stays.
proof fn lemma_run_nothing(config: ConfigView, state: State)
    ensures
        run(config, state, Seq::empty()) == (state, Seq::<ActionView>::empty()),
{
    reveal(run);
}

/// The first event of a run is taken by one transition; the rest of the
/// run starts from the state it leads to.
proof fn lemma_run_first(config: ConfigView, state: State, events: Seq<Event>)
    requires
        events.len() > 0,
        spec_step(config, state, events[0]) is Some,
    ensures
        run(config, state, events) == ({
            let (next, action) = spec_step(config, state, events[0])->0;
            let rest = run(config, next, events.skip(1));
            (rest.0, seq![action] + rest.1)
        }),
{
    reveal(run);
}

/// The probes of two runs of actions add up.
proof fn lemma_probes_concat(a: Seq<ActionView>, b: Seq<ActionView>)
    ensures
        probes(a + b) == probes(a) + probes(b),
    decreases a.len(),
{
    if a.len() == 0 {
        assert(a + b =~= b);
    } else {
        lemma_probes_concat(a.skip(1), b);
        assert((a + b).skip(1) =~= a.skip(1) + b);
    }
}

/// What two runs of actions append follows one another.
proof fn lemma_appended_concat(a: Seq<ActionView>, b: Seq<ActionView>)
    ensures
        appended(a + b) == appended(a) + appended(b),
    decreases a.len(),
{
    if a.len() == 0 {
        assert(a + b =~= b);
        assert(appended(a) + appended(b) =~= appended(b));
    } else {
        lemma_appended_concat(a.skip(1), b);
        assert((a + b).skip(1) =~= a.skip(1) + b);
        assert((a + b)[0] == a[0]);
        assert(appended(a + b) =~= appended(a) + appended(b));
    }
}

/// A single action that is a probe counts as one probe and appends
/// nothing; one that appends counts as none and appends its entry; any
/// other counts as none and appends nothing.
proof fn lemma_single_action(action: ActionView)
    ensures
        probes(seq![action]) == (if action is Probe {
            1nat
        } else {
            0nat
        }),
        appended(seq![action]) == (match action {
            ActionView::Append { entry } => seq![entry],
            _ => Seq::empty(),
        }),
{
    let a = seq![action];
    assert(a.skip(1) =~= Seq::<ActionView>::empty());
    assert(probes(a.skip(1)) == 0);
    assert(appended(a.skip(1)) =~= Seq::empty());
    assert(a[0] == action);
    match action {
        ActionView::Append { entry } => {
            assert(appended(a) =~= seq![entry]);
        },
        _ => {
            assert(appended(a) =~= Seq::empty());
        },
    }
}

/// A terminated monitor awaits nothing: whatever is reported to it, it
/// asks for nothing more.
pub proof fn lemma_terminated_is_final(config: ConfigView, events: Seq<Event>)
    ensures
        run(config, State::Terminated, events) == (State::Terminated, Seq::<ActionView>::empty()),
{
    reveal(run);
}

/// The line of a response is printed before it is appended: on a response,
/// the monitor asks for the line to be printed; when told that it was, and
/// not before, it asks for the same line and a line feed to be appended, if
/// there is a log file.
pub proof fn lemma_console_comes_before_file(config: ConfigView, response: Response)
    requires
        config.has_output_file,
    ensures
        spec_step(config, State::Probing, Event::Responded(response)) == Some(
            (State::Dispatching { response, sink: Sink::Console }, print_of(config, response)),
        ),
        forall|event: Event|
            (#[trigger] spec_step(
                config,
                State::Dispatching { response, sink: Sink::Console },
                event,
            )) is Some ==> event == Event::Printed,
        spec_step(config, State::Dispatching { response, sink: Sink::Console }, Event::Printed)
            == Some((State::Dispatching { response, sink: Sink::File }, append_of(config, response))),
{
}

/// From an appended line to what follows the dispatch.
proof fn lemma_appended(config: ConfigView, response: Response, later: Seq<Event>)
    ensures
        run(
            config,
            State::Dispatching { response, sink: Sink::File },
            seq![Event::Appended] + later,
        ) == (
            run(config, after_dispatch(config).0, later).0,
            seq![after_dispatch(config).1] + run(config, after_dispatch(config).0, later).1,
        ),
{
    let file = State::Dispatching { response, sink: Sink::File };
    let events = seq![Event::Appended] + later;
    assert(events[0] == Event::Appended);
    assert(events.skip(1) =~= later);
    assert(spec_step(config, file, Event::Appended) == Some(after_dispatch(config)));
    lemma_run_first(config, file, events);
}

/// From a printed line to the end of its dispatch, with a log file.
proof fn lemma_printed_with_file(config: ConfigView, response: Response, later: Seq<Event>)
    requires
        config.has_output_file,
    ensures
        run(
            config,
            State::Dispatching { response, sink: Sink::Console },
            seq![Event::Printed] + (seq![Event::Appended] + later),
        ) == (
            run(config, after_dispatch(config).0, later).0,
            seq![append_of(config, response)] + (seq![after_dispatch(config).1] + run(
                config,
                after_dispatch(config).0,
                later,
            ).1),
        ),
{
    let console = State::Dispatching { response, sink: Sink::Console };
    let file = State::Dispatching { response, sink: Sink::File };
    let rest = seq![Event::Appended] + later;
    let events = seq![Event::Printed] + rest;
    assert(events[0] == Event::Printed);
    assert(events.skip(1) =~= rest);
    assert(spec_step(config, console, Event::Printed) == Some((file, append_of(config, response))));
    lemma_appended(config, response, later);
    lemma_run_first(config, console, events);
}

/// From a printed line to what follows the dispatch, without a log file.
proof fn lemma_printed_without_file(config: ConfigView, response: Response, later: Seq<Event>)
    requires
        !config.has_output_file,
    ensures
        run(
            config,
            State::Dispatching { response, sink: Sink::Console },
            seq![Event::Printed] + later,
        ) == (
            run(config, after_dispatch(config).0, later).0,
            seq![after_dispatch(config).1] + run(config, after_dispatch(config).0, later).1,
        ),
{
    let console = State::Dispatching { response, sink: Sink::Console };
    let events = seq![Event::Printed] + later;
    assert(events[0] == Event::Printed);
    assert(events.skip(1) =~= later);
    assert(spec_step(config, console, Event::Printed) == Some(after_dispatch(config)));
    lemma_run_first(config, console, events);
}

/// From a printed line to the end of its dispatch, where nothing fails.
proof fn lemma_dispatch_from_console(config: ConfigView, response: Response, later: Seq<Event>)
    ensures
        run(
            config,
            State::Dispatching { response, sink: Sink::Console },
            dispatch_events(config) + later,
        ) == (
            run(config, after_dispatch(config).0, later).0,
            printed_actions(config, response) + run(config, after_dispatch(config).0, later).1,
        ),
{
    let tail = run(config, after_dispatch(config).0, later);
    let after = seq![after_dispatch(config).1];
    if config.has_output_file {
        let append = seq![append_of(config, response)];
        lemma_printed_with_file(config, response, later);
        assert(dispatch_events(config) + later =~= seq![Event::Printed] + (seq![Event::Appended]
            + later));
        assert(append + (after + tail.1) =~= printed_actions(config, response) + tail.1);
    } else {
        lemma_printed_without_file(config, response, later);
        assert(dispatch_events(config) + later =~= seq![Event::Printed] + later);
        assert(after + tail.1 =~= printed_actions(config, response) + tail.1);
    }
}

/// From a response to the end of its dispatch, where nothing fails.
proof fn lemma_dispatch(config: ConfigView, response: Response, later: Seq<Event>)
    ensures
        run(
            config,
            State::Probing,
            seq![Event::Responded(response)] + dispatch_events(config) + later,
        ) == (
            run(config, after_dispatch(config).0, later).0,
            dispatch_actions(config, response) + run(config, after_dispatch(config).0, later).1,
        ),
{
    let e0 = seq![Event::Responded(response)] + dispatch_events(config) + later;
    let tail = run(config, after_dispatch(config).0, later);
    let rest = printed_actions(config, response);
    let print = seq![print_of(config, response)];
    let console = State::Dispatching { response, sink: Sink::Console };
    assert(e0[0] == Event::Responded(response));
    assert(e0.skip(1) =~= dispatch_events(config) + later);
    assert(spec_step(config, State::Probing, Event::Responded(response)) == Some(
        (console, print_of(config, response)),
    ));
    lemma_dispatch_from_console(config, response, later);
    lemma_run_first(config, State::Probing, e0);
    assert(print + (rest + tail.1) =~= dispatch_actions(config, response) + tail.1);
}

/// The actions of a dispatch hold no probe, and append the line of the
/// response with its line feed if there is a log file, and nothing
/// otherwise.
proof fn lemma_dispatch_actions(config: ConfigView, response: Response)
    ensures
        probes(dispatch_actions(config, response)) == 0,
        appended(dispatch_actions(config, response)) == (if config.has_output_file {
            seq![file_entry_text(line_of(config, response))]
        } else {
            Seq::empty()
        }),
{
    let print = seq![print_of(config, response)];
    let append = seq![append_of(config, response)];
    let after = seq![after_dispatch(config).1];
    let rest = printed_actions(config, response);
    let none = Seq::<Seq<char>>::empty();
    lemma_single_action(print_of(config, response));
    lemma_single_action(append_of(config, response));
    lemma_single_action(after_dispatch(config).1);
    lemma_probes_concat(print, rest);
    lemma_appended_concat(print, rest);
    if config.has_output_file {
        assert(rest =~= append + after);
        lemma_probes_concat(append, after);
        lemma_appended_concat(append, after);
        let entry = seq![file_entry_text(line_of(config, response))];
        assert(none + (entry + none) =~= entry);
    } else {
        assert(rest =~= after);
        assert(none + none =~= none);
    }
}

/// A one-shot run in which the probe is answered and the line dispatched:
/// the monitor probes once, has the line printed and, with a log file,
/// appended, and ends the process with exit code 0.
pub proof fn lemma_one_shot_run(config: ConfigView, response: Response)
    requires
        config.one_shot,
    ensures
        run(
            config,
            State::Idle,
            seq![Event::Start, Event::Responded(response)] + dispatch_events(config),
        ) == (
            State::Terminated,
            seq![ActionView::Probe { url: config.url }] + dispatch_actions(config, response),
        ),
        dispatch_actions(config, response).last() == (ActionView::Exit {
            reason: Termination::Completed,
        }),
        probes(seq![ActionView::Probe { url: config.url }] + dispatch_actions(config, response))
            == 1,
        spec_exit_code(Termination::Completed) == 0,
{
    let events = seq![Event::Start, Event::Responded(response)] + dispatch_events(config);
    let probe = seq![ActionView::Probe { url: config.url }];
    lemma_one_shot_from_probing(config, response);
    assert(events[0] == Event::Start);
    assert(events.skip(1) =~= seq![Event::Responded(response)] + dispatch_events(config));
    lemma_run_first(config, State::Idle, events);
    lemma_single_action(ActionView::Probe { url: config.url });
    lemma_dispatch_actions(config, response);
    lemma_probes_concat(probe, dispatch_actions(config, response));
}

/// A one-shot run from the response on: the dispatch, then the end.
proof fn lemma_one_shot_from_probing(config: ConfigView, response: Response)
    requires
        config.one_shot,
    ensures
        run(config, State::Probing, seq![Event::Responded(response)] + dispatch_events(config))
            == (State::Terminated, dispatch_actions(config, response)),
{
    let none = Seq::<Event>::empty();
    let events = seq![Event::Responded(response)] + dispatch_events(config);
    assert(events + none =~= events);
    lemma_dispatch(config, response, none);
    lemma_terminated_is_final(config, none);
    assert(dispatch_actions(config, response) + Seq::<ActionView>::empty()
        =~= dispatch_actions(config, response));
}

/// The most probes that a one-shot monitor can still ask for.
spec fn probes_left(state: State) -> nat {
    match state {
        State::Idle | State::Sleeping => 1,
        _ => 0,
    }
}

/// From any state, a one-shot monitor asks for no more probes than are
/// left to it.
proof fn lemma_one_shot_probes_from(config: ConfigView, state: State, events: Seq<Event>)
    requires
        config.one_shot,
    ensures
        probes(run(config, state, events).1) <= probes_left(state),
    decreases events.len(),
{
    reveal(run);
    if events.len() > 0 {
        match spec_step(config, state, events[0]) {
            Some((next, action)) => {
                let rest = run(config, next, events.skip(1));
                lemma_one_shot_probes_from(config, next, events.skip(1));
                let actions = seq![action] + rest.1;
                assert(actions.skip(1) =~= rest.1);
                assert(actions[0] == action);
            },
            None => {},
        }
    }
}

/// Whatever is reported to a one-shot monitor, it asks for one probe at
/// most.
pub proof fn lemma_one_shot_probes_once(config: ConfigView, events: Seq<Event>)
    requires
        config.one_shot,
    ensures
        probes(run(config, State::Idle, events).1) <= 1,
{
    lemma_one_shot_probes_from(config, State::Idle, events);
}

/// A probe that is not answered ends the run: the monitor asks for the
/// process to end with a non-zero exit code and for nothing else, whatever
/// is reported to it afterwards. Nothing is printed or appended for that
/// probe, so no line reaches the log file.
pub proof fn lemma_transport_failure_is_fatal(config: ConfigView, later: Seq<Event>)
    ensures
        run(config, State::Probing, seq![Event::TransportFailed] + later) == (
            State::Terminated,
            seq![ActionView::Exit { reason: Termination::TransportFailure }],
        ),
        appended(seq![ActionView::Exit { reason: Termination::TransportFailure }]).len() == 0,
        spec_exit_code(Termination::TransportFailure) != 0,
{
    let events = seq![Event::TransportFailed] + later;
    let exit = seq![ActionView::Exit { reason: Termination::TransportFailure }];
    assert(events[0] == Event::TransportFailed);
    lemma_run_first(config, State::Probing, events);
    lemma_terminated_is_final(config, events.skip(1));
    assert(exit + Seq::<ActionView>::empty() =~= exit);
    lemma_single_action(ActionView::Exit { reason: Termination::TransportFailure });
}

/// One round of a continuous run, from probing to probing.
proof fn lemma_round(config: ConfigView, response: Response, later: Seq<Event>)
    requires
        !config.one_shot,
    ensures
        run(
            config,
            State::Probing,
            seq![Event::Responded(response)] + dispatch_events(config) + seq![Event::Woke] + later,
        ) == (
            run(config, State::Probing, later).0,
            dispatch_actions(config, response) + seq![ActionView::Probe { url: config.url }] + run(
                config,
                State::Probing,
                later,
            ).1,
        ),
{
    let woke = seq![Event::Woke] + later;
    let events = seq![Event::Responded(response)] + dispatch_events(config) + seq![Event::Woke]
        + later;
    let tail = run(config, State::Probing, later);
    let probe = seq![ActionView::Probe { url: config.url }];
    assert(events =~= seq![Event::Responded(response)] + dispatch_events(config) + woke);
    lemma_dispatch(config, response, woke);
    lemma_waking(config, later);
    assert(dispatch_actions(config, response) + (probe + tail.1) =~= dispatch_actions(
        config,
        response,
    ) + probe + tail.1);
}

/// The end of the pause leads to the next probe.
proof fn lemma_waking(config: ConfigView, later: Seq<Event>)
    ensures
        run(config, State::Sleeping, seq![Event::Woke] + later) == (
            run(config, State::Probing, later).0,
            seq![ActionView::Probe { url: config.url }] + run(config, State::Probing, later).1,
        ),
{
    let woke = seq![Event::Woke] + later;
    assert(woke[0] == Event::Woke);
    assert(woke.skip(1) =~= later);
    lemma_run_first(config, State::Sleeping, woke);
}

/// As many rounds as there are responses, from probing to probing.
proof fn lemma_rounds_from_probing(config: ConfigView, responses: Seq<Response>)
    requires
        !config.one_shot,
        config.has_output_file,
    ensures
        run(config, State::Probing, rounds(config, responses)).0 == State::Probing,
        appended(run(config, State::Probing, rounds(config, responses)).1) == entries_of(
            config,
            responses,
        ),
        probes(run(config, State::Probing, rounds(config, responses)).1) == responses.len(),
    decreases responses.len(),
{
    if responses.len() == 0 {
        lemma_run_nothing(config, State::Probing);
        assert(entries_of(config, responses) =~= Seq::empty());
    } else {
        let first = responses[0];
        let later = rounds(config, responses.skip(1));
        let tail = run(config, State::Probing, later);
        let probe = seq![ActionView::Probe { url: config.url }];
        let round = dispatch_actions(config, first) + probe;
        lemma_rounds_from_probing(config, responses.skip(1));
        lemma_round(config, first, later);
        lemma_dispatch_actions(config, first);
        lemma_single_action(ActionView::Probe { url: config.url });
        lemma_probes_concat(dispatch_actions(config, first), probe);
        lemma_appended_concat(dispatch_actions(config, first), probe);
        lemma_probes_concat(round, tail.1);
        lemma_appended_concat(round, tail.1);
        let entry = seq![file_entry_text(line_of(config, first))];
        assert(entry + Seq::<Seq<char>>::empty() =~= entry);
        assert(entry + entries_of(config, responses.skip(1)) =~= entries_of(config, responses));
    }
}

/// A continuous run with a log file, in which every probe is answered and
/// every line dispatched: after as many rounds as there are responses, what
/// was appended to the log file is the line of each response with its line
/// feed, one for each and in their order, and the monitor is probing again.
pub proof fn lemma_continuous_run_logs_each_response(
    config: ConfigView,
    responses: Seq<Response>,
)
    requires
        !config.one_shot,
        config.has_output_file,
    ensures
        run(config, State::Idle, seq![Event::Start] + rounds(config, responses)).0
            == State::Probing,
        appended(run(config, State::Idle, seq![Event::Start] + rounds(config, responses)).1)
            == entries_of(config, responses),
        probes(run(config, State::Idle, seq![Event::Start] + rounds(config, responses)).1)
            == responses.len() + 1,
{
    let events = seq![Event::Start] + rounds(config, responses);
    let tail = run(config, State::Probing, rounds(config, responses));
    let probe = seq![ActionView::Probe { url: config.url }];
    lemma_rounds_from_probing(config, responses);
    assert(events[0] == Event::Start);
    assert(events.skip(1) =~= rounds(config, responses));
    lemma_run_first(config, State::Idle, events);
    assert(run(config, State::Idle, events) == (tail.0, probe + tail.1));
    lemma_probes_concat(probe, tail.1);
    lemma_appended_concat(probe, tail.1);
    lemma_single_action(ActionView::Probe { url: config.url });
    assert(Seq::<Seq<char>>::empty() + appended(tail.1) =~= appended(tail.1));
}

/// The log file over a continuous run in which every probe is answered and
/// every line dispatched, with JSON lines, or with a URL that holds no line
/// feed: after as many rounds as there are responses, the log is what it
/// was before, followed by the lines of the responses in their order, each
/// ended by its line feed. It has gained exactly one line feed for each
/// response.
pub proof fn lemma_log_after_rounds(config: ConfigView, responses: Seq<Response>, log: Seq<char>)
    requires
        !config.one_shot,
        config.has_output_file,
        config.output_format is Json || one_line(config.url),
    ensures
        ({
            let actions = run(
                config,
                State::Idle,
                seq![Event::Start] + rounds(config, responses),
            ).1;
            let new_log = log_after(log, appended(actions));
            &&& new_log == log_after(log, entries_of(config, responses))
            &&& log.is_prefix_of(new_log)
            &&& line_feeds(new_log) == line_feeds(log) + responses.len()
            &&& responses.len() > 0 ==> new_log.last() == '\n'
        }),
{
    let entries = entries_of(config, responses);
    lemma_continuous_run_logs_each_response(config, responses);
    lemma_log_keeps_prior_content(log, entries);
    assert forall|i: int| 0 <= i < entries.len() implies is_entry(#[trigger] entries[i]) by {
        let r = record_of(config.url, responses[i]);
        let line = line_of(config, responses[i]);
        if config.output_format is Json {
            lemma_json_line_is_one_line(fields_of(r));
        } else {
            lemma_rendered_is_one_line(r, config.output_format);
        }
        assert(file_entry_text(line).drop_last() =~= line);
    }
    lemma_log_gains_one_line_each(log, entries);
}

} // verus!
