//! Running without a terminal: either for a fixed window with one summary at
//! its end, or streaming a summary per interval until asked to stop.

use vstd::prelude::*;

verus! {

/// How the tool runs.
#[derive(Clone, Copy, Debug, PartialEq, Eq, Structural)]
pub enum Mode {
    /// A plain poll loop.
    Headless,
    /// The interactive panels.
    Terminal,
}

/// The panels are shown unless structured output or a fixed window is asked for.
pub fn mode(json: bool, duration: Option<u64>) -> (mode: Mode)
    ensures
        mode == (if json || duration is Some {
            Mode::Headless
        } else {
            Mode::Terminal
        }),
{
    if json || duration.is_some() {
        Mode::Headless
    } else {
        Mode::Terminal
    }
}

/// What the poll loop does after it has drained the events.
#[derive(Clone, Copy, Debug, PartialEq, Eq, Structural)]
pub enum Action {
    /// Print the final summary and end.
    Finish,
    /// Print a summary, and go on.
    Emit,
    /// Go on.
    Wait,
}

/// What to do; all times are in nanoseconds. A request to end comes first; a
/// fixed window then runs until it is over, and prints nothing before; without
/// one, a summary is due every interval.
pub open spec fn action_due(
    requested: bool,
    elapsed: nat,
    duration: Option<nat>,
    since_emit: nat,
    refresh: nat,
) -> Action {
    if requested {
        Action::Finish
    } else {
        match duration {
            Some(window) => if elapsed >= window {
                Action::Finish
            } else {
                Action::Wait
            },
            None => if since_emit >= refresh {
                Action::Emit
            } else {
                Action::Wait
            },
        }
    }
}

/// A length of time in nanoseconds, where there is one.
pub open spec fn nanos(duration: Option<u128>) -> Option<nat> {
    match duration {
        Some(d) => Some(d as nat),
        None => None,
    }
}

/// Decides what the poll loop does next. Times are in nanoseconds.
pub fn next_action(
    requested: bool,
    elapsed: u128,
    duration: Option<u128>,
    since_emit: u128,
    refresh: u128,
) -> (action: Action)
    ensures
        action == action_due(
            requested,
            elapsed as nat,
            nanos(duration),
            since_emit as nat,
            refresh as nat,
        ),
{
    if requested {
        return Action::Finish;
    }
    match duration {
        Some(window) => if elapsed >= window {
            Action::Finish
        } else {
            Action::Wait
        },
        None => if since_emit >= refresh {
            Action::Emit
        } else {
            Action::Wait
        },
    }
}

/// How the last summary is written.
#[derive(Clone, Copy, Debug, PartialEq, Eq, Structural)]
pub enum Form {
    /// As text.
    Plain,
    /// As JSON for a reader.
    Pretty,
    /// As one line of JSON, like those of the stream before it.
    Line,
}

/// Chooses the form of the last summary: text unless structured output is asked
/// for, and then one line at the end of a stream.
pub fn final_form(json: bool, windowed: bool) -> (form: Form)
    ensures
        form == (if !json {
            Form::Plain
        } else if windowed {
            Form::Pretty
        } else {
            Form::Line
        }),
{
    if !json {
        Form::Plain
    } else if windowed {
        Form::Pretty
    } else {
        Form::Line
    }
}

/// A request to end is heeded in every state.
pub proof fn requests_are_heeded(
    elapsed: nat,
    duration: Option<nat>,
    since_emit: nat,
    refresh: nat,
)
    ensures
        action_due(true, elapsed, duration, since_emit, refresh) == Action::Finish,
{
}

/// A fixed window prints one summary: none comes before its end, and at its
/// end it is over.
pub proof fn windows_print_once(
    requested: bool,
    elapsed: nat,
    window: nat,
    since_emit: nat,
    refresh: nat,
)
    ensures
        action_due(requested, elapsed, Some(window), since_emit, refresh) != Action::Emit,
        elapsed >= window ==> action_due(requested, elapsed, Some(window), since_emit, refresh)
            == Action::Finish,
{
}

/// Streaming goes on until a request to end.
pub proof fn streams_do_not_end_by_themselves(elapsed: nat, since_emit: nat, refresh: nat)
    ensures
        action_due(false, elapsed, None, since_emit, refresh) != Action::Finish,
{
}

/// What the loop does is decided by four things alone, in this order: a request
/// to end, the end of a fixed window, the interval of a stream.
pub proof fn actions_are_due(
    requested: bool,
    elapsed: u128,
    duration: Option<u128>,
    since_emit: u128,
    refresh: u128,
)
    ensures
        ({
            let action = action_due(
                requested,
                elapsed as nat,
                nanos(duration),
                since_emit as nat,
                refresh as nat,
            );
            &&& action == Action::Finish <==> requested || (duration is Some && elapsed
                >= duration->0)
            &&& action == Action::Emit <==> !requested && duration is None && since_emit >= refresh
        }),
{
}

} // verus!
