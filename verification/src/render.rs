//! The texts of the status display: the status line and the age shown in
//! front of each notice. Laying them out on a terminal is left to the
//! caller.

use crate::app::{App, AppState};
use crate::text::{decimal, decimal2, push_decimal, push_decimal2};
use vstd::prelude::*;

verus! {

/// The colour in which the status line is shown.
#[derive(Clone, Copy, Debug, PartialEq, Eq, Structural)]
pub enum Tone {
    Yellow,
    Green,
    Red,
}

/// The word that stands for a health state.
pub open spec fn status_label(state: AppState) -> Seq<char> {
    match state {
        AppState::Starting => "Starting..."@,
        AppState::Running => "Running"@,
        AppState::Error(_) => "Error"@,
        AppState::Stopping => "Stopping..."@,
    }
}

/// The colour that stands for a health state.
pub open spec fn status_tone(state: AppState) -> Tone {
    match state {
        AppState::Starting => Tone::Yellow,
        AppState::Running => Tone::Green,
        AppState::Error(_) => Tone::Red,
        AppState::Stopping => Tone::Yellow,
    }
}

/// The status line: health, the two ports, and the number of requests.
pub open spec fn status_text(
    state: AppState,
    proxy_port: u16,
    target_port: u16,
    requests: usize,
) -> Seq<char> {
    "Status: "@ + status_label(state) + " | Proxy: :"@ + decimal(proxy_port as nat) + " → :"@
        + decimal(target_port as nat) + " | Requests: "@ + decimal(requests as nat)
}

/// A number of seconds as hours, minutes and seconds, each with at least
/// two digits.
pub open spec fn clock_text(seconds: nat) -> Seq<char> {
    decimal2(seconds / 3600) + ":"@ + decimal2((seconds % 3600) / 60) + ":"@ + decimal2(
        seconds % 60,
    )
}

/// The whole seconds from `at` to `now`, both in milliseconds; zero where
/// `at` is not in the past.
pub open spec fn age_seconds(at: i64, now: i64) -> nat {
    if now <= at {
        0
    } else {
        ((now - at) / 1000) as nat
    }
}

/// The word and the colour for a health state.
pub fn status(state: &AppState) -> (shown: (&'static str, Tone))
    ensures
        shown.0@ == status_label(*state),
        shown.1 == status_tone(*state),
{
    match state {
        AppState::Starting => ("Starting...", Tone::Yellow),
        AppState::Running => ("Running", Tone::Green),
        AppState::Error(_) => ("Error", Tone::Red),
        AppState::Stopping => ("Stopping...", Tone::Yellow),
    }
}

/// The status line of `app`.
pub fn status_line(app: &App) -> (line: String)
    ensures
        line@ == status_text(
            app@.state,
            app@.config.proxy_port,
            app@.config.target_port,
            app@.request_count,
        ),
{
    let state = app.state();
    let mut line = String::from_str("Status: ");
    line.append(status(&state).0);
    line.append(" | Proxy: :");
    push_decimal(&mut line, app.config().proxy_port as u64);
    line.append(" → :");
    push_decimal(&mut line, app.config().target_port as u64);
    line.append(" | Requests: ");
    push_decimal(&mut line, app.get_request_count() as u64);
    line
}

/// The age of a notice made at `at`, seen at `now`, in whole seconds.
pub fn elapsed_seconds(at: i64, now: i64) -> (seconds: u64)
    ensures
        seconds == age_seconds(at, now),
{
    if now <= at {
        0
    } else {
        (((now as i128) - (at as i128)) / 1000) as u64
    }
}

/// A number of seconds as `HH:MM:SS`.
pub fn elapsed_clock(seconds: u64) -> (text: String)
    ensures
        text@ == clock_text(seconds as nat),
{
    let mut text = String::new();
    push_decimal2(&mut text, seconds / 3600);
    text.append(":");
    push_decimal2(&mut text, (seconds % 3600) / 60);
    text.append(":");
    push_decimal2(&mut text, seconds % 60);
    assert(text@ =~= clock_text(seconds as nat));
    text
}

} // verus!
