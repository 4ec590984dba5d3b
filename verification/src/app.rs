//! The operator-facing side of the engine: its health, a count of the
//! requests it has seen, and the notices it has emitted, kept under the
//! retention rules.

use crate::clock::now_millis;
use crate::config::Config;
use crate::retention::{capped, unexpired, Retained, Stamped, MAX_ENTRIES, TTL_MILLIS};
use vstd::prelude::*;

verus! {

/// Health of the forwarding engine as the orchestrating process sees it.
#[derive(Debug)]
pub enum AppState {
    Starting,
    Running,
    Error(String),
    Stopping,
}

impl Clone for AppState {
    fn clone(&self) -> (copy: Self)
        ensures
            copy == *self,
    {
        match self {
            AppState::Starting => AppState::Starting,
            AppState::Running => AppState::Running,
            AppState::Error(message) => AppState::Error(message.clone()),
            AppState::Stopping => AppState::Stopping,
        }
    }
}

/// A notice is stamped with the time it was logged.
impl Stamped for (i64, String) {
    open spec fn stamp_of(entry: (i64, Seq<char>)) -> i64 {
        entry.0
    }

    fn stamp(&self) -> (at: i64) {
        self.0
    }
}

/// The interval between two ticks of the event loop, in milliseconds.
pub const TICK_MILLIS: u64 = 200;

/// How long the event loop may wait for a key before the next tick is due,
/// given the milliseconds since the last tick.
pub fn poll_timeout(since_tick: u64) -> (wait: u64)
    ensures
        wait == if since_tick >= TICK_MILLIS {
            0
        } else {
            TICK_MILLIS - since_tick
        },
{
    if since_tick >= TICK_MILLIS {
        0
    } else {
        TICK_MILLIS - since_tick
    }
}

/// Whether a tick is due, given the milliseconds since the last tick.
pub fn tick_due(since_tick: u64) -> (due: bool)
    ensures
        due == (since_tick >= TICK_MILLIS),
{
    since_tick >= TICK_MILLIS
}

/// State shared between the engine and the status display. It never holds
/// more than 1000 notices.
pub struct App {
    pub title: String,
    state: AppState,
    logs: Retained<(i64, String)>,
    request_count: usize,
    config: Config,
}

/// The model of an [`App`]: notices are pairs of a time in milliseconds and
/// a text, oldest first.
pub struct AppView {
    pub title: Seq<char>,
    pub state: AppState,
    pub logs: Seq<(i64, Seq<char>)>,
    pub request_count: usize,
    pub config: Config,
}

impl View for App {
    type V = AppView;

    closed spec fn view(&self) -> AppView {
        AppView {
            title: self.title@,
            state: self.state,
            logs: self.logs@,
            request_count: self.request_count,
            config: self.config,
        }
    }
}

impl App {
    /// A starting engine with no notices and no requests seen.
    pub fn new(config: Config) -> (app: Self)
        ensures
            app@ == (AppView {
                title: "chopd-rs"@,
                state: AppState::Starting,
                logs: Seq::empty(),
                request_count: 0,
                config,
            }),
    {
        App {
            title: String::from_str("chopd-rs"),
            state: AppState::Starting,
            logs: Retained::new(),
            request_count: 0,
            config,
        }
    }

    /// The current health.
    pub fn state(&self) -> (state: AppState)
        ensures
            state == self@.state,
    {
        self.state.clone()
    }

    /// Records a transition of the engine's health.
    pub fn set_state(&mut self, state: AppState)
        ensures
            final(self)@ == (AppView { state, ..old(self)@ }),
    {
        self.state = state;
    }

    /// Appends a notice stamped `now` and applies the count cap.
    pub fn add_log_at(&mut self, now: i64, message: String)
        ensures
            final(self)@ == (AppView {
                logs: capped(old(self)@.logs.push((now, message@)), MAX_ENTRIES as nat),
                ..old(self)@
            }),
            final(self)@.logs.len() <= MAX_ENTRIES,
    {
        self.logs.append((now, message));
    }

    /// Appends a notice stamped with the current time and applies the count
    /// cap.
    pub fn add_log(&mut self, message: String)
        ensures
            exists|now: i64|
                final(self)@ == (AppView {
                    logs: capped(
                        #[trigger] old(self)@.logs.push((now, message@)),
                        MAX_ENTRIES as nat,
                    ),
                    ..old(self)@
                }),
            final(self)@.logs.len() <= MAX_ENTRIES,
    {
        let now = now_millis();
        self.add_log_at(now, message);
    }

    /// Forgets every notice.
    pub fn clear_logs(&mut self)
        ensures
            final(self)@ == (AppView { logs: Seq::empty(), ..old(self)@ }),
    {
        self.logs.clear();
    }

    /// A copy of the notices, oldest first.
    pub fn get_logs(&self) -> (logs: Vec<(i64, String)>)
        ensures
            logs.deep_view() == self@.logs,
            logs.len() <= MAX_ENTRIES,
    {
        let held = self.logs.entries();
        let mut logs: Vec<(i64, String)> = Vec::new();
        let mut i: usize = 0;
        while i < held.len()
            invariant
                i <= held.len(),
                logs.len() == i,
                logs.deep_view() =~= held.deep_view().take(i as int),
            decreases held.len() - i,
        {
            let entry = &held[i];
            let ghost before = logs.deep_view();
            logs.push((entry.0, entry.1.clone()));
            assert(logs.deep_view() =~= before.push(held.deep_view()[i as int]));
            i += 1;
        }
        assert(held.deep_view().take(i as int) =~= held.deep_view());
        logs
    }

    /// Counts one more request; the count wraps around at the machine limit.
    pub fn increment_request_count(&mut self)
        ensures
            final(self)@ == (AppView {
                request_count: if old(self)@.request_count == usize::MAX {
                    0usize
                } else {
                    (old(self)@.request_count + 1) as usize
                },
                ..old(self)@
            }),
    {
        self.request_count = if self.request_count == usize::MAX {
            0
        } else {
            self.request_count + 1
        };
    }

    /// The number of requests counted so far.
    pub fn get_request_count(&self) -> (count: usize)
        ensures
            count == self@.request_count,
    {
        self.request_count
    }

    /// The configuration the engine was started with.
    pub fn config(&self) -> (config: &Config)
        ensures
            *config == self@.config,
    {
        &self.config
    }

    /// Acts on a key pressed by the operator and tells whether the event
    /// loop must end: `q` stops the engine, `c` clears the notices, and any
    /// other key does nothing.
    pub fn on_key(&mut self, key: char) -> (quit: bool)
        ensures
            quit == (key == 'q'),
            final(self)@ == if key == 'q' {
                AppView { state: AppState::Stopping, ..old(self)@ }
            } else if key == 'c' {
                AppView { logs: Seq::empty(), ..old(self)@ }
            } else {
                old(self)@
            },
    {
        if key == 'q' {
            self.set_state(AppState::Stopping);
            true
        } else {
            if key == 'c' {
                self.clear_logs();
            }
            false
        }
    }

    /// Evicts every notice that is an hour old or older at time `now`.
    pub fn on_tick_at(&mut self, now: i64)
        ensures
            final(self)@ == (AppView {
                logs: unexpired::<(i64, String)>(old(self)@.logs, now, TTL_MILLIS),
                ..old(self)@
            }),
            final(self)@.logs.len() <= old(self)@.logs.len() <= MAX_ENTRIES,
    {
        self.logs.evict_expired(now, TTL_MILLIS);
    }

    /// Evicts every notice that is an hour old or older by the current time.
    pub fn on_tick(&mut self)
        ensures
            exists|now: i64|
                final(self)@ == (AppView {
                    logs: #[trigger] unexpired::<(i64, String)>(old(self)@.logs, now, TTL_MILLIS),
                    ..old(self)@
                }),
            final(self)@.logs.len() <= old(self)@.logs.len() <= MAX_ENTRIES,
    {
        let now = now_millis();
        self.on_tick_at(now);
    }
}

} // verus!
