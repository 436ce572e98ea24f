//! What the application does with each action, apart from drawing.
use vstd::prelude::*;

use crate::tui::action::{Action, KeyInput};
use crate::tui::pages::ActivePage;

verus! {

/// How often the screen is refreshed, in milliseconds.
pub const REFRESH_RATE_MILLIS: u64 = 100;

/// A command for the telemetry engine: a change of the live delay, in
/// seconds.
#[derive(Clone, Copy, PartialEq, Eq, Structural, Debug)]
pub enum EngineCommand {
    IncreaseDelay(u64),
    DecreaseDelay(u64),
}

/// What to do with an action after the application has looked at it.
#[derive(Clone, Copy, PartialEq, Eq, Structural, Debug)]
pub enum AppStep {
    /// Stop here with this follow-up action, if any.
    Done(Option<Action>),
    /// Send this command to the engine, if any, and hand the action to the
    /// page on screen.
    Dispatch(Option<EngineCommand>),
}

/// The application's own state: the page on screen and whether to exit.
#[derive(Clone, Copy, PartialEq, Eq, Structural, Debug, Default)]
pub struct AppControl {
    pub active_page: ActivePage,
    pub exit: bool,
}

/// What the application does with an action: quitting sets the exit flag;
/// a change of page takes the page and asks for a render; `q` asks to
/// quit; the left and right arrows make the live delay a second longer or
/// shorter before the page sees the key; everything else goes to the page.
pub open spec fn app_step(c: AppControl, a: Action) -> (AppControl, AppStep) {
    match a {
        Action::Quit => (AppControl { exit: true, ..c }, AppStep::Done(None)),
        Action::Navigate(p) => (AppControl { active_page: p, ..c }, AppStep::Done(Some(Action::Render))),
        Action::KeyPress(KeyInput::Char('q')) => (c, AppStep::Done(Some(Action::Quit))),
        Action::KeyPress(KeyInput::Left) => (c, AppStep::Dispatch(Some(EngineCommand::IncreaseDelay(1)))),
        Action::KeyPress(KeyInput::Right) => (c, AppStep::Dispatch(Some(EngineCommand::DecreaseDelay(1)))),
        _ => (c, AppStep::Dispatch(None)),
    }
}

impl AppControl {
    /// The state at start: the live timing page, running.
    pub fn new() -> (c: AppControl)
        ensures
            c.active_page == ActivePage::LiveTiming,
            !c.exit,
    {
        AppControl { active_page: ActivePage::LiveTiming, exit: false }
    }

    /// Takes an action (see `app_step`).
    pub fn update(&mut self, action: Action) -> (s: AppStep)
        ensures
            (*final(self), s) == app_step(*old(self), action),
    {
        match action {
            Action::Quit => {
                self.exit = true;
                AppStep::Done(None)
            },
            Action::Navigate(page) => {
                self.active_page = page;
                AppStep::Done(Some(Action::Render))
            },
            Action::KeyPress(KeyInput::Char('q')) => AppStep::Done(Some(Action::Quit)),
            Action::KeyPress(KeyInput::Left) => AppStep::Dispatch(Some(EngineCommand::IncreaseDelay(1))),
            Action::KeyPress(KeyInput::Right) => AppStep::Dispatch(Some(EngineCommand::DecreaseDelay(1))),
            _ => AppStep::Dispatch(None),
        }
    }
}

/// Whether the telemetry state changed since the version last seen, and
/// the version to remember.
pub fn state_changed(last_seen: u64, current: u64) -> (r: (bool, u64))
    ensures
        r == (current != last_seen, current),
{
    (current != last_seen, current)
}

/// Whether any part of a page asked for a render: then the page asks for
/// one.
pub fn any_render(results: &Vec<Option<Action>>) -> (r: Option<Action>)
    ensures
        r == if exists|i: int| 0 <= i < results@.len() && results@[i] == Some(Action::Render) {
            Some(Action::Render)
        } else {
            None::<Action>
        },
{
    let mut i: usize = 0;
    while i < results.len()
        invariant
            i <= results@.len(),
            forall|k: int| 0 <= k < i ==> results@[k] != Some(Action::Render),
        decreases results@.len() - i,
    {
        if results[i] == Some(Action::Render) {
            return Some(Action::Render);
        }
        i = i + 1;
    }
    None
}

/// The live delay after a command, in seconds: longer by the command's
/// seconds (no longer than `u64::MAX`), or shorter by them (no shorter
/// than zero).
pub open spec fn delay_after(delay_secs: u64, cmd: EngineCommand) -> u64 {
    match cmd {
        EngineCommand::IncreaseDelay(s) => if delay_secs + s > u64::MAX {
            u64::MAX
        } else {
            (delay_secs + s) as u64
        },
        EngineCommand::DecreaseDelay(s) => if s >= delay_secs {
            0
        } else {
            (delay_secs - s) as u64
        },
    }
}

/// The live delay after a command (see `delay_after`).
pub fn next_delay(delay_secs: u64, cmd: EngineCommand) -> (d: u64)
    ensures
        d == delay_after(delay_secs, cmd),
{
    match cmd {
        EngineCommand::IncreaseDelay(s) => if s > u64::MAX - delay_secs {
            u64::MAX
        } else {
            delay_secs + s
        },
        EngineCommand::DecreaseDelay(s) => if s >= delay_secs {
            0
        } else {
            delay_secs - s
        },
    }
}

/// Whether an update that arrived at `arrival` is due at `now` (both in
/// milliseconds) under a live delay of `delay_secs` seconds: it has waited
/// at least the delay.
pub open spec fn is_due(arrival: u64, now: u64, delay_secs: u64) -> bool {
    now >= arrival && now - arrival >= delay_secs * 1000
}

/// How many of the waiting updates, oldest first, are applied now: those
/// up to the first that is not yet due (see `is_due`).
pub fn due_count(arrivals: &Vec<u64>, now: u64, delay_secs: u64) -> (n: usize)
    ensures
        n <= arrivals@.len(),
        forall|k: int| 0 <= k < n ==> is_due(#[trigger] arrivals@[k], now, delay_secs),
        n < arrivals@.len() ==> !is_due(arrivals@[n as int], now, delay_secs),
{
    let mut i: usize = 0;
    while i < arrivals.len()
        invariant
            i <= arrivals@.len(),
            forall|k: int| 0 <= k < i ==> is_due(#[trigger] arrivals@[k], now, delay_secs),
        decreases arrivals@.len() - i,
    {
        let a = arrivals[i];
        let due = now >= a && (now - a) as u128 >= delay_secs as u128 * 1000;
        if !due {
            return i;
        }
        i = i + 1;
    }
    i
}

} // verus!
