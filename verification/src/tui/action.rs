//! What the interface reacts to.
use vstd::prelude::*;

use crate::tui::pages::ActivePage;

verus! {

/// A key, as far as the interface tells keys apart.
#[derive(Clone, Copy, PartialEq, Eq, Structural, Debug)]
pub enum KeyInput {
    Char(char),
    Up,
    Down,
    Left,
    Right,
    Esc,
    /// Any other key.
    Other,
}

/// Something for the interface to do. A state update carries no state
/// here: the application hands the state to the parts that read it.
#[derive(Clone, Copy, PartialEq, Eq, Structural, Debug)]
pub enum Action {
    Tick,
    Render,
    Resize(u16, u16),
    KeyPress(KeyInput),
    StateUpdate,
    Navigate(ActivePage),
    Quit,
}

/// Whether an action makes the screen be drawn again: a render, a resize,
/// a state update or a change of page do; a tick, a key and quitting do
/// not.
pub open spec fn triggers_render(a: Action) -> bool {
    match a {
        Action::Render => true,
        Action::Resize(_, _) => true,
        Action::StateUpdate => true,
        Action::Navigate(_) => true,
        _ => false,
    }
}

impl Action {
    /// Whether the screen is to be drawn again after this action.
    pub fn should_trigger_render(&self) -> (r: bool)
        ensures
            r == triggers_render(*self),
    {
        match self {
            Action::Tick => false,
            Action::Render => true,
            Action::Resize(_, _) => true,
            Action::KeyPress(_) => false,
            Action::StateUpdate => true,
            Action::Navigate(_) => true,
            Action::Quit => false,
        }
    }
}

} // verus!
