//! A modal, keyboard-driven explorer of structured data: cell-path addressing,
//! navigation over a value tree, a small string editor and the transition
//! function that turns key presses into outcomes.
use vstd::prelude::*;

pub mod app;
pub mod config;
pub mod edit;
pub mod navigation;
pub mod value;

verus! {

/// The explorer, as a command of the shell that hosts it.
pub struct Explore;

/// The coarse state of a session, as a status line shows it: viewing or
/// editing.
#[derive(Debug, Clone, Copy, PartialEq, Eq, Structural)]
pub enum State {
    Normal,
    Insert,
}

impl State {
    /// The explorer starts in NORMAL mode.
    pub fn default() -> (r: State)
        ensures
            r == State::Normal,
    {
        State::Normal
    }
}

} // verus!
