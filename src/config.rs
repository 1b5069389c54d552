//! Key presses and the table that binds each action of the explorer to a key.
use vstd::prelude::*;

verus! {

/// A key press, as the terminal reports it.
#[derive(Debug, Clone, Copy, PartialEq, Eq, Structural)]
pub enum Key {
    Unknown,
    ArrowLeft,
    ArrowRight,
    ArrowUp,
    ArrowDown,
    Enter,
    Escape,
    Backspace,
    Home,
    End,
    Tab,
    Del,
    Char(char),
}

/// The keys that move the selection.
#[derive(Debug, Clone, Copy, PartialEq, Eq, Structural)]
pub struct NavigationBindings {
    pub left: Key,
    pub down: Key,
    pub up: Key,
    pub right: Key,
}

/// The keys that pick what to peek out, once in PEEKING mode.
#[derive(Debug, Clone, Copy, PartialEq, Eq, Structural)]
pub struct PeekingBindings {
    /// the whole data
    pub all: Key,
    /// the container of the selected node
    pub view: Key,
    /// the selected node
    pub under: Key,
    /// the cell-path of the selection
    pub cell_path: Key,
}

/// The key of each action.
#[derive(Debug, Clone, Copy, PartialEq, Eq, Structural)]
pub struct KeyBindings {
    pub quit: Key,
    pub insert: Key,
    pub normal: Key,
    pub navigation: NavigationBindings,
    pub peek: Key,
    pub peeking: PeekingBindings,
}

/// The configuration of the explorer.
#[derive(Debug, Clone, Copy, PartialEq, Eq, Structural)]
pub struct Config {
    pub keybindings: KeyBindings,
}

pub open spec fn default_keybindings() -> KeyBindings {
    KeyBindings {
        quit: Key::Char('q'),
        insert: Key::Char('i'),
        normal: Key::Escape,
        navigation: NavigationBindings {
            left: Key::Char('h'),
            down: Key::Char('j'),
            up: Key::Char('k'),
            right: Key::Char('l'),
        },
        peek: Key::Char('p'),
        peeking: PeekingBindings {
            all: Key::Char('a'),
            view: Key::Char('v'),
            under: Key::Char('u'),
            cell_path: Key::Char('c'),
        },
    }
}

impl Default for Config {
    /// vim-like bindings: `hjkl` to move, `i` to edit, escape to go back to
    /// NORMAL, `p` to peek, `q` to quit.
    fn default() -> (r: Config)
        ensures
            r.keybindings == default_keybindings(),
    {
        Config {
            keybindings: KeyBindings {
                quit: Key::Char('q'),
                insert: Key::Char('i'),
                normal: Key::Escape,
                navigation: NavigationBindings {
                    left: Key::Char('h'),
                    down: Key::Char('j'),
                    up: Key::Char('k'),
                    right: Key::Char('l'),
                },
                peek: Key::Char('p'),
                peeking: PeekingBindings {
                    all: Key::Char('a'),
                    view: Key::Char('v'),
                    under: Key::Char('u'),
                    cell_path: Key::Char('c'),
                },
            },
        }
    }
}

} // verus!
