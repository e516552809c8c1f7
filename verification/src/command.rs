//! Command decoding: from one key event to the player's intent.
//!
//! The terminal hands the program a key; the mapping to a command is fixed:
//! the quit letter, its uppercase form, or escape quits; the four classic
//! movement letters and the four arrow keys move; every other key decodes to
//! nothing and the caller keeps waiting.

use vstd::prelude::*;

verus! {

/// A movement direction: one cell, orthogonally.
#[derive(Debug, Clone, Copy, PartialEq, Eq, Structural)]
pub enum Dirn {
    Up,
    Down,
    Left,
    Right,
}

/// What the player asks for on one turn.
#[derive(Debug, Clone, Copy, PartialEq, Eq, Structural)]
pub enum Command {
    Quit,
    Move(Dirn),
}

/// A key event as the terminal reports it: a character, or one of the
/// dedicated arrow keys.
#[derive(Debug, Clone, Copy, PartialEq, Eq, Structural)]
pub enum Key {
    Char(char),
    ArrowLeft,
    ArrowRight,
    ArrowUp,
    ArrowDown,
}

/// The fixed key-to-command vocabulary; `None` for an unrecognized key.
pub open spec fn spec_decode(key: Key) -> Option<Command> {
    match key {
        Key::Char(ch) => if ch == 'q' || ch == 'Q' || ch == '\u{1b}' {
            Some(Command::Quit)
        } else if ch == 'h' {
            Some(Command::Move(Dirn::Left))
        } else if ch == 'j' {
            Some(Command::Move(Dirn::Down))
        } else if ch == 'k' {
            Some(Command::Move(Dirn::Up))
        } else if ch == 'l' {
            Some(Command::Move(Dirn::Right))
        } else {
            None
        },
        Key::ArrowLeft => Some(Command::Move(Dirn::Left)),
        Key::ArrowRight => Some(Command::Move(Dirn::Right)),
        Key::ArrowUp => Some(Command::Move(Dirn::Up)),
        Key::ArrowDown => Some(Command::Move(Dirn::Down)),
    }
}

impl Command {
    /// Decodes one key event; an unrecognized key yields `None` and the
    /// caller waits for the next key.
    pub fn from_key(key: Key) -> (r: Option<Command>)
        ensures
            r == spec_decode(key),
    {
        match key {
            Key::Char(ch) => if ch == 'q' || ch == 'Q' || ch == '\u{1b}' {
                Some(Command::Quit)
            } else if ch == 'h' {
                Some(Command::Move(Dirn::Left))
            } else if ch == 'j' {
                Some(Command::Move(Dirn::Down))
            } else if ch == 'k' {
                Some(Command::Move(Dirn::Up))
            } else if ch == 'l' {
                Some(Command::Move(Dirn::Right))
            } else {
                None
            },
            Key::ArrowLeft => Some(Command::Move(Dirn::Left)),
            Key::ArrowRight => Some(Command::Move(Dirn::Right)),
            Key::ArrowUp => Some(Command::Move(Dirn::Up)),
            Key::ArrowDown => Some(Command::Move(Dirn::Down)),
        }
    }
}

impl Dirn {
    /// The one-cell displacement of this direction, as a (row, col) change:
    /// up and down move along rows, left and right along columns.
    pub fn delta(self) -> (r: (i32, i32))
        ensures
            r == match self {
                Dirn::Up => (-1i32, 0i32),
                Dirn::Down => (1i32, 0i32),
                Dirn::Left => (0i32, -1i32),
                Dirn::Right => (0i32, 1i32),
            },
    {
        match self {
            Dirn::Up => (-1, 0),
            Dirn::Down => (1, 0),
            Dirn::Left => (0, -1),
            Dirn::Right => (0, 1),
        }
    }
}

} // verus!
