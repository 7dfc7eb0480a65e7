//! The keys the game reacts to.
use vstd::prelude::*;

verus! {

/// A pressed key, as far as the game tells keys apart.
#[derive(Debug, Clone, Copy, PartialEq, Eq, Structural)]
pub enum Key {
    Char(char),
    Enter,
    Up,
    Down,
    Left,
    Right,
    /// Any other key.
    Other,
}

impl Key {
    /// `q`, which quits from every screen.
    pub open spec fn is_quit(self) -> bool {
        self == Key::Char('q')
    }

    /// Enter or space, which reveal a square or press a button.
    pub open spec fn is_select(self) -> bool {
        self == Key::Enter || self == Key::Char(' ')
    }
}

} // verus!
