//! One square of the board.
use vstd::prelude::*;
use vstd::string::*;

use crate::components::text::{decimal, decimal_string};

verus! {

/// A square of the board: whether it is flagged, revealed or mined, and how
/// many mines lie in the three by three block around it (itself included).
#[derive(Debug, Clone, Copy, PartialEq, Eq, Structural)]
pub struct Cell {
    pub flagged: bool,
    pub revealed: bool,
    pub is_mine: bool,
    pub neighbouring_mines: u8,
}

impl Default for Cell {
    /// A hidden, unflagged square without mine and without mined neighbours.
    fn default() -> (c: Cell)
        ensures
            c == Cell::blank(),
    {
        Cell { flagged: false, revealed: false, is_mine: false, neighbouring_mines: 0 }
    }
}

impl Cell {
    /// The square that `Cell::default()` gives.
    pub open spec fn blank() -> Cell {
        Cell { flagged: false, revealed: false, is_mine: false, neighbouring_mines: 0 }
    }

    /// This square with its flag flipped.
    pub open spec fn flag_toggled(self) -> Cell {
        Cell { flagged: !self.flagged, ..self }
    }

    /// This square, revealed.
    pub open spec fn as_revealed(self) -> Cell {
        Cell { revealed: true, ..self }
    }

    /// This square, mined.
    pub open spec fn as_mined(self) -> Cell {
        Cell { is_mine: true, ..self }
    }

    /// What the square shows: `F` on a hidden flagged square, `#` on another
    /// hidden square, `X` on a revealed mine, the number of mines around a
    /// revealed square where there are some, and `_` otherwise.
    pub open spec fn text(self) -> Seq<char> {
        if self.flagged && !self.revealed {
            seq!['F']
        } else if !self.revealed {
            seq!['#']
        } else if self.is_mine {
            seq!['X']
        } else if self.neighbouring_mines > 0 {
            decimal(self.neighbouring_mines as nat)
        } else {
            seq!['_']
        }
    }

    /// Flips the flag.
    pub fn toggle_flag(&mut self)
        ensures
            *final(self) == old(self).flag_toggled(),
    {
        self.flagged = !self.flagged;
    }

    /// Reveals the square; a revealed square stays revealed.
    pub fn uncover(&mut self)
        ensures
            *final(self) == old(self).as_revealed(),
    {
        self.revealed = true;
    }

    /// Puts a mine on the square.
    pub fn place_mine(&mut self)
        ensures
            *final(self) == old(self).as_mined(),
    {
        self.is_mine = true;
    }

    /// The text the square is drawn with.
    pub fn as_string(&self) -> (s: String)
        ensures
            s@ == self.text(),
    {
        if self.flagged && !self.revealed {
            proof { reveal_strlit("F"); }
            String::from_str("F")
        } else if !self.revealed {
            proof { reveal_strlit("#"); }
            String::from_str("#")
        } else if self.is_mine {
            proof { reveal_strlit("X"); }
            String::from_str("X")
        } else if self.neighbouring_mines > 0 {
            decimal_string(self.neighbouring_mines as u64)
        } else {
            proof { reveal_strlit("_"); }
            String::from_str("_")
        }
    }
}

/// Flipping the flag twice gives back the square.
pub proof fn lemma_toggle_flag_twice(c: Cell)
    ensures
        c.flag_toggled().flag_toggled() == c,
{
}

/// Revealing is idempotent: revealing a revealed square changes nothing.
pub proof fn lemma_reveal_idempotent(c: Cell)
    ensures
        c.as_revealed().as_revealed() == c.as_revealed(),
        c.revealed ==> c.as_revealed() == c,
{
}

} // verus!
