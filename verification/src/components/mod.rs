//! The board of the game and the pieces it is made of.
pub mod cell;
pub mod count;
pub mod flood;
pub mod grid;
pub mod mines;
pub mod play;
pub mod text;
