//! A terminal minesweeper game: the board, its cells, the flood reveal and the
//! screens of the game as verified state machines.
pub mod components;
pub mod appstate;
