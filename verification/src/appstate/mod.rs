//! The screens of the game and how a key press moves between them.
pub mod app;
pub mod clock;
pub mod finished_state;
pub mod key;
pub mod lost;
pub mod menu;
pub mod playing;
pub mod screen;
pub mod won;
