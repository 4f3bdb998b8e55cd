//! The rules that the systems of the game apply on each frame.

pub mod player_input;

pub use self::player_input::{InputResponse, PlayerInputSystem};
