//! The world state and what it is made of.

pub mod gamestate;
pub mod history;
pub mod player;
pub mod snapshot;

pub use gamestate::GameState;
pub use player::Player;
