//! Core of a tick-based position-sync server: the world state, the intents
//! that change it, the inbound queue, the per-connection state machine and
//! the tick that ties them together.
//!
//! Positions are carried as the IEEE 754 single-precision bit patterns of
//! their coordinates, player ids as 128-bit integers.

pub mod game;
pub mod ident;
pub mod server;
