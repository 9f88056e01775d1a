//! Intents, the inbound queue, the connection state machine and the tick.

pub mod broadcaster;
pub mod connection;
pub mod message;
pub mod queue;
pub mod tick;

pub use message::Message;
