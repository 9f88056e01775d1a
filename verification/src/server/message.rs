//! Intents: the entries of the inbound queue.

use vstd::prelude::*;
use crate::game::player::is_finite_bits;

verus! {

/// An instruction to change the world state. Coordinates are the bit
/// patterns of single-precision numbers.
#[derive(Clone, Copy, Debug, PartialEq, Eq, Structural)]
pub enum Message {
    AddPlayer { id: u128 },
    RemovePlayer { id: u128 },
    UpdatePlayerPosition { id: u128, x: u32, y: u32 },
}

impl Message {
    /// The player that the intent is about.
    pub open spec fn spec_player_id(self) -> u128 {
        match self {
            Message::AddPlayer { id } => id,
            Message::RemovePlayer { id } => id,
            Message::UpdatePlayerPosition { id, .. } => id,
        }
    }

    /// Every coordinate that the intent carries is a finite number.
    pub open spec fn is_finite(self) -> bool {
        match self {
            Message::UpdatePlayerPosition { x, y, .. } => is_finite_bits(x) && is_finite_bits(y),
            _ => true,
        }
    }

    /// The player that the intent is about.
    pub fn player_id(&self) -> (id: u128)
        ensures
            id == self.spec_player_id(),
    {
        match self {
            Message::AddPlayer { id } => *id,
            Message::RemovePlayer { id } => *id,
            Message::UpdatePlayerPosition { id, .. } => *id,
        }
    }
}

} // verus!
