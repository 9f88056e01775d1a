//! One connection, as a state machine: what the handler of a connection
//! does next, given what just happened on its socket or on the broadcast.

use vstd::prelude::*;
use crate::game::player::{finite_bits, is_finite_bits};
use crate::ident::{fresh_id, is_random_id};
use crate::server::message::Message;

verus! {

/// The most bytes that one read takes from a socket.
pub const READ_BUFFER_LEN: usize = 128;

/// How many snapshots may wait for one subscriber before the oldest are
/// dropped.
pub const SNAPSHOT_BACKLOG: usize = 10;

/// Where a connection stands in its life.
#[derive(Clone, Copy, Debug, PartialEq, Eq, Structural)]
pub enum Phase {
    /// Accepted; its player has not joined yet.
    Connecting,
    /// Its player has joined; reads and snapshots are served.
    Active,
    /// It is going down; its player is being removed.
    Closing,
    /// Over. Nothing follows.
    Closed,
}

/// What happened.
#[derive(Clone, Copy, Debug, PartialEq, Eq)]
pub enum Event {
    /// The connection is set up.
    Opened,
    /// A read took `len` bytes; `position` holds the bit patterns of the
    /// pair of numbers that they spell, if they spell one.
    Received { len: usize, position: Option<(u32, u32)> },
    /// A read found nothing to take yet.
    WouldBlock,
    /// Waiting for the socket or reading from it failed.
    ReadFailed,
    /// A snapshot arrived from the broadcast.
    SnapshotReady,
    /// Writing a snapshot to the socket failed.
    WriteFailed,
    /// The intent that removes the player is in the queue.
    Removed,
}

/// What the handler does next.
#[derive(Clone, Copy, Debug, PartialEq, Eq, Structural)]
pub enum Action {
    /// Enqueue the intent, subscribe to the broadcast, then wait.
    Join { message: Message },
    /// Enqueue the intent, then wait.
    Enqueue { message: Message },
    /// Write the snapshot that arrived to the socket, then wait.
    WriteSnapshot,
    /// Nothing to do but wait.
    Wait,
    /// Enqueue the intent and report `Removed`.
    Leave { message: Message },
    /// Stop: the connection is over.
    Stop,
}

/// The phase that follows `phase` on `event`.
pub open spec fn next_phase(phase: Phase, event: Event) -> Phase {
    match phase {
        Phase::Connecting => match event {
            Event::Opened => Phase::Active,
            _ => Phase::Connecting,
        },
        Phase::Active => match event {
            Event::Received { len, position } => if len == 0 {
                Phase::Closing
            } else {
                Phase::Active
            },
            Event::ReadFailed => Phase::Closing,
            Event::WriteFailed => Phase::Closing,
            _ => Phase::Active,
        },
        Phase::Closing => match event {
            Event::Removed => Phase::Closed,
            _ => Phase::Closing,
        },
        Phase::Closed => Phase::Closed,
    }
}

/// Whether a read gave a position that may enter the queue: both numbers
/// were spelled and both are finite.
pub open spec fn accepted_position(position: Option<(u32, u32)>) -> bool {
    match position {
        Some((x, y)) => is_finite_bits(x) && is_finite_bits(y),
        None => false,
    }
}

/// What the handler of player `id` does on `event` in `phase`.
pub open spec fn reaction(id: u128, phase: Phase, event: Event) -> Action {
    match phase {
        Phase::Connecting => match event {
            Event::Opened => Action::Join { message: Message::AddPlayer { id } },
            _ => Action::Wait,
        },
        Phase::Active => match event {
            Event::Received { len, position } => if len == 0 {
                Action::Leave { message: Message::RemovePlayer { id } }
            } else if accepted_position(position) {
                Action::Enqueue {
                    message: Message::UpdatePlayerPosition {
                        id,
                        x: position.unwrap().0,
                        y: position.unwrap().1,
                    },
                }
            } else {
                Action::Wait
            },
            Event::ReadFailed => Action::Leave { message: Message::RemovePlayer { id } },
            Event::WriteFailed => Action::Leave { message: Message::RemovePlayer { id } },
            Event::SnapshotReady => Action::WriteSnapshot,
            _ => Action::Wait,
        },
        Phase::Closing => match event {
            Event::Removed => Action::Stop,
            _ => Action::Wait,
        },
        Phase::Closed => Action::Stop,
    }
}

/// One connection and the player that it brought.
#[derive(Clone, Copy, Debug)]
pub struct Connection {
    id: u128,
    phase: Phase,
}

impl Connection {
    /// The id of the connection's player.
    pub closed spec fn spec_id(&self) -> u128 {
        self.id
    }

    /// Where the connection stands.
    pub closed spec fn spec_phase(&self) -> Phase {
        self.phase
    }

    /// A connection for the player `id`, not yet set up.
    pub fn with_id(id: u128) -> (conn: Self)
        ensures
            conn.spec_id() == id,
            conn.spec_phase() == Phase::Connecting,
    {
        Self { id, phase: Phase::Connecting }
    }

    /// A connection for a player with a freshly drawn random id, not yet
    /// set up.
    pub fn accept() -> (conn: Self)
        ensures
            is_random_id(conn.spec_id()),
            conn.spec_phase() == Phase::Connecting,
    {
        Self::with_id(fresh_id())
    }

    /// The id of the connection's player.
    pub fn id(&self) -> (id: u128)
        ensures
            id == self.spec_id(),
    {
        self.id
    }

    /// Where the connection stands.
    pub fn phase(&self) -> (phase: Phase)
        ensures
            phase == self.spec_phase(),
    {
        self.phase
    }
}

/// Takes `event` for the connection: moves it to its next phase and says
/// what its handler does next.
pub fn handle_client(conn: &mut Connection, event: Event) -> (action: Action)
    ensures
        final(conn).spec_id() == old(conn).spec_id(),
        final(conn).spec_phase() == next_phase(old(conn).spec_phase(), event),
        action == reaction(old(conn).spec_id(), old(conn).spec_phase(), event),
{
    let id = conn.id;
    let leave = Action::Leave { message: Message::RemovePlayer { id } };
    match conn.phase {
        Phase::Connecting => match event {
            Event::Opened => {
                conn.phase = Phase::Active;
                Action::Join { message: Message::AddPlayer { id } }
            },
            _ => Action::Wait,
        },
        Phase::Active => match event {
            Event::Received { len, position } => {
                if len == 0 {
                    conn.phase = Phase::Closing;
                    leave
                } else {
                    match position {
                        Some((x, y)) => {
                            if finite_bits(x) && finite_bits(y) {
                                Action::Enqueue {
                                    message: Message::UpdatePlayerPosition { id, x, y },
                                }
                            } else {
                                Action::Wait
                            }
                        },
                        None => Action::Wait,
                    }
                }
            },
            Event::ReadFailed => {
                conn.phase = Phase::Closing;
                leave
            },
            Event::WriteFailed => {
                conn.phase = Phase::Closing;
                leave
            },
            Event::SnapshotReady => Action::WriteSnapshot,
            _ => Action::Wait,
        },
        Phase::Closing => match event {
            Event::Removed => {
                conn.phase = Phase::Closed;
                Action::Stop
            },
            _ => Action::Wait,
        },
        Phase::Closed => Action::Stop,
    }
}

/// The intent that an action puts into the queue, if it puts one.
pub open spec fn intent_of(action: Action) -> Option<Message> {
    match action {
        Action::Join { message } => Some(message),
        Action::Enqueue { message } => Some(message),
        Action::Leave { message } => Some(message),
        _ => None,
    }
}

/// A connection removes its player when it goes down, and only then: the
/// intent of a reaction is a removal exactly where an active connection
/// starts closing.
pub proof fn lemma_removal_on_closing(id: u128, phase: Phase, event: Event)
    ensures
        (intent_of(reaction(id, phase, event)) == Some(Message::RemovePlayer { id })) <==> (phase
            == Phase::Active && next_phase(phase, event) == Phase::Closing),
        intent_of(reaction(id, phase, event)).is_some() ==> intent_of(
            reaction(id, phase, event),
        ).unwrap().spec_player_id() == id,
{
}

/// Whatever a connection puts into the queue carries finite coordinates.
pub proof fn lemma_intents_are_finite(id: u128, phase: Phase, event: Event)
    ensures
        intent_of(reaction(id, phase, event)).is_some() ==> intent_of(
            reaction(id, phase, event),
        ).unwrap().is_finite(),
{
}

/// A read that spells no position, or one that is not finite, puts nothing
/// into the queue and leaves the connection as it is.
pub proof fn lemma_rejected_input_is_dropped(
    id: u128,
    phase: Phase,
    len: usize,
    position: Option<(u32, u32)>,
)
    requires
        len > 0,
        !accepted_position(position),
    ensures
        intent_of(reaction(id, phase, Event::Received { len, position })).is_none(),
        next_phase(phase, Event::Received { len, position }) == phase,
{
}

} // verus!
