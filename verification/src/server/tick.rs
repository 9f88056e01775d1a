//! The tick: drain the queue, apply what was pending.

use vstd::prelude::*;
use crate::game::gamestate::{applied_len, apply_all, not_found_text, GameState};
use crate::game::history::{lookup, player_after};
use crate::server::queue::InboundQueue;

verus! {

/// The time between two ticks, in milliseconds.
pub const TICK_INTERVAL_MILLIS: u64 = 8;

/// Whether enough time has passed since the last tick for the next one.
pub fn tick_due(elapsed_millis: u64) -> (due: bool)
    ensures
        due == (elapsed_millis > TICK_INTERVAL_MILLIS),
{
    elapsed_millis > TICK_INTERVAL_MILLIS
}

/// One tick on the world: takes all pending intents out of the queue and
/// applies them, oldest first, up to the first update whose player is not
/// there. The queue is empty afterwards, whether or not all were applied.
pub fn run(state: &mut GameState, queue: &mut InboundQueue) -> (result: Result<(), String>)
    requires
        old(state).wf(),
    ensures
        final(state).wf(),
        final(queue)@ == Seq::<crate::server::message::Message>::empty(),
        final(state).entries() == apply_all(
            old(state).entries(),
            old(queue)@.take(applied_len(old(state).entries(), old(queue)@)),
        ),
        result.is_ok() <==> applied_len(old(state).entries(), old(queue)@) == old(queue)@.len(),
        result.is_err() ==> result.unwrap_err()@ == not_found_text(),
        forall|id: u128| #[trigger]
            lookup(final(state).entries(), id) == player_after(
                lookup(old(state).entries(), id),
                old(queue)@.take(applied_len(old(state).entries(), old(queue)@)),
                id,
            ),
{
    let batch = queue.drain_all();
    state.process_messages(batch)
}

} // verus!
