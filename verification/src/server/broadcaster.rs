//! Publishing a snapshot to the subscribers of the broadcast.

use tokio::sync::broadcast::error::SendError;
use tokio::sync::broadcast::Sender;
use vstd::prelude::*;

verus! {

/// The sending half of a broadcast channel.
#[verifier::external_type_specification]
#[verifier::external_body]
#[verifier::reject_recursive_types(T)]
pub struct ExSender<T>(Sender<T>);

/// What a send hands back when nobody is subscribed.
#[verifier::external_type_specification]
#[verifier::external_body]
#[verifier::reject_recursive_types(T)]
pub struct ExSendError<T>(SendError<T>);

/// Calls `tokio::sync::broadcast::Sender::send`. Trusted: where the send
/// succeeds, it reports at least one subscriber. How many there are, and
/// whether there is any, depends on the other tasks and is not claimed.
#[verifier::external_body]
fn send(tx: &Sender<String>, snapshot: String) -> (outcome: Result<usize, SendError<String>>)
    ensures
        outcome matches Ok(n) ==> n > 0,
{
    tx.send(snapshot)
}

/// How many subscribers a publication has reached, given what the send
/// handed back: none where it was refused for want of subscribers.
pub fn receivers_reached(outcome: Result<usize, SendError<String>>) -> (reached: usize)
    ensures
        reached == (match outcome {
            Ok(n) => n,
            Err(_) => 0,
        }),
{
    match outcome {
        Ok(n) => n,
        Err(_) => 0,
    }
}

/// Publishes `snapshot` to all current subscribers and says how many there
/// were. Without subscribers nothing happens and the answer is zero; it is
/// no failure.
pub fn publish(tx: &Sender<String>, snapshot: String) -> (reached: usize) {
    receivers_reached(send(tx, snapshot))
}

} // verus!
