//! The inbound queue: intents in the order in which they arrived.

use std::collections::VecDeque;
use vstd::prelude::*;
use crate::server::message::Message;

verus! {

/// Pending intents, oldest first. Producers append; the tick takes all of
/// them at once.
pub struct InboundQueue {
    pending: VecDeque<Message>,
}

impl View for InboundQueue {
    type V = Seq<Message>;

    closed spec fn view(&self) -> Seq<Message> {
        self.pending@
    }
}

impl InboundQueue {
    /// An empty queue.
    pub fn new() -> (queue: Self)
        ensures
            queue@ == Seq::<Message>::empty(),
    {
        Self { pending: VecDeque::new() }
    }

    /// How many intents are pending.
    pub fn len(&self) -> (n: usize)
        ensures
            n == self@.len(),
    {
        self.pending.len()
    }

    /// Appends `message` behind all pending intents.
    pub fn enqueue(&mut self, message: Message)
        ensures
            final(self)@ == old(self)@.push(message),
    {
        self.pending.push_back(message);
    }

    /// Hands out all pending intents, oldest first, and leaves the queue
    /// empty.
    pub fn drain_all(&mut self) -> (batch: VecDeque<Message>)
        ensures
            batch@ == old(self)@,
            final(self)@ == Seq::<Message>::empty(),
    {
        let mut batch: VecDeque<Message> = VecDeque::new();
        std::mem::swap(&mut self.pending, &mut batch);
        batch
    }
}

/// One use of the queue: a producer appends an intent, or the consumer takes
/// all that is pending.
pub enum QueueOp {
    Enqueue(Message),
    Drain,
}

/// What is pending after `ops`, starting from an empty queue.
pub open spec fn pending_after(ops: Seq<QueueOp>) -> Seq<Message>
    decreases ops.len(),
{
    if ops.len() == 0 {
        Seq::empty()
    } else {
        match ops.last() {
            QueueOp::Enqueue(m) => pending_after(ops.drop_last()).push(m),
            QueueOp::Drain => Seq::empty(),
        }
    }
}

/// What the consumer has received after `ops`, batch after batch.
pub open spec fn delivered_after(ops: Seq<QueueOp>) -> Seq<Message>
    decreases ops.len(),
{
    if ops.len() == 0 {
        Seq::empty()
    } else {
        match ops.last() {
            QueueOp::Enqueue(_) => delivered_after(ops.drop_last()),
            QueueOp::Drain => delivered_after(ops.drop_last()) + pending_after(ops.drop_last()),
        }
    }
}

/// The intents that the producers appended in `ops`, in that order.
pub open spec fn enqueued_in(ops: Seq<QueueOp>) -> Seq<Message>
    decreases ops.len(),
{
    if ops.len() == 0 {
        Seq::empty()
    } else {
        match ops.last() {
            QueueOp::Enqueue(m) => enqueued_in(ops.drop_last()).push(m),
            QueueOp::Drain => enqueued_in(ops.drop_last()),
        }
    }
}

/// Whatever the order of appends and drains, no intent is lost and none
/// overtakes another: what was delivered, followed by what is still
/// pending, is what was appended, in the order of the appends.
pub proof fn lemma_queue_keeps_order(ops: Seq<QueueOp>)
    ensures
        delivered_after(ops) + pending_after(ops) == enqueued_in(ops),
    decreases ops.len(),
{
    if ops.len() == 0 {
        assert(Seq::<Message>::empty() + Seq::<Message>::empty() =~= Seq::<Message>::empty());
    } else {
        lemma_queue_keeps_order(ops.drop_last());
        let d = delivered_after(ops.drop_last());
        let p = pending_after(ops.drop_last());
        match ops.last() {
            QueueOp::Enqueue(m) => {
                assert(d + p.push(m) =~= (d + p).push(m));
            },
            QueueOp::Drain => {
                assert((d + p) + Seq::<Message>::empty() =~= d + p);
            },
        }
    }
}

} // verus!
