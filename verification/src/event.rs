//! The event pipeline's transport: typed events from the producer threads
//! to the single consumer, delivered strictly in send order.
//!
//! `EventBus` is the verified model of that channel: one ordered queue that
//! any number of producers append to and exactly one consumer pops from the
//! front of. A ghost log of everything already delivered makes the ordering
//! guarantee a provable statement rather than a comment.

use vstd::prelude::*;
use crate::data_store::Snapshot;
use crate::input::{KeyInput, MouseInput};

verus! {

/// One event of the pipeline, with plain payloads.
pub enum BottomEvent {
    /// The terminal was resized; every cached layout is stale.
    Resize,
    KeyInput(KeyInput),
    MouseInput(MouseInput),
    PasteEvent(String),
    /// A fresh snapshot from the collection thread.
    Update(Box<Snapshot>),
    /// Time to evict stale history.
    Clean,
}

/// One send: which producer sent, and what.
pub struct QueuedEvent {
    pub source: u64,
    pub event: BottomEvent,
}

/// The multi-producer, single-consumer event channel: events wait in one
/// ordered queue and leave it in exactly the order they arrived.
pub struct EventBus {
    /// Sent but not yet received, in arrival order.
    pub queue: Vec<QueuedEvent>,
    /// Everything already received, in receive order.
    pub delivered: Ghost<Seq<QueuedEvent>>,
}

/// The events of `s` that producer `src` sent, in order.
pub open spec fn from_source(s: Seq<QueuedEvent>, src: u64) -> Seq<BottomEvent> {
    s.filter(|q: QueuedEvent| q.source == src).map_values(|q: QueuedEvent| q.event)
}

impl EventBus {
    /// Every event ever sent, in arrival order: first the delivered ones,
    /// then the ones still queued.
    pub open spec fn sent_history(self) -> Seq<QueuedEvent> {
        self.delivered@ + self.queue@
    }

    pub fn new() -> (b: Self)
        ensures
            b.queue@.len() == 0,
            b.delivered@.len() == 0,
    {
        EventBus { queue: Vec::new(), delivered: Ghost(Seq::empty()) }
    }

    /// A producer appends one event. Nothing already sent moves: the new
    /// event simply becomes the newest.
    pub fn send(&mut self, source: u64, event: BottomEvent)
        ensures
            final(self).queue@ == old(self).queue@.push(QueuedEvent { source, event }),
            final(self).delivered@ == old(self).delivered@,
            final(self).sent_history() == old(self).sent_history().push(
                QueuedEvent { source, event },
            ),
    {
        self.queue.push(QueuedEvent { source, event });
        proof {
            assert(self.sent_history() =~= old(self).sent_history().push(
                QueuedEvent { source, event },
            ));
        }
    }

    /// The consumer takes the oldest pending event, if any. What it
    /// receives is always the head of the pending queue, so receives
    /// happen in exactly the order of sends.
    pub fn recv(&mut self) -> (r: Option<QueuedEvent>)
        ensures
            old(self).queue@.len() == 0 ==> r is None && *final(self) == *old(self),
            old(self).queue@.len() > 0 ==> {
                &&& r == Some(old(self).queue@[0])
                &&& final(self).queue@ == old(self).queue@.skip(1)
                &&& final(self).delivered@ == old(self).delivered@.push(old(self).queue@[0])
            },
            final(self).sent_history() == old(self).sent_history(),
    {
        if self.queue.len() == 0 {
            None
        } else {
            let e = self.queue.remove(0);
            proof {
                self.delivered = Ghost(self.delivered@.push(e));
                assert(self.queue@ =~= old(self).queue@.skip(1));
                assert(self.sent_history() =~= old(self).sent_history());
            }
            Some(e)
        }
    }
}

/// Event ordering: however sends from different producers interleave, the
/// consumer observes them in a total order consistent with each producer's
/// own send order — what any one producer has had delivered so far,
/// followed by what it still has queued, is exactly what it sent, in
/// order.
pub proof fn lemma_event_ordering(b: EventBus, src: u64)
    ensures
        from_source(b.delivered@, src) + from_source(b.queue@, src) == from_source(
            b.sent_history(),
            src,
        ),
{
    let pred = |q: QueuedEvent| q.source == src;
    Seq::filter_distributes_over_add(b.delivered@, b.queue@, pred);
    assert((b.delivered@.filter(pred) + b.queue@.filter(pred)).map_values(
        |q: QueuedEvent| q.event,
    ) =~= from_source(b.delivered@, src) + from_source(b.queue@, src));
}

} // verus!
