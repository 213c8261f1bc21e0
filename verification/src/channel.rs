//! A bounded single-producer/single-consumer FIFO channel with
//! suspend-on-full and suspend-on-empty backpressure.
//!
//! Suspension is cooperative: an operation that cannot proceed does not
//! block, it reports `Suspended` and parks either the offered item (a full
//! queue parks the producer's item until a slot frees) or the consumer's
//! interest (an empty queue parks the consumer until an item arrives). The
//! counterpart operation reports when the parked side must be woken. The
//! whole history of the channel is carried in ghost state, so the contracts
//! pin FIFO delivery: every receive hands out exactly the oldest item not
//! yet delivered, in send order, with no reordering and no drops.

use vstd::prelude::*;

verus! {

/// What a send did: the item was enqueued (and the parked consumer, if
/// any, must be woken), or the queue was full and the producer suspends
/// with its item parked.
#[derive(Debug, PartialEq, Eq, Clone, Copy, Structural)]
pub enum SendOutcome {
    Sent { wake_consumer: bool },
    Suspended,
}

/// What a receive did: the oldest item was dequeued (and the parked
/// producer, if any, must be woken), or the queue was empty and the
/// consumer suspends.
#[derive(Debug)]
pub enum RecvOutcome<T> {
    Received { item: T, wake_producer: bool },
    Suspended,
}

/// A fixed-capacity FIFO passing items from one producer task to one
/// consumer task.
pub struct Channel<T> {
    buf: Vec<T>,
    cap: usize,
    pending: Vec<T>,
    consumer_waiting: bool,
    sent: Ghost<Seq<T>>,
    received: Ghost<Seq<T>>,
}

impl<T> Channel<T> {
    /// The fixed capacity.
    pub closed spec fn cap(self) -> nat {
        self.cap as nat
    }

    /// The queued items, oldest first.
    pub closed spec fn queue(self) -> Seq<T> {
        self.buf@
    }

    /// The item of a suspended send, if any (at most one: single producer).
    pub closed spec fn pending(self) -> Seq<T> {
        self.pending@
    }

    /// Whether the consumer is suspended waiting for an item.
    pub closed spec fn consumer_waiting(self) -> bool {
        self.consumer_waiting
    }

    /// Every item ever offered to `send`, in order.
    pub closed spec fn sent(self) -> Seq<T> {
        self.sent@
    }

    /// Every item ever handed out by `recv`, in order.
    pub closed spec fn received(self) -> Seq<T> {
        self.received@
    }

    /// The channel invariant: capacity is at least one; the queue never
    /// exceeds it; a send suspends only on a full queue and the consumer
    /// only on an empty one; and the send history is exactly the receive
    /// history followed by what is still in flight.
    pub open spec fn wf(self) -> bool {
        &&& self.cap() >= 1
        &&& self.queue().len() <= self.cap()
        &&& self.pending().len() <= 1
        &&& (self.pending().len() == 1 ==> self.queue().len() == self.cap())
        &&& (self.consumer_waiting() ==> self.queue().len() == 0 && self.pending().len() == 0)
        &&& self.sent() == self.received() + self.queue() + self.pending()
    }

    /// An empty channel of capacity `cap`.
    pub fn new(cap: usize) -> (c: Channel<T>)
        requires
            cap >= 1,
        ensures
            c.wf(),
            c.cap() == cap,
            c.queue() == Seq::<T>::empty(),
            c.pending() == Seq::<T>::empty(),
            !c.consumer_waiting(),
            c.sent() == Seq::<T>::empty(),
            c.received() == Seq::<T>::empty(),
    {
        let c = Channel {
            buf: Vec::new(),
            cap,
            pending: Vec::new(),
            consumer_waiting: false,
            sent: Ghost(Seq::empty()),
            received: Ghost(Seq::empty()),
        };
        proof {
            assert(c.sent() =~= c.received() + c.queue() + c.pending());
        }
        c
    }

    /// Offers `item`: enqueued in send order while a slot is free, else the
    /// producer suspends with the item parked until a receive frees a slot.
    pub fn send(&mut self, item: T) -> (r: SendOutcome)
        requires
            old(self).wf(),
            old(self).pending().len() == 0,
        ensures
            final(self).wf(),
            final(self).cap() == old(self).cap(),
            final(self).sent() == old(self).sent().push(item),
            final(self).received() == old(self).received(),
            if old(self).queue().len() < old(self).cap() {
                &&& r == (SendOutcome::Sent { wake_consumer: old(self).consumer_waiting() })
                &&& final(self).queue() == old(self).queue().push(item)
                &&& final(self).pending().len() == 0
                &&& !final(self).consumer_waiting()
            } else {
                &&& r == SendOutcome::Suspended
                &&& final(self).queue() == old(self).queue()
                &&& final(self).pending() == seq![item]
                &&& !final(self).consumer_waiting()
            },
    {
        proof {
            assert(self.sent@ =~= self.received@ + self.buf@);
        }
        self.sent = Ghost(self.sent@.push(item));
        if self.buf.len() < self.cap {
            self.buf.push(item);
            let wake = self.consumer_waiting;
            self.consumer_waiting = false;
            proof {
                assert(self.sent@ =~= self.received@ + self.buf@ + self.pending@);
            }
            SendOutcome::Sent { wake_consumer: wake }
        } else {
            self.pending.push(item);
            proof {
                assert(self.sent@ =~= self.received@ + self.buf@ + self.pending@);
            }
            SendOutcome::Suspended
        }
    }

    /// Takes the oldest item: while the queue is non-empty it hands out
    /// exactly the next undelivered item of the send history, and moves a
    /// parked item in behind it (waking the producer); on an empty queue
    /// the consumer suspends.
    pub fn recv(&mut self) -> (r: RecvOutcome<T>)
        requires
            old(self).wf(),
            !old(self).consumer_waiting(),
        ensures
            final(self).wf(),
            final(self).cap() == old(self).cap(),
            final(self).sent() == old(self).sent(),
            if old(self).queue().len() > 0 {
                &&& (r matches RecvOutcome::Received { item, wake_producer } && item == old(
                    self,
                ).queue()[0] && item == old(self).sent()[old(self).received().len() as int]
                    && wake_producer == (old(self).pending().len() == 1))
                &&& final(self).received() == old(self).received().push(old(self).queue()[0])
                &&& final(self).queue() == old(self).queue().skip(1) + old(self).pending()
                &&& final(self).pending().len() == 0
                &&& !final(self).consumer_waiting()
            } else {
                &&& (r matches RecvOutcome::Suspended)
                &&& final(self).received() == old(self).received()
                &&& final(self).queue() == old(self).queue()
                &&& final(self).pending() == old(self).pending()
                &&& final(self).consumer_waiting()
            },
    {
        if self.buf.len() > 0 {
            let item = self.buf.remove(0);
            proof {
                assert(old(self).sent()[old(self).received().len() as int] == item);
            }
            self.received = Ghost(self.received@.push(item));
            let wake = match self.pending.pop() {
                Some(p) => {
                    self.buf.push(p);
                    true
                },
                None => false,
            };
            proof {
                assert(self.buf@ =~= old(self).queue().skip(1) + old(self).pending());
                assert(self.sent@ =~= self.received@ + self.buf@ + self.pending@);
            }
            RecvOutcome::Received { item, wake_producer: wake }
        } else {
            self.consumer_waiting = true;
            RecvOutcome::Suspended
        }
    }
}

/// FIFO delivery: in a well-formed channel the receive history is a prefix
/// of the send history, and what is still in flight — queued items, then a
/// parked send — is exactly the rest of the send history, in send order.
pub proof fn lemma_channel_fifo<T>(c: Channel<T>)
    requires
        c.wf(),
    ensures
        c.received() == c.sent().take(c.received().len() as int),
        c.queue() + c.pending() == c.sent().skip(c.received().len() as int),
{
    assert(c.received() =~= c.sent().take(c.received().len() as int));
    assert(c.queue() + c.pending() =~= c.sent().skip(c.received().len() as int));
}

} // verus!
