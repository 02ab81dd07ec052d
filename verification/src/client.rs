use vstd::prelude::*;
use vstd::math::min;
use crate::codec::decode_envelope;
use crate::codec::spec_decode_envelope;
use crate::codec::views_of;
use crate::errors::Error;
use crate::packet::Packet;
use crate::packet::PacketView;

verus! {

/// The consuming half of a crossbeam channel, declared so that it can stand
/// in fields and signatures. Opaque: its queued contents belong to the
/// running threads, not to any one value of it.
#[verifier::external_type_specification]
#[verifier::external_body]
#[verifier::reject_recursive_types(T)]
pub struct ExReceiver<T>(crossbeam_channel::Receiver<T>);

/// The feeding half of a crossbeam channel, declared so that it can stand
/// in signatures. Opaque, like the receiver.
#[verifier::external_type_specification]
#[verifier::external_body]
#[verifier::reject_recursive_types(T)]
pub struct ExSender<T>(crossbeam_channel::Sender<T>);

/// crossbeam's receive failure: the queue is empty and every feeding
/// handle is gone. Carries nothing.
#[verifier::external_type_specification]
#[verifier::external_body]
pub struct ExRecvError(crossbeam_channel::RecvError);

/// Relies on crossbeam_channel::Receiver::recv: it blocks until the feeding
/// side hands over the next queued value, in queue order, and fails exactly
/// when the queue is empty and every feeding handle is gone. Which value
/// comes out depends on the feeding thread, so nothing is stated about the
/// result; callers must hold for every outcome.
#[verifier::external_body]
fn queue_recv(rx: &crossbeam_channel::Receiver<Option<Vec<Packet>>>) -> Result<
    Option<Vec<Packet>>,
    crossbeam_channel::RecvError,
> {
    rx.recv()
}

/// Relies on crossbeam_channel::Sender::send: it appends the given value to
/// the queue consumed by the paired receiver, and fails exactly when that
/// receiver is gone. Whether the consumer is still there depends on the
/// other thread, so nothing is stated about the result.
#[verifier::external_body]
fn queue_send(tx: &crossbeam_channel::Sender<Option<Vec<Packet>>>, env: Option<Vec<Packet>>) -> (ok:
    bool) {
    tx.send(env).is_ok()
}

/// What the background receiver observed on one inbound channel: a raw
/// message, or the closing of the channel by its remote end.
pub enum ChannelEvent {
    Message(Vec<u8>),
    Disconnected,
}

/// Handle one event seen by the background receiver: decode a message and
/// forward its batch to the queue, or forward the end-of-stream marker. The
/// result says whether the stream is finished and the receiver must stop.
///
/// A message that decodes to a batch is forwarded as a data item and the
/// stream stays open unless the queue's consumer is gone. The end-of-stream
/// envelope, a message whose framing is violated, and a closed channel all
/// end the stream: the terminal marker is forwarded and the result is true.
pub fn process_event(
    tx: &crossbeam_channel::Sender<Option<Vec<Packet>>>,
    event: ChannelEvent,
) -> (closed: bool)
    ensures
        !closed ==> (event matches ChannelEvent::Message(bytes) && (spec_decode_envelope(bytes@)
            matches Some(e) && e is Some)),
{
    match event {
        ChannelEvent::Message(bytes) => {
            match decode_envelope(bytes.as_slice()) {
                Ok(Some(batch)) => !queue_send(tx, Some(batch)),
                Ok(None) => {
                    let _ = queue_send(tx, None);
                    true
                },
                Err(_) => {
                    let _ = queue_send(tx, None);
                    true
                },
            }
        },
        ChannelEvent::Disconnected => {
            let _ = queue_send(tx, None);
            true
        },
    }
}

/// The consumer-facing end of a connection: an ordered buffer of packets
/// already taken off the queue, a flag that records whether end-of-stream
/// has been observed, and the queue itself, fed by the background receiver.
///
/// The ghost fields record the packets that have ever been dequeued and the
/// packets already handed to the caller; `wf` ties them to the buffer, so
/// that delivery conserves the stream: nothing is duplicated, nothing is
/// dropped, order is kept.
pub struct Client {
    pub receiver: crossbeam_channel::Receiver<Option<Vec<Packet>>>,
    pub available: Vec<Packet>,
    pub is_closed: bool,
    pub received: Ghost<Seq<PacketView>>,
    pub delivered: Ghost<Seq<PacketView>>,
}

impl Client {
    /// The views of the packets buffered and not yet handed out.
    pub open spec fn buffered(self) -> Seq<PacketView> {
        views_of(self.available@)
    }

    /// Conservation: what was dequeued is exactly what was handed out
    /// followed by what is still buffered, in order.
    pub open spec fn wf(self) -> bool {
        self.delivered@ + self.buffered() == self.received@
    }

    /// Wrap a queue: a fresh client with an empty buffer and the stream
    /// open. The queue's feeding side belongs to the background receiver.
    pub fn from_receiver(receiver: crossbeam_channel::Receiver<Option<Vec<Packet>>>) -> (c: Client)
        ensures
            c.wf(),
            !c.is_closed,
            c.available@.len() == 0,
            c.delivered@ == Seq::<PacketView>::empty(),
            c.received@ == Seq::<PacketView>::empty(),
    {
        let c = Client {
            receiver,
            available: Vec::new(),
            is_closed: false,
            received: Ghost(Seq::empty()),
            delivered: Ghost(Seq::empty()),
        };
        proof {
            assert(c.buffered() =~= Seq::<PacketView>::empty());
        }
        c
    }

    /// Hand out up to `size` packets from the front of the buffer, keeping
    /// the remainder, in order, for a later call. Never blocks.
    pub fn take(&mut self, size: usize) -> (r: Vec<Packet>)
        requires
            old(self).wf(),
        ensures
            final(self).wf(),
            r@ == old(self).available@.take(min(size as int, old(self).available@.len() as int)),
            final(self).available@ == old(self).available@.skip(
                min(size as int, old(self).available@.len() as int),
            ),
            final(self).is_closed == old(self).is_closed,
            final(self).receiver == old(self).receiver,
            final(self).received == old(self).received,
            final(self).delivered@ == old(self).delivered@ + views_of(r@),
    {
        let k = if size < self.available.len() {
            size
        } else {
            self.available.len()
        };
        let mut rest = self.available.split_off(k);
        core::mem::swap(&mut self.available, &mut rest);
        let r = rest;
        self.delivered = Ghost(self.delivered@ + views_of(r@));
        proof {
            assert(r@ =~= old(self).available@.take(
                min(size as int, old(self).available@.len() as int),
            ));
            assert(self.available@ =~= old(self).available@.skip(
                min(size as int, old(self).available@.len() as int),
            ));
            assert(views_of(r@) + views_of(self.available@) =~= views_of(old(self).available@));
            assert((old(self).delivered@ + views_of(r@)) + views_of(self.available@)
                =~= old(self).delivered@ + (views_of(r@) + views_of(self.available@)));
            assert(self.wf());
        }
        r
    }

    /// Satisfy a window request: up to `size` packets, in stream order.
    ///
    /// If the buffer already holds `size` packets, the first `size` are
    /// returned at once. Otherwise the call blocks on the queue, appending
    /// each arriving batch to the buffer, until `size` packets are buffered
    /// or end-of-stream arrives; an empty arriving batch also ends the wait.
    /// Once end-of-stream has been observed, nothing blocks again: the
    /// remaining buffered packets are handed out, short final answer
    /// included, and after the buffer is drained every further call returns
    /// `Ok(None)`. A queue failure without a prior end-of-stream marker is a
    /// transport error and consumes nothing.
    pub fn recv(&mut self, size: usize) -> (r: Result<Option<Vec<Packet>>, Error>)
        requires
            old(self).wf(),
        ensures
            final(self).wf(),
            final(self).receiver == old(self).receiver,
            old(self).received@.is_prefix_of(final(self).received@),
            old(self).is_closed ==> final(self).is_closed && final(self).received == old(self).received,
            (old(self).is_closed && old(self).available@.len() == 0) ==> r == Ok::<Option<Vec<Packet>>, Error>(None) && *final(self) == *old(self),
            (old(self).is_closed && old(self).available@.len() > 0) ==> (r matches Ok(ov) && ov matches Some(v) && v@ == old(self).available@.take(min(size as int, old(self).available@.len() as int)) && final(self).available@ == old(self).available@.skip(min(size as int, old(self).available@.len() as int))),
            (!old(self).is_closed && old(self).available@.len() >= size) ==> (r matches Ok(ov) && ov matches Some(v) && v@ == old(self).available@.take(size as int) && final(self).available@ == old(self).available@.skip(size as int) && final(self).is_closed == old(self).is_closed && final(self).received == old(self).received),
            r matches Ok(ov) ==> ov matches Some(v) ==> v@.len() <= size && final(self).delivered@ == old(self).delivered@ + views_of(v@),
            r matches Ok(ov) ==> ov matches Some(v) ==> v@.len() < size ==> final(self).available@.len() == 0,
            r matches Ok(ov) ==> ov is None ==> final(self).is_closed && final(self).available@.len() == 0 && old(self).available@.len() == 0 && final(self).delivered == old(self).delivered && final(self).received == old(self).received,
            r matches Err(e) ==> e == Error::Transport && !old(self).is_closed && !final(self).is_closed && final(self).delivered == old(self).delivered,
    {
        if self.is_closed {
            if self.available.len() == 0 {
                return Ok(None);
            }
            let v = self.take(size);
            return Ok(Some(v));
        }
        while !self.is_closed && self.available.len() < size
            invariant
                self.wf(),
                self.receiver == old(self).receiver,
                self.delivered == old(self).delivered,
                !old(self).is_closed,
                old(self).received@.is_prefix_of(self.received@),
                old(self).available@.is_prefix_of(self.available@),
                old(self).available@.len() >= size ==> *self == *old(self),
            ensures
                self.wf(),
                self.receiver == old(self).receiver,
                self.delivered == old(self).delivered,
                !old(self).is_closed,
                old(self).received@.is_prefix_of(self.received@),
                old(self).available@.is_prefix_of(self.available@),
                old(self).available@.len() >= size ==> *self == *old(self),
            decreases (if self.is_closed {
                0int
            } else {
                1int
            }), (if self.available@.len() < size {
                size - self.available@.len()
            } else {
                0int
            }),
        {
            proof {
                assert(old(self).available@.len() < size);
            }
            match queue_recv(&self.receiver) {
                Err(_) => {
                    return Err(Error::Transport);
                },
                Ok(Some(batch)) => {
                    let is_empty = batch.len() == 0;
                    let ghost bv = views_of(batch@);
                    let ghost avail_pre = self.available@;
                    self.received = Ghost(self.received@ + bv);
                    let mut b = batch;
                    self.available.append(&mut b);
                    proof {
                        assert(views_of(self.available@) =~= views_of(avail_pre) + bv);
                        assert((self.delivered@ + views_of(avail_pre)) + bv =~= self.delivered@ + (
                        views_of(avail_pre) + bv));
                        assert(old(self).received@ =~= self.received@.subrange(
                            0,
                            old(self).received@.len() as int,
                        ));
                        assert(old(self).available@ =~= self.available@.subrange(
                            0,
                            old(self).available@.len() as int,
                        ));
                    }
                    if is_empty {
                        break;
                    }
                },
                Ok(None) => {
                    self.is_closed = true;
                },
            }
        }
        if self.is_closed {
            if self.available.len() == 0 {
                proof {
                    assert(views_of(self.available@) =~= Seq::<PacketView>::empty());
                    assert(views_of(old(self).available@) =~= Seq::<PacketView>::empty());
                    assert(self.delivered@ + views_of(self.available@) =~= self.delivered@);
                    assert(old(self).delivered@ + views_of(old(self).available@) =~= old(
                        self,
                    ).delivered@);
                }
                return Ok(None);
            }
        }
        let v = self.take(size);
        Ok(Some(v))
    }
}

/// Windowing conservation: in every well-formed client state, the packets
/// already handed to the caller, followed by the packets still buffered, are
/// exactly the packets dequeued from the channel so far, in order. Together
/// with the contracts of `recv` and `take`, which preserve well-formedness
/// and grow `delivered` by exactly what they return, this says that repeated
/// window requests of any sizes hand out the concatenation of the batches
/// received before close, with nothing lost, duplicated or reordered.
pub proof fn lemma_windowing_conservation(c: Client)
    requires
        c.wf(),
    ensures
        c.delivered@ + c.buffered() == c.received@,
        c.delivered@.is_prefix_of(c.received@),
{
    assert(c.delivered@ =~= c.received@.subrange(0, c.delivered@.len() as int));
}

} // verus!

