use vstd::prelude::*;
use vstd::slice::slice_index_get;
use crate::codec::encode_envelope_packets;
use crate::codec::ipc_views;
use crate::codec::spec_encode_envelope;
use crate::errors::Error;
use crate::packet::AsIpcPacket;
use crate::packet::IpcPacket;
use crate::packet::PacketView;

verus! {

/// The views of a sequence of packet-like values, read through the trait.
pub open spec fn as_packet_views<T: AsIpcPacket>(s: Seq<T>) -> Seq<PacketView> {
    s.map_values(|p: T| PacketView { ts: p.ts_spec(), data: p.data_spec() })
}

/// Frame a batch for the wire: exactly one data-bearing envelope holding
/// each packet's timestamp and payload, in order.
pub fn encode_batch<T: AsIpcPacket>(packets: &[T]) -> (r: Vec<u8>)
    ensures
        r@ == spec_encode_envelope(Some(as_packet_views(packets@))),
{
    let mut ipc: Vec<IpcPacket> = Vec::new();
    let mut i: usize = 0;
    while i < packets.len()
        invariant
            i <= packets@.len(),
            ipc@.len() == i,
            forall|j: int| 0 <= j < i ==> (#[trigger] ipc@[j])@ == as_packet_views(packets@)[j],
        decreases packets@.len() - i,
    {
        let p = slice_index_get(packets, i);
        let q = IpcPacket::from_packet(p);
        proof {
            assert(q@ == (PacketView {
                ts: packets@[i as int].ts_spec(),
                data: packets@[i as int].data_spec(),
            }));
            assert(q@ == as_packet_views(packets@)[i as int]);
        }
        ipc.push(q);
        i = i + 1;
    }
    proof {
        assert(ipc_views(ipc@) =~= as_packet_views(packets@));
    }
    encode_envelope_packets(ipc.as_slice())
}

/// The sending side's session state: open until the end-of-stream sentinel
/// goes out, closed afterwards. The half-close is explicit and final, so a
/// send or another close after it is a caller error, refused here with
/// `Closed` before anything touches the transport.
pub struct SendSession {
    pub closed: bool,
}

impl SendSession {
    /// A fresh session, still open.
    pub fn new() -> (s: SendSession)
        ensures
            !s.closed,
    {
        SendSession { closed: false }
    }

    /// Decide a data send: allowed exactly while the session is open.
    pub fn check_send(&self) -> (r: Result<(), Error>)
        ensures
            !self.closed ==> r == Ok::<(), Error>(()),
            self.closed ==> r == Err::<(), Error>(Error::Closed),
    {
        if self.closed {
            Err(Error::Closed)
        } else {
            Ok(())
        }
    }

    /// Decide and record the half-close: the first call succeeds and closes
    /// the session, every later one is refused.
    pub fn mark_close(&mut self) -> (r: Result<(), Error>)
        ensures
            old(self).closed ==> r == Err::<(), Error>(Error::Closed) && *final(self) == *old(
                self,
            ),
            !old(self).closed ==> r == Ok::<(), Error>(()) && final(self).closed,
    {
        if self.closed {
            Err(Error::Closed)
        } else {
            self.closed = true;
            Ok(())
        }
    }
}

} // verus!
