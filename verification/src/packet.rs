use vstd::prelude::*;
use vstd::slice::slice_to_vec;

verus! {

/// An instant in time, held as plain values: whole seconds since an epoch
/// together with a subsecond nanosecond count. Wall-clock readings are
/// converted to this form before they enter the library, so that the codec
/// and the contracts can speak about the timestamp exactly.
#[derive(Clone, Copy, Debug, PartialEq, Eq, Structural, Hash)]
pub struct Timestamp {
    pub secs: u64,
    pub nanos: u32,
}

impl Timestamp {
    pub fn new(secs: u64, nanos: u32) -> (t: Timestamp)
        ensures
            t.secs == secs,
            t.nanos == nanos,
    {
        Timestamp { secs, nanos }
    }
}

/// The mathematical value of a packet: its timestamp and its payload bytes.
pub struct PacketView {
    pub ts: Timestamp,
    pub data: Seq<u8>,
}

/// A packet as seen by whichever side currently owns it: a timestamp plus an
/// opaque byte payload. Immutable after construction.
#[derive(Debug, Clone, PartialEq)]
pub struct Packet {
    pub ts: Timestamp,
    pub data: Vec<u8>,
}

impl View for Packet {
    type V = PacketView;

    open spec fn view(&self) -> PacketView {
        PacketView { ts: self.ts, data: self.data@ }
    }
}

/// Anything that can be sent as a packet: it exposes a timestamp and a
/// borrowed byte payload. `Packet` implements it; callers may implement it
/// for their own packet-like types to send them without copying first.
pub trait AsIpcPacket {
    spec fn ts_spec(&self) -> Timestamp;

    spec fn data_spec(&self) -> Seq<u8>;

    fn timestamp(&self) -> (r: &Timestamp)
        ensures
            *r == self.ts_spec(),
    ;

    fn data(&self) -> (r: &[u8])
        ensures
            r@ == self.data_spec(),
    ;
}

impl Packet {
    pub fn new(ts: Timestamp, data: Vec<u8>) -> (p: Packet)
        ensures
            p@.ts == ts,
            p@.data == data@,
    {
        Packet { ts, data }
    }

    pub fn into_data(self) -> (d: Vec<u8>)
        ensures
            d@ == self@.data,
    {
        self.data
    }
}

impl AsIpcPacket for Packet {
    open spec fn ts_spec(&self) -> Timestamp {
        self.ts
    }

    open spec fn data_spec(&self) -> Seq<u8> {
        self.data@
    }

    fn timestamp(&self) -> (r: &Timestamp) {
        &self.ts
    }

    fn data(&self) -> (r: &[u8]) {
        self.data.as_slice()
    }
}

/// A borrowed form of a packet, used on the sending side so that a batch can
/// be framed for the wire without first copying every payload.
pub struct IpcPacket<'a> {
    pub timestamp: Timestamp,
    pub data: &'a [u8],
}

impl<'a> View for IpcPacket<'a> {
    type V = PacketView;

    open spec fn view(&self) -> PacketView {
        PacketView { ts: self.timestamp, data: self.data@ }
    }
}

impl<'a> IpcPacket<'a> {
    pub fn from_packet<T: AsIpcPacket>(v: &'a T) -> (r: IpcPacket<'a>)
        ensures
            r@.ts == v.ts_spec(),
            r@.data == v.data_spec(),
    {
        IpcPacket { timestamp: *v.timestamp(), data: v.data() }
    }

    pub fn into_packet(self) -> (p: Packet)
        ensures
            p@ == self@,
    {
        Packet { ts: self.timestamp, data: slice_to_vec(self.data) }
    }

    pub fn timestamp(&self) -> (r: &Timestamp)
        ensures
            *r == self@.ts,
    {
        &self.timestamp
    }

    pub fn data(&self) -> (r: &[u8])
        ensures
            r@ == self@.data,
    {
        self.data
    }
}

} // verus!
