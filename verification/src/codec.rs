use vstd::prelude::*;
use vstd::bytes::spec_u32_to_le_bytes;
use vstd::bytes::spec_u32_from_le_bytes;
use vstd::bytes::spec_u64_to_le_bytes;
use vstd::bytes::spec_u64_from_le_bytes;
use vstd::bytes::lemma_auto_spec_u32_to_from_le_bytes;
use vstd::bytes::lemma_auto_spec_u64_to_from_le_bytes;
use vstd::bytes::u32_from_le_bytes;
use vstd::bytes::u32_to_le_bytes;
use vstd::bytes::u64_from_le_bytes;
use vstd::bytes::u64_to_le_bytes;
use vstd::slice::slice_index_get;
use vstd::slice::slice_subrange;
use vstd::slice::slice_to_vec;
use crate::errors::Error;
use crate::packet::IpcPacket;
use crate::packet::Packet;
use crate::packet::PacketView;
use crate::packet::Timestamp;

verus! {

// The wire layout of an envelope. An envelope is an optional-tag byte
// followed, when the tag says a batch is present, by a length-prefixed
// sequence of packet records. A packet record is the timestamp (seconds and
// nanoseconds, little endian) followed by a length-prefixed payload. All
// lengths are unsigned 64-bit little-endian values.

/// The views of a sequence of owned packets.
pub open spec fn views_of(s: Seq<Packet>) -> Seq<PacketView> {
    s.map_values(|p: Packet| p@)
}

/// The views of a sequence of borrowed packets.
pub open spec fn ipc_views<'a>(s: Seq<IpcPacket<'a>>) -> Seq<PacketView> {
    s.map_values(|p: IpcPacket<'a>| p@)
}

/// The view of a decoded envelope.
pub open spec fn env_view(d: Option<Vec<Packet>>) -> Option<Seq<PacketView>> {
    match d {
        Option::Some(v) => Option::Some(views_of(v@)),
        Option::None => Option::None,
    }
}

/// A packet whose payload length fits in the wire's 64-bit length field.
/// Every packet held in a `Vec` satisfies this.
pub open spec fn packet_len_ok(p: PacketView) -> bool {
    p.data.len() <= u64::MAX
}

/// A batch whose packet count and payload lengths fit the wire's 64-bit
/// length fields. Every batch held in a `Vec` satisfies this.
pub open spec fn batch_len_ok(ps: Seq<PacketView>) -> bool {
    &&& ps.len() <= u64::MAX
    &&& forall|i: int| 0 <= i < ps.len() ==> packet_len_ok(#[trigger] ps[i])
}

/// An envelope whose batch, if any, satisfies `batch_len_ok`.
pub open spec fn envelope_len_ok(e: Option<Seq<PacketView>>) -> bool {
    match e {
        Option::Some(ps) => batch_len_ok(ps),
        Option::None => true,
    }
}

/// The encoding of one packet record.
pub open spec fn spec_encode_packet(p: PacketView) -> Seq<u8> {
    spec_u64_to_le_bytes(p.ts.secs) + spec_u32_to_le_bytes(p.ts.nanos) + spec_u64_to_le_bytes(
        p.data.len() as u64,
    ) + p.data
}

/// The concatenated encodings of a sequence of packet records.
pub open spec fn spec_encode_packet_seq(ps: Seq<PacketView>) -> Seq<u8>
    decreases ps.len(),
{
    if ps.len() == 0 {
        Seq::empty()
    } else {
        spec_encode_packet(ps[0]) + spec_encode_packet_seq(ps.skip(1))
    }
}

/// The encoding of a batch: its packet count, then its packet records.
pub open spec fn spec_encode_packets(ps: Seq<PacketView>) -> Seq<u8> {
    spec_u64_to_le_bytes(ps.len() as u64) + spec_encode_packet_seq(ps)
}

/// The encoding of an envelope: a tag byte, then the batch when one is
/// present. The tagless single zero byte is the end-of-stream sentinel.
pub open spec fn spec_encode_envelope(e: Option<Seq<PacketView>>) -> Seq<u8> {
    match e {
        Option::None => seq![0u8],
        Option::Some(ps) => seq![1u8] + spec_encode_packets(ps),
    }
}

/// Parse one packet record from the front of `b`; on success, the packet and
/// the remaining bytes.
pub open spec fn spec_parse_packet(b: Seq<u8>) -> Option<(PacketView, Seq<u8>)> {
    if b.len() < 20 {
        Option::None
    } else {
        let secs = spec_u64_from_le_bytes(b.subrange(0, 8));
        let nanos = spec_u32_from_le_bytes(b.subrange(8, 12));
        let dlen = spec_u64_from_le_bytes(b.subrange(12, 20));
        if b.len() < 20 + dlen {
            Option::None
        } else {
            Option::Some(
                (
                    PacketView {
                        ts: Timestamp { secs, nanos },
                        data: b.subrange(20, 20 + dlen as int),
                    },
                    b.skip(20 + dlen as int),
                ),
            )
        }
    }
}

/// Parse exactly `n` packet records from the front of `b`.
pub open spec fn spec_parse_packet_seq(b: Seq<u8>, n: nat) -> Option<(Seq<PacketView>, Seq<u8>)>
    decreases n,
{
    if n == 0 {
        Option::Some((Seq::empty(), b))
    } else {
        match spec_parse_packet(b) {
            Option::None => Option::None,
            Option::Some((p, rest)) => match spec_parse_packet_seq(rest, (n - 1) as nat) {
                Option::None => Option::None,
                Option::Some((ps, rest2)) => Option::Some((seq![p] + ps, rest2)),
            },
        }
    }
}

/// Decode a whole batch: a count followed by exactly that many packet
/// records, consuming all of `b`.
pub open spec fn spec_decode_packets(b: Seq<u8>) -> Option<Seq<PacketView>> {
    if b.len() < 8 {
        Option::None
    } else {
        let n = spec_u64_from_le_bytes(b.subrange(0, 8));
        match spec_parse_packet_seq(b.skip(8), n as nat) {
            Option::None => Option::None,
            Option::Some((ps, rest)) => if rest.len() == 0 {
                Option::Some(ps)
            } else {
                Option::None
            },
        }
    }
}

/// Decode a whole envelope, consuming all of `b`.
pub open spec fn spec_decode_envelope(b: Seq<u8>) -> Option<Option<Seq<PacketView>>> {
    if b.len() == 0 {
        Option::None
    } else if b[0] == 0u8 {
        if b.len() == 1 {
            Option::Some(Option::None)
        } else {
            Option::None
        }
    } else if b[0] == 1u8 {
        match spec_decode_packets(b.skip(1)) {
            Option::None => Option::None,
            Option::Some(ps) => Option::Some(Option::Some(ps)),
        }
    } else {
        Option::None
    }
}

/// Appending one packet to a batch appends its record to the encoding.
proof fn lemma_encode_packet_seq_push(ps: Seq<PacketView>, p: PacketView)
    ensures
        spec_encode_packet_seq(ps.push(p)) == spec_encode_packet_seq(ps) + spec_encode_packet(p),
    decreases ps.len(),
{
    if ps.len() == 0 {
        assert(ps.push(p)[0] == p);
        assert(ps.push(p).skip(1) =~= Seq::<PacketView>::empty());
        assert(spec_encode_packet_seq(Seq::<PacketView>::empty()) =~= Seq::<u8>::empty());
        assert(spec_encode_packet_seq(ps.push(p)) =~= spec_encode_packet_seq(ps)
            + spec_encode_packet(p));
    } else {
        assert(ps.push(p).skip(1) =~= ps.skip(1).push(p));
        lemma_encode_packet_seq_push(ps.skip(1), p);
        assert(ps.push(p)[0] == ps[0]);
        assert(spec_encode_packet_seq(ps.push(p)) =~= spec_encode_packet_seq(ps)
            + spec_encode_packet(p));
    }
}

/// Parsing the encoding of one packet yields that packet and the trailing
/// bytes untouched.
proof fn lemma_parse_packet_encode(p: PacketView, rest: Seq<u8>)
    requires
        packet_len_ok(p),
    ensures
        spec_parse_packet(spec_encode_packet(p) + rest) == Option::Some((p, rest)),
{
    lemma_auto_spec_u64_to_from_le_bytes();
    lemma_auto_spec_u32_to_from_le_bytes();
    let b = spec_encode_packet(p) + rest;
    let dl = p.data.len() as int;
    assert(b.len() == 20 + dl + rest.len());
    assert(b.subrange(0, 8) =~= spec_u64_to_le_bytes(p.ts.secs));
    assert(b.subrange(8, 12) =~= spec_u32_to_le_bytes(p.ts.nanos));
    assert(b.subrange(12, 20) =~= spec_u64_to_le_bytes(p.data.len() as u64));
    assert(b.subrange(20, 20 + dl) =~= p.data);
    assert(b.skip(20 + dl) =~= rest);
}

/// Parsing the concatenated encodings of `ps.len()` packets yields `ps` and
/// the trailing bytes untouched.
proof fn lemma_parse_packet_seq_encode(ps: Seq<PacketView>, rest: Seq<u8>)
    requires
        forall|i: int| 0 <= i < ps.len() ==> packet_len_ok(#[trigger] ps[i]),
    ensures
        spec_parse_packet_seq(spec_encode_packet_seq(ps) + rest, ps.len() as nat) == Option::Some(
            (ps, rest),
        ),
    decreases ps.len(),
{
    if ps.len() == 0 {
        assert(spec_encode_packet_seq(ps) + rest =~= rest);
    } else {
        let tail = ps.skip(1);
        assert(spec_encode_packet_seq(ps) + rest =~= spec_encode_packet(ps[0]) + (
        spec_encode_packet_seq(tail) + rest));
        lemma_parse_packet_encode(ps[0], spec_encode_packet_seq(tail) + rest);
        lemma_parse_packet_seq_encode(tail, rest);
        assert(seq![ps[0]] + tail =~= ps);
    }
}

/// Decoding the encoding of a batch yields the batch.
pub proof fn lemma_packets_round_trip(ps: Seq<PacketView>)
    requires
        batch_len_ok(ps),
    ensures
        spec_decode_packets(spec_encode_packets(ps)) == Option::Some(ps),
{
    lemma_auto_spec_u64_to_from_le_bytes();
    let b = spec_encode_packets(ps);
    assert(b.subrange(0, 8) =~= spec_u64_to_le_bytes(ps.len() as u64));
    assert(b.skip(8) =~= spec_encode_packet_seq(ps) + Seq::<u8>::empty());
    lemma_parse_packet_seq_encode(ps, Seq::<u8>::empty());
}

/// Round-trip: decoding the encoding of any envelope yields exactly that
/// envelope, timestamps and payload bytes included.
pub proof fn lemma_envelope_round_trip(e: Option<Seq<PacketView>>)
    requires
        envelope_len_ok(e),
    ensures
        spec_decode_envelope(spec_encode_envelope(e)) == Option::Some(e),
{
    match e {
        Option::None => {
            assert(spec_encode_envelope(e).len() == 1);
        },
        Option::Some(ps) => {
            let b = spec_encode_envelope(e);
            assert(b[0] == 1u8);
            assert(b.skip(1) =~= spec_encode_packets(ps));
            lemma_packets_round_trip(ps);
            assert(b.len() >= 9);
        },
    }
}

/// Round-trip for a single packet: a batch of one decodes to exactly that
/// packet, same timestamp, same payload bytes.
pub proof fn lemma_packet_round_trip(p: PacketView)
    requires
        packet_len_ok(p),
    ensures
        spec_decode_packets(spec_encode_packets(seq![p])) == Option::Some(seq![p]),
{
    lemma_packets_round_trip(seq![p]);
}

/// Append the little-endian bytes of `x` to `out`.
fn push_u64_le(out: &mut Vec<u8>, x: u64)
    ensures
        final(out)@ == old(out)@ + spec_u64_to_le_bytes(x),
{
    let mut b = u64_to_le_bytes(x);
    out.append(&mut b);
}

/// Append the little-endian bytes of `x` to `out`.
fn push_u32_le(out: &mut Vec<u8>, x: u32)
    ensures
        final(out)@ == old(out)@ + spec_u32_to_le_bytes(x),
{
    let mut b = u32_to_le_bytes(x);
    out.append(&mut b);
}

/// Encode a batch of borrowed packets: the packet count, then each record.
pub fn encode_packets(packets: &[IpcPacket]) -> (r: Vec<u8>)
    ensures
        r@ == spec_encode_packets(ipc_views(packets@)),
{
    let ghost vs = ipc_views(packets@);
    let mut out: Vec<u8> = Vec::new();
    let n = packets.len();
    push_u64_le(&mut out, n as u64);
    assert(vs.len() == packets@.len());
    let mut i: usize = 0;
    while i < n
        invariant
            n == packets@.len(),
            vs == ipc_views(packets@),
            vs.len() == n,
            i <= n,
            out@ == spec_u64_to_le_bytes(vs.len() as u64) + spec_encode_packet_seq(
                vs.take(i as int),
            ),
        decreases n - i,
    {
        let p = slice_index_get(packets, i);
        push_u64_le(&mut out, p.timestamp.secs);
        push_u32_le(&mut out, p.timestamp.nanos);
        push_u64_le(&mut out, p.data.len() as u64);
        let mut d = slice_to_vec(p.data);
        out.append(&mut d);
        proof {
            assert(vs[i as int] == packets@[i as int]@);
            assert(vs.take(i + 1) =~= vs.take(i as int).push(vs[i as int]));
            lemma_encode_packet_seq_push(vs.take(i as int), vs[i as int]);
            assert(out@ =~= spec_u64_to_le_bytes(vs.len() as u64) + spec_encode_packet_seq(
                vs.take(i + 1),
            ));
        }
        i = i + 1;
    }
    proof {
        assert(vs.take(n as int) =~= vs);
    }
    out
}

/// Encode a data-bearing envelope holding the given batch.
pub fn encode_envelope_packets(packets: &[IpcPacket]) -> (r: Vec<u8>)
    ensures
        r@ == spec_encode_envelope(Option::Some(ipc_views(packets@))),
{
    let mut out: Vec<u8> = Vec::new();
    out.push(1u8);
    let mut body = encode_packets(packets);
    out.append(&mut body);
    proof {
        assert(out@ =~= spec_encode_envelope(Option::Some(ipc_views(packets@))));
    }
    out
}

/// Encode the end-of-stream sentinel envelope.
pub fn encode_close() -> (r: Vec<u8>)
    ensures
        r@ == spec_encode_envelope(Option::None),
{
    let mut out: Vec<u8> = Vec::new();
    out.push(0u8);
    proof {
        assert(out@ =~= spec_encode_envelope(Option::None));
    }
    out
}

/// Decode a batch of packets. Fails with `Protocol` exactly on the byte
/// strings that do not frame a batch.
pub fn decode_packets(bytes: &[u8]) -> (r: Result<Vec<Packet>, Error>)
    ensures
        match spec_decode_packets(bytes@) {
            Option::Some(ps) => r matches Ok(v) && views_of(v@) == ps,
            Option::None => r == Err::<Vec<Packet>, Error>(Error::Protocol),
        },
{
    if bytes.len() < 8 {
        return Err(Error::Protocol);
    }
    let n = u64_from_le_bytes(slice_subrange(bytes, 0, 8));
    let mut out: Vec<Packet> = Vec::new();
    let mut idx: usize = 8;
    let mut k: u64 = 0;
    proof {
        match spec_parse_packet_seq(bytes@.skip(8), n as nat) {
            Option::Some(pr) => {
                assert(views_of(out@) + pr.0 =~= pr.0);
            },
            Option::None => {},
        }
    }
    while k < n
        invariant
            8 <= idx <= bytes@.len(),
            k <= n,
            views_of(out@).len() == k,
            n == spec_u64_from_le_bytes(bytes@.subrange(0, 8)),
            bytes@.len() >= 8,
            spec_parse_packet_seq(bytes@.skip(8), n as nat) == (match spec_parse_packet_seq(
                bytes@.skip(idx as int),
                (n - k) as nat,
            ) {
                Option::None => Option::None::<(Seq<PacketView>, Seq<u8>)>,
                Option::Some((ps, rest)) => Option::Some((views_of(out@) + ps, rest)),
            }),
        decreases n - k,
    {
        let ghost pre = bytes@.skip(idx as int);
        if bytes.len() - idx < 20 {
            assert(pre.len() < 20);
            return Err(Error::Protocol);
        }
        let secs = u64_from_le_bytes(slice_subrange(bytes, idx, idx + 8));
        let nanos = u32_from_le_bytes(slice_subrange(bytes, idx + 8, idx + 12));
        let dlen = u64_from_le_bytes(slice_subrange(bytes, idx + 12, idx + 20));
        proof {
            assert(pre.subrange(0, 8) =~= bytes@.subrange(idx as int, idx + 8));
            assert(pre.subrange(8, 12) =~= bytes@.subrange(idx + 8, idx + 12));
            assert(pre.subrange(12, 20) =~= bytes@.subrange(idx + 12, idx + 20));
        }
        if ((bytes.len() - idx - 20) as u64) < dlen {
            assert(pre.len() < 20 + dlen);
            return Err(Error::Protocol);
        }
        assert(dlen <= usize::MAX as u64);
        let dl = dlen as usize;
        let data = slice_to_vec(slice_subrange(bytes, idx + 20, idx + 20 + dl));
        let p = Packet { ts: Timestamp { secs, nanos }, data };
        let ghost pv = p@;
        proof {
            assert(pre.len() >= 20 + dlen);
            assert(pv.data =~= pre.subrange(20, 20 + dlen as int));
            assert(spec_parse_packet(pre) == Option::Some((pv, pre.skip(20 + dlen as int))));
            assert(pre.skip(20 + dlen as int) =~= bytes@.skip(idx + 20 + dl));
        }
        let ghost out_pre = out@;
        out.push(p);
        proof {
            assert(views_of(out@) =~= views_of(out_pre) + seq![pv]);
            let next = bytes@.skip(idx + 20 + dl);
            assert(spec_parse_packet_seq(pre, (n - k) as nat) == (match spec_parse_packet_seq(
                next,
                (n - (k + 1)) as nat,
            ) {
                Option::None => Option::None::<(Seq<PacketView>, Seq<u8>)>,
                Option::Some((ps, rest)) => Option::Some((seq![pv] + ps, rest)),
            }));
            match spec_parse_packet_seq(next, (n - (k + 1)) as nat) {
                Option::Some(pr) => {
                    assert(views_of(out@) + pr.0 =~= views_of(out_pre) + (seq![pv] + pr.0));
                },
                Option::None => {},
            }
        }
        idx = idx + 20 + dl;
        k = k + 1;
    }
    if idx != bytes.len() {
        return Err(Error::Protocol);
    }
    proof {
        assert(spec_parse_packet_seq(bytes@.skip(idx as int), 0) == Option::Some(
            (Seq::<PacketView>::empty(), bytes@.skip(idx as int)),
        ));
        assert(views_of(out@) + Seq::<PacketView>::empty() =~= views_of(out@));
        assert(bytes@.skip(idx as int).len() == 0);
    }
    Ok(out)
}

/// Decode a whole envelope. Fails with `Protocol` exactly on the byte
/// strings that do not frame an envelope.
pub fn decode_envelope(bytes: &[u8]) -> (r: Result<Option<Vec<Packet>>, Error>)
    ensures
        match spec_decode_envelope(bytes@) {
            Option::Some(e) => r matches Ok(d) && env_view(d) == e,
            Option::None => r == Err::<Option<Vec<Packet>>, Error>(Error::Protocol),
        },
{
    if bytes.len() == 0 {
        return Err(Error::Protocol);
    }
    let tag = *slice_index_get(bytes, 0);
    if tag == 0u8 {
        if bytes.len() == 1 {
            Ok(None)
        } else {
            Err(Error::Protocol)
        }
    } else if tag == 1u8 {
        let body = slice_subrange(bytes, 1, bytes.len());
        proof {
            assert(body@ =~= bytes@.skip(1));
        }
        match decode_packets(body) {
            Ok(v) => Ok(Some(v)),
            Err(e) => Err(e),
        }
    } else {
        Err(Error::Protocol)
    }
}

} // verus!
