use packet_ipc::AsIpcPacket;
use packet_ipc::ChannelEvent;
use packet_ipc::Client;
use packet_ipc::Error;
use packet_ipc::IpcPacket;
use packet_ipc::Packet;
use packet_ipc::SendSession;
use packet_ipc::Timestamp;
use packet_ipc::decode_envelope;
use packet_ipc::decode_packets;
use packet_ipc::encode_batch;
use packet_ipc::encode_close;
use packet_ipc::encode_packets;
use packet_ipc::process_event;

fn pkt(secs: u64, byte: u8) -> Packet {
    Packet::new(Timestamp::new(secs, 0), vec![byte])
}

#[test]
fn test_roundtrip() {
    let packets = vec![Packet::new(Timestamp::new(11, 250), vec![3u8])];
    let ipc_packets: Vec<_> = packets.iter().map(IpcPacket::from_packet).collect();
    let data = encode_packets(ipc_packets.as_slice());
    let out_packets: Vec<Packet> = decode_packets(data.as_slice()).unwrap();
    assert_eq!(packets[0].data(), out_packets[0].data());
}

#[test]
fn roundtrip_keeps_timestamp_and_payload() {
    let packets = vec![
        Packet::new(Timestamp::new(7, 999_999_999), vec![]),
        Packet::new(Timestamp::new(u64::MAX, 0), vec![0u8, 255u8, 1u8]),
    ];
    let ipc_packets: Vec<_> = packets.iter().map(IpcPacket::from_packet).collect();
    let data = encode_packets(ipc_packets.as_slice());
    let out: Vec<Packet> = decode_packets(data.as_slice()).unwrap();
    assert_eq!(out.len(), 2);
    for (a, b) in packets.iter().zip(out.iter()) {
        assert_eq!(a.timestamp(), b.timestamp());
        assert_eq!(a.data(), b.data());
    }
}

#[test]
fn envelope_roundtrip() {
    let packets = vec![pkt(1, 10), pkt(2, 20)];
    let bytes = encode_batch(packets.as_slice());
    let decoded = decode_envelope(bytes.as_slice()).unwrap().expect("data envelope");
    assert_eq!(decoded.len(), 2);
    assert_eq!(decoded[0].data()[0], 10u8);
    assert_eq!(decoded[1].data()[0], 20u8);

    let close = encode_close();
    assert!(decode_envelope(close.as_slice()).unwrap().is_none());
}

#[test]
fn encode_exact_bytes() {
    let packets = vec![Packet::new(Timestamp::new(1, 2), vec![3u8])];
    let bytes = encode_batch(packets.as_slice());
    let expected: Vec<u8> = vec![
        1, // envelope tag: a batch follows
        1, 0, 0, 0, 0, 0, 0, 0, // packet count
        1, 0, 0, 0, 0, 0, 0, 0, // seconds
        2, 0, 0, 0, // nanoseconds
        1, 0, 0, 0, 0, 0, 0, 0, // payload length
        3, // payload
    ];
    assert_eq!(bytes, expected);
    assert_eq!(encode_close(), vec![0u8]);
}

#[test]
fn decode_rejects_bad_framing() {
    assert_eq!(decode_envelope(&[]), Err(Error::Protocol));
    assert_eq!(decode_envelope(&[9]), Err(Error::Protocol));
    assert_eq!(decode_envelope(&[0, 0]), Err(Error::Protocol));
    // a batch whose count promises more packets than the bytes hold
    assert_eq!(
        decode_envelope(&[1, 2, 0, 0, 0, 0, 0, 0, 0]),
        Err(Error::Protocol)
    );
    // trailing bytes after a complete batch
    let packets = vec![pkt(1, 3)];
    let mut bytes = encode_batch(packets.as_slice());
    bytes.push(0);
    assert_eq!(decode_envelope(bytes.as_slice()), Err(Error::Protocol));
    // a payload length larger than what remains
    assert!(decode_packets(&[1, 0, 0, 0, 0, 0, 0, 0]).is_err());
}

#[test]
fn single_batch_then_close() {
    let (tx, rx) = crossbeam_channel::unbounded();
    tx.send(Some(vec![Packet::new(Timestamp::new(40, 0), vec![3u8])]))
        .unwrap();
    tx.send(None).unwrap();
    let mut cli = Client::from_receiver(rx);
    let got = cli.recv(1).unwrap().expect("No message");
    assert_eq!(got.len(), 1);
    assert_eq!(got[0].timestamp(), &Timestamp::new(40, 0));
    assert_eq!(got[0].data()[0], 3u8);
    assert!(cli.recv(1).unwrap().is_none());
}

#[test]
fn multi_batch_windowing() {
    let (tx, rx) = crossbeam_channel::unbounded();
    let mut cli = Client::from_receiver(rx);
    tx.send(Some(vec![pkt(1, 10)])).unwrap();
    let first = cli.recv(1).unwrap().expect("No message");
    assert_eq!(first[0].data()[0], 10u8);
    tx.send(Some(vec![pkt(2, 20)])).unwrap();
    let second = cli.recv(1).unwrap().expect("No message");
    assert_eq!(second[0].data()[0], 20u8);
    tx.send(None).unwrap();
    assert!(cli.recv(1).unwrap().is_none());
}

#[test]
fn short_final_batch() {
    let (tx, rx) = crossbeam_channel::unbounded();
    tx.send(Some(vec![pkt(1, 1), pkt(2, 2)])).unwrap();
    tx.send(None).unwrap();
    let mut cli = Client::from_receiver(rx);
    let got = cli.recv(5).unwrap().expect("No message");
    assert_eq!(got.len(), 2);
    assert_eq!(got[0].data()[0], 1u8);
    assert_eq!(got[1].data()[0], 2u8);
    assert!(cli.recv(5).unwrap().is_none());
}

#[test]
fn terminal_idempotent_after_drain() {
    let (tx, rx) = crossbeam_channel::unbounded();
    tx.send(None).unwrap();
    let mut cli = Client::from_receiver(rx);
    assert!(cli.recv(1).unwrap().is_none());
    assert!(cli.recv(0).unwrap().is_none());
    assert!(cli.recv(3).unwrap().is_none());
    assert!(cli.recv(1).unwrap().is_none());
}

#[test]
fn zero_length_request_never_blocks() {
    let (tx, rx) = crossbeam_channel::unbounded();
    let mut cli = Client::from_receiver(rx);
    // nothing was ever sent: a window of zero still answers at once
    let empty = cli.recv(0).unwrap().expect("No message");
    assert!(empty.is_empty());
    tx.send(None).unwrap();
    assert!(cli.recv(1).unwrap().is_none());
    // after close with an empty buffer the answer is the end-of-stream value
    assert!(cli.recv(0).unwrap().is_none());
}

#[test]
fn windowing_conserves_stream() {
    let (tx, rx) = crossbeam_channel::unbounded();
    tx.send(Some(vec![pkt(1, 1), pkt(2, 2)])).unwrap();
    tx.send(Some(vec![pkt(3, 3)])).unwrap();
    tx.send(Some(vec![pkt(4, 4), pkt(5, 5), pkt(6, 6)])).unwrap();
    tx.send(None).unwrap();
    let mut cli = Client::from_receiver(rx);
    let mut seen: Vec<u8> = vec![];
    loop {
        match cli.recv(2).unwrap() {
            Some(chunk) => {
                assert!(chunk.len() <= 2);
                for p in chunk {
                    seen.push(p.data()[0]);
                }
            }
            None => break,
        }
    }
    assert_eq!(seen, vec![1, 2, 3, 4, 5, 6]);
}

#[test]
fn take_splits_buffer_in_order() {
    let (tx, rx) = crossbeam_channel::unbounded();
    tx.send(Some(vec![pkt(1, 1), pkt(2, 2), pkt(3, 3)])).unwrap();
    let mut cli = Client::from_receiver(rx);
    let first = cli.recv(2).unwrap().expect("No message");
    assert_eq!(first.len(), 2);
    assert_eq!(first[0].data()[0], 1u8);
    assert_eq!(first[1].data()[0], 2u8);
    // the remainder stayed buffered and comes out without touching the queue
    let rest = cli.take(5);
    assert_eq!(rest.len(), 1);
    assert_eq!(rest[0].data()[0], 3u8);
    assert_eq!(cli.take(5).len(), 0);
}

#[test]
fn queue_failure_is_transport_error() {
    let (tx, rx) = crossbeam_channel::unbounded::<Option<Vec<Packet>>>();
    drop(tx);
    let mut cli = Client::from_receiver(rx);
    assert_eq!(cli.recv(1), Err(Error::Transport));
}

#[test]
fn send_session_rejects_use_after_close() {
    let mut session = SendSession::new();
    assert_eq!(session.check_send(), Ok(()));
    assert_eq!(session.mark_close(), Ok(()));
    assert_eq!(session.check_send(), Err(Error::Closed));
    assert_eq!(session.mark_close(), Err(Error::Closed));
}

#[test]
fn process_event_forwards_batches() {
    let (tx, rx) = crossbeam_channel::unbounded();
    let packets = vec![pkt(9, 7)];
    let closed = process_event(&tx, ChannelEvent::Message(encode_batch(packets.as_slice())));
    assert!(!closed);
    let forwarded = rx.recv().unwrap().expect("data item");
    assert_eq!(forwarded.len(), 1);
    assert_eq!(forwarded[0].data()[0], 7u8);
}

#[test]
fn process_event_ends_stream_on_close_and_garbage() {
    let (tx, rx) = crossbeam_channel::unbounded();
    assert!(process_event(&tx, ChannelEvent::Message(encode_close())));
    assert!(rx.recv().unwrap().is_none());

    let (tx2, rx2) = crossbeam_channel::unbounded();
    assert!(process_event(&tx2, ChannelEvent::Message(vec![42, 42])));
    assert!(rx2.recv().unwrap().is_none());

    let (tx3, rx3) = crossbeam_channel::unbounded();
    assert!(process_event(&tx3, ChannelEvent::Disconnected));
    assert!(rx3.recv().unwrap().is_none());
}

#[test]
fn process_event_reports_gone_consumer() {
    let (tx, rx) = crossbeam_channel::unbounded::<Option<Vec<Packet>>>();
    drop(rx);
    let packets = vec![pkt(9, 7)];
    let closed = process_event(&tx, ChannelEvent::Message(encode_batch(packets.as_slice())));
    assert!(closed);
}

#[test]
fn packet_accessors() {
    let p = Packet::new(Timestamp::new(3, 4), vec![5, 6]);
    assert_eq!(p.timestamp(), &Timestamp::new(3, 4));
    assert_eq!(p.data(), &[5u8, 6u8][..]);
    let ipc = IpcPacket::from_packet(&p);
    assert_eq!(ipc.timestamp(), &Timestamp::new(3, 4));
    assert_eq!(ipc.data(), &[5u8, 6u8][..]);
    let q = ipc.into_packet();
    assert_eq!(q.data(), &[5u8, 6u8][..]);
    assert_eq!(p.into_data(), vec![5u8, 6u8]);
}

#[test]
fn error_descriptions() {
    assert_eq!(Error::Transport.describe(), "transport failure");
    assert_eq!(Error::Protocol.describe(), "protocol violation");
    assert_eq!(Error::Closed.describe(), "stream already closed");
}
