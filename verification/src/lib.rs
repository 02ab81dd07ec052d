mod client;
mod codec;
mod errors;
mod packet;
mod server;

pub use client::ChannelEvent;
pub use client::Client;
pub use client::lemma_windowing_conservation;
pub use client::process_event;
pub use codec::batch_len_ok;
pub use codec::decode_envelope;
pub use codec::decode_packets;
pub use codec::encode_close;
pub use codec::encode_envelope_packets;
pub use codec::encode_packets;
pub use codec::env_view;
pub use codec::envelope_len_ok;
pub use codec::ipc_views;
pub use codec::lemma_envelope_round_trip;
pub use codec::lemma_packet_round_trip;
pub use codec::lemma_packets_round_trip;
pub use codec::packet_len_ok;
pub use codec::spec_decode_envelope;
pub use codec::spec_decode_packets;
pub use codec::spec_encode_envelope;
pub use codec::spec_encode_packet;
pub use codec::spec_encode_packet_seq;
pub use codec::spec_encode_packets;
pub use codec::spec_parse_packet;
pub use codec::spec_parse_packet_seq;
pub use codec::views_of;
pub use errors::Error;
pub use packet::AsIpcPacket;
pub use packet::IpcPacket;
pub use packet::Packet;
pub use packet::PacketView;
pub use packet::Timestamp;
pub use server::SendSession;
pub use server::as_packet_views;
pub use server::encode_batch;
