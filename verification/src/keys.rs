//! The storage keyspace: each commitment path family has a distinct one-byte
//! tag; within a family the suffix is a packet hash, a batch hash or an id.
//! The byte layout is part of the protocol, because counterparty clients
//! verify it through membership proofs.

use vstd::prelude::*;

use crate::bytes::{push_bytes, push_u32_be, spec_u32_be};

verus! {

/// Tag of the packet-commitment family: set by send, cleared by
/// acknowledgement or timeout.
pub const PACKET_COMMITMENT_TAG: u8 = 0x01;

/// Tag of the packet-receipt family: set once on first receive, never
/// cleared.
pub const PACKET_RECEIPT_TAG: u8 = 0x02;

/// Tag of the packet-acknowledgement family: written at most once, never
/// cleared.
pub const PACKET_ACK_TAG: u8 = 0x03;

/// Tag of the batch-packets family.
pub const BATCH_PACKETS_TAG: u8 = 0x04;

/// Tag of the batch-receipts family.
pub const BATCH_RECEIPTS_TAG: u8 = 0x05;

/// Tag of connection-end commitments, proven to counterparties during
/// handshakes.
pub const CONNECTION_TAG: u8 = 0x06;

/// Tag of channel-end commitments, proven to counterparties during
/// handshakes.
pub const CHANNEL_TAG: u8 = 0x07;

/// A key of a family whose suffix is a 32-byte hash.
pub open spec fn spec_hash_key(tag: u8, h: Seq<u8>) -> Seq<u8> {
    seq![tag] + h
}

/// The key of `PacketCommitment(h)`.
pub open spec fn spec_packet_commitment_key(h: Seq<u8>) -> Seq<u8> {
    spec_hash_key(PACKET_COMMITMENT_TAG, h)
}

/// The key of `PacketReceipt(h)`.
pub open spec fn spec_packet_receipt_key(h: Seq<u8>) -> Seq<u8> {
    spec_hash_key(PACKET_RECEIPT_TAG, h)
}

/// The key of `PacketAcknowledgement(h)`.
pub open spec fn spec_packet_ack_key(h: Seq<u8>) -> Seq<u8> {
    spec_hash_key(PACKET_ACK_TAG, h)
}

/// The key of `BatchPackets(batch_hash)`.
pub open spec fn spec_batch_packets_key(h: Seq<u8>) -> Seq<u8> {
    spec_hash_key(BATCH_PACKETS_TAG, h)
}

/// The key of `BatchReceipts(batch_hash)`.
pub open spec fn spec_batch_receipts_key(h: Seq<u8>) -> Seq<u8> {
    spec_hash_key(BATCH_RECEIPTS_TAG, h)
}

/// Builds a tagged hash key.
pub fn hash_key(tag: u8, h: &Vec<u8>) -> (r: Vec<u8>)
    ensures
        r@ == spec_hash_key(tag, h@),
{
    let mut out: Vec<u8> = Vec::new();
    out.push(tag);
    push_bytes(&mut out, h);
    proof {
        assert(out@ =~= spec_hash_key(tag, h@));
    }
    out
}

/// The key of a connection-end commitment: the tag, then the connection id
/// big-endian.
pub open spec fn spec_connection_key(id: u32) -> Seq<u8> {
    seq![CONNECTION_TAG] + spec_u32_be(id)
}

/// Builds a connection-end key.
pub fn connection_key(id: u32) -> (r: Vec<u8>)
    ensures
        r@ == spec_connection_key(id),
{
    let mut out: Vec<u8> = Vec::new();
    out.push(CONNECTION_TAG);
    push_u32_be(&mut out, id);
    proof {
        assert(out@ =~= spec_connection_key(id));
    }
    out
}

/// The key of a channel-end commitment: the tag, then the channel id
/// big-endian.
pub open spec fn spec_channel_key(id: u32) -> Seq<u8> {
    seq![CHANNEL_TAG] + spec_u32_be(id)
}

/// Builds a channel-end key.
pub fn channel_key(id: u32) -> (r: Vec<u8>)
    ensures
        r@ == spec_channel_key(id),
{
    let mut out: Vec<u8> = Vec::new();
    out.push(CHANNEL_TAG);
    push_u32_be(&mut out, id);
    proof {
        assert(out@ =~= spec_channel_key(id));
    }
    out
}

} // verus!
