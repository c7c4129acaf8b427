//! Packet identity and commitment encoding: the canonical byte serialization
//! of packets, the keccak-256 digest that content-addresses them, and the
//! commitment values written to the store.

use vstd::prelude::*;

use sha3::Digest;

use crate::bytes::{push_bytes, push_u32_be, push_u64_be, spec_u32_be, spec_u64_be};
use crate::types::{ChannelState, Connection, ConnectionState, Packet};

verus! {

/// The keccak-256 digest of a byte string. The digest itself is computed by
/// an outside library; its value is a function of the input bytes alone.
pub uninterp spec fn keccak_of(bytes: Seq<u8>) -> Seq<u8>;

/// Relies on sha3's Keccak256: the digest is 32 bytes and depends on the
/// input bytes alone.
#[verifier::external_body]
pub fn keccak256(bytes: &Vec<u8>) -> (r: Vec<u8>)
    ensures
        r@ == keccak_of(bytes@),
        r@.len() == 32,
{
    sha3::Keccak256::digest(bytes).to_vec()
}

/// The canonical serialization of a packet: a domain-separation tag, then
/// every field, variable-length fields length-prefixed, integers big-endian.
#[verifier::opaque]
pub open spec fn spec_encode_packet(p: Packet) -> Seq<u8> {
    seq![0x50u8]
        + spec_u32_be(p.source_channel_id)
        + spec_u32_be(p.destination_channel_id)
        + spec_u64_be(p.data@.len() as u64)
        + p.data@
        + spec_u64_be(0u64)
        + spec_u64_be(p.timeout_timestamp)
}

/// Serializes a packet canonically. The fixed 64-bit zero stands where a
/// timeout height would: timeouts in this protocol are timestamp-only.
pub fn encode_packet(p: &Packet) -> (r: Vec<u8>)
    ensures
        r@ == spec_encode_packet(*p),
{
    let mut out: Vec<u8> = Vec::new();
    out.push(0x50u8);
    push_u32_be(&mut out, p.source_channel_id);
    push_u32_be(&mut out, p.destination_channel_id);
    let data_len = p.data.len();
    push_u64_be(&mut out, data_len as u64);
    push_bytes(&mut out, &p.data);
    push_u64_be(&mut out, 0u64);
    push_u64_be(&mut out, p.timeout_timestamp);
    proof {
        reveal(spec_encode_packet);
        assert(out@ =~= spec_encode_packet(*p));
    }
    out
}

/// A packet's identity: the digest of its canonical serialization. Hash
/// equality is taken as packet equality.
pub open spec fn spec_packet_hash(p: Packet) -> Seq<u8> {
    keccak_of(spec_encode_packet(p))
}

/// Computes the 32-byte content address of a packet.
pub fn packet_hash(p: &Packet) -> (r: Vec<u8>)
    ensures
        r@ == spec_packet_hash(*p),
        r@.len() == 32,
{
    let encoded = encode_packet(p);
    keccak256(&encoded)
}

/// The distinguished non-zero value that marks a packet commitment or a
/// packet receipt as present.
pub open spec fn spec_commitment_magic() -> Seq<u8> {
    Seq::new(32, |i: int| 0x01u8)
}

/// Builds the commitment sentinel value.
pub fn commitment_magic() -> (r: Vec<u8>)
    ensures
        r@ == spec_commitment_magic(),
{
    let mut out: Vec<u8> = Vec::new();
    let mut i: usize = 0;
    while i < 32
        invariant
            i <= 32,
            out@ =~= Seq::new(i as nat, |j: int| 0x01u8),
        decreases 32 - i,
    {
        out.push(0x01u8);
        i = i + 1;
    }
    proof {
        assert(out@ =~= spec_commitment_magic());
    }
    out
}

/// The first byte of every stored acknowledgement commitment, distinct from
/// the commitment sentinel so a raw read tells the two families apart.
pub const ACK_MAGIC: u8 = 0x02;

/// The stored form of an acknowledgement: its digest, tagged in the first
/// byte so that no legitimate value is all zero.
pub open spec fn spec_ack_commitment(ack: Seq<u8>) -> Seq<u8> {
    keccak_of(ack).update(0, ACK_MAGIC)
}

/// Computes the stored form of an acknowledgement.
pub fn ack_commitment(ack: &Vec<u8>) -> (r: Vec<u8>)
    ensures
        r@ == spec_ack_commitment(ack@),
{
    let mut h = keccak256(ack);
    h.set(0, ACK_MAGIC);
    h
}

/// The digest that commits to an ordered list of packet hashes: their
/// concatenation, hashed.
pub open spec fn spec_concat_hashes(hashes: Seq<Seq<u8>>) -> Seq<u8>
    decreases hashes.len(),
{
    if hashes.len() == 0 {
        Seq::empty()
    } else {
        spec_concat_hashes(hashes.drop_last()) + hashes.last()
    }
}

/// Concatenates a list of byte strings.
pub fn concat_hashes(hashes: &Vec<Vec<u8>>) -> (r: Vec<u8>)
    ensures
        r@ == spec_concat_hashes(hashes@.map_values(|h: Vec<u8>| h@)),
{
    let mut out: Vec<u8> = Vec::new();
    let n = hashes.len();
    let mut i: usize = 0;
    while i < n
        invariant
            n == hashes@.len(),
            i <= n,
            out@ == spec_concat_hashes(hashes@.map_values(|h: Vec<u8>| h@).subrange(0, i as int)),
        decreases n - i,
    {
        push_bytes(&mut out, &hashes[i]);
        proof {
            let m = hashes@.map_values(|h: Vec<u8>| h@);
            assert(m.subrange(0, i + 1).drop_last() =~= m.subrange(0, i as int));
            assert(m.subrange(0, i + 1).last() == hashes@[i as int]@);
        }
        i = i + 1;
    }
    proof {
        let m = hashes@.map_values(|h: Vec<u8>| h@);
        assert(m.subrange(0, n as int) =~= m);
    }
    out
}

/// The byte tag of each connection state in record commitments.
pub open spec fn spec_connection_state_byte(s: ConnectionState) -> u8 {
    match s {
        ConnectionState::Init => 1u8,
        ConnectionState::TryOpen => 2u8,
        ConnectionState::Open => 3u8,
    }
}

/// The canonical serialization of a connection record, proven to
/// counterparties during the handshake.
pub open spec fn spec_encode_connection(c: Connection) -> Seq<u8> {
    seq![spec_connection_state_byte(c.state)]
        + spec_u32_be(c.client_id)
        + spec_u32_be(c.counterparty_client_id)
        + spec_u32_be(c.counterparty_connection_id)
}

/// Serializes a connection record canonically.
pub fn encode_connection(c: &Connection) -> (r: Vec<u8>)
    ensures
        r@ == spec_encode_connection(*c),
{
    let mut out: Vec<u8> = Vec::new();
    let state_byte: u8 = match c.state {
        ConnectionState::Init => 1,
        ConnectionState::TryOpen => 2,
        ConnectionState::Open => 3,
    };
    out.push(state_byte);
    push_u32_be(&mut out, c.client_id);
    push_u32_be(&mut out, c.counterparty_client_id);
    push_u32_be(&mut out, c.counterparty_connection_id);
    proof {
        assert(out@ =~= spec_encode_connection(*c));
    }
    out
}

/// The commitment value of a connection record: its digest.
pub open spec fn spec_connection_commitment(c: Connection) -> Seq<u8> {
    keccak_of(spec_encode_connection(c))
}

/// Computes the commitment of a connection record.
pub fn connection_commitment(c: &Connection) -> (r: Vec<u8>)
    ensures
        r@ == spec_connection_commitment(*c),
{
    let encoded = encode_connection(c);
    keccak256(&encoded)
}

/// The byte tag of each channel state in record commitments.
pub open spec fn spec_channel_state_byte(s: ChannelState) -> u8 {
    match s {
        ChannelState::Init => 1u8,
        ChannelState::TryOpen => 2u8,
        ChannelState::Open => 3u8,
        ChannelState::Closed => 4u8,
    }
}

/// The serialization of the channel-end facts a counterparty can check:
/// the state, the channel id on this side, and the port that owns the
/// counterparty end, length-prefixed.
pub open spec fn spec_encode_channel_end(
    state: ChannelState,
    counterparty_channel_id: u32,
    counterparty_port_id: Seq<u8>,
) -> Seq<u8> {
    seq![spec_channel_state_byte(state)]
        + spec_u32_be(counterparty_channel_id)
        + spec_u64_be(counterparty_port_id.len() as u64)
        + counterparty_port_id
}

/// Serializes the provable end of a channel record.
pub fn encode_channel_end(
    state: ChannelState,
    counterparty_channel_id: u32,
    counterparty_port_id: &Vec<u8>,
) -> (r: Vec<u8>)
    ensures
        r@ == spec_encode_channel_end(state, counterparty_channel_id, counterparty_port_id@),
{
    let mut out: Vec<u8> = Vec::new();
    let state_byte: u8 = match state {
        ChannelState::Init => 1,
        ChannelState::TryOpen => 2,
        ChannelState::Open => 3,
        ChannelState::Closed => 4,
    };
    out.push(state_byte);
    push_u32_be(&mut out, counterparty_channel_id);
    push_u64_be(&mut out, counterparty_port_id.len() as u64);
    push_bytes(&mut out, counterparty_port_id);
    proof {
        assert(out@ =~= spec_encode_channel_end(state, counterparty_channel_id, counterparty_port_id@));
    }
    out
}

/// The commitment value of a channel end: its digest.
pub open spec fn spec_channel_end_commitment(
    state: ChannelState,
    counterparty_channel_id: u32,
    counterparty_port_id: Seq<u8>,
) -> Seq<u8> {
    keccak_of(spec_encode_channel_end(state, counterparty_channel_id, counterparty_port_id))
}

/// Computes the commitment of a channel end.
pub fn channel_end_commitment(
    state: ChannelState,
    counterparty_channel_id: u32,
    counterparty_port_id: &Vec<u8>,
) -> (r: Vec<u8>)
    ensures
        r@ == spec_channel_end_commitment(state, counterparty_channel_id, counterparty_port_id@),
{
    let encoded = encode_channel_end(state, counterparty_channel_id, counterparty_port_id);
    keccak256(&encoded)
}

} // verus!
