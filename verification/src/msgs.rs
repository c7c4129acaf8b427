//! The external message surface: one tagged union, decoded by the host
//! framing and routed by the dispatcher into exactly one entrypoint.

use vstd::prelude::*;

use crate::client::FixedClient;
use crate::types::{ChannelId, ClientId, ConnectionId, Packet, Timestamp};

verus! {

/// Instantiates the contract: the relayer allowlist and its optional admin.
pub struct InitMsg {
    pub relayers_admin: Option<String>,
    pub relayers: Vec<String>,
}

/// Binds a client-type tag to the client implementation the host selected.
pub struct MsgRegisterClient {
    pub client_type: String,
}

/// Creates a client of a registered type from its initial state.
pub struct MsgCreateClient {
    pub client_type: String,
    pub client: FixedClient,
}

/// Installs a new consensus state at a claimed height.
pub struct MsgUpdateClient {
    pub client_id: ClientId,
    pub height: u64,
    pub timestamp: Timestamp,
}

/// Reports client misbehaviour; a proven report freezes the client.
pub struct MsgMisbehaviour {
    pub client_id: ClientId,
}

/// Opens a connection from this side.
pub struct MsgConnectionOpenInit {
    pub client_id: ClientId,
    pub counterparty_client_id: ClientId,
}

/// Answers a counterparty's `ConnectionOpenInit`.
pub struct MsgConnectionOpenTry {
    pub client_id: ClientId,
    pub counterparty_client_id: ClientId,
    pub counterparty_connection_id: ConnectionId,
    pub proof_init: Vec<u8>,
    pub proof_height: u64,
}

/// Answers a counterparty's `ConnectionOpenTry`.
pub struct MsgConnectionOpenAck {
    pub connection_id: ConnectionId,
    pub counterparty_connection_id: ConnectionId,
    pub proof_try: Vec<u8>,
    pub proof_height: u64,
}

/// Confirms a counterparty's `ConnectionOpenAck`.
pub struct MsgConnectionOpenConfirm {
    pub connection_id: ConnectionId,
    pub proof_ack: Vec<u8>,
    pub proof_height: u64,
}

/// Opens a channel from this side; the caller becomes the owning port.
pub struct MsgChannelOpenInit {
    pub port_id: String,
    pub counterparty_port_id: Vec<u8>,
    pub connection_id: ConnectionId,
    pub version: String,
    pub relayer: String,
}

/// Answers a counterparty's `ChannelOpenInit`.
pub struct MsgChannelOpenTry {
    pub port_id: String,
    pub counterparty_port_id: Vec<u8>,
    pub counterparty_channel_id: ChannelId,
    pub connection_id: ConnectionId,
    pub version: String,
    pub proof_init: Vec<u8>,
    pub proof_height: u64,
    pub relayer: String,
}

/// Answers a counterparty's `ChannelOpenTry`.
pub struct MsgChannelOpenAck {
    pub channel_id: ChannelId,
    pub counterparty_version: String,
    pub counterparty_channel_id: ChannelId,
    pub proof_try: Vec<u8>,
    pub proof_height: u64,
    pub relayer: String,
}

/// Confirms a counterparty's `ChannelOpenAck`.
pub struct MsgChannelOpenConfirm {
    pub channel_id: ChannelId,
    pub proof_ack: Vec<u8>,
    pub proof_height: u64,
    pub relayer: String,
}

/// Sends a packet on a channel the caller owns.
pub struct MsgSendPacket {
    pub source_channel_id: ChannelId,
    pub timeout_timestamp: Timestamp,
    pub data: Vec<u8>,
}

/// Delivers proven packets; one proof covers the whole batch.
pub struct MsgPacketRecv {
    pub packets: Vec<Packet>,
    pub relayer_msgs: Vec<Vec<u8>>,
    pub relayer: String,
    pub proof: Vec<u8>,
    pub proof_height: u64,
}

/// Pre-delivers packets on a market maker's own responsibility, without a
/// proof.
pub struct MsgIntentPacketRecv {
    pub packets: Vec<Packet>,
    pub market_maker_msgs: Vec<Vec<u8>>,
    pub market_maker: String,
    pub empty_proof: Vec<u8>,
}

/// Settles sent packets against acknowledgements proven on the
/// counterparty.
pub struct MsgPacketAcknowledgement {
    pub packets: Vec<Packet>,
    pub acknowledgements: Vec<Vec<u8>>,
    pub proof: Vec<u8>,
    pub proof_height: u64,
    pub relayer: String,
}

/// Settles a sent packet whose timeout the counterparty provably passed
/// without receiving it.
pub struct MsgPacketTimeout {
    pub packet: Packet,
    pub proof: Vec<u8>,
    pub proof_height: u64,
    pub relayer: String,
}

/// Writes the acknowledgement for a received packet; the caller must own
/// the destination channel.
pub struct MsgWriteAcknowledgement {
    pub packet: Packet,
    pub acknowledgement: Vec<u8>,
}

/// Commits to an ordered batch of already-sent packets under one hash.
pub struct MsgBatchSend {
    pub packets: Vec<Packet>,
}

/// Commits to the acknowledgements of a batch of received packets.
pub struct MsgBatchAcks {
    pub packets: Vec<Packet>,
    pub acks: Vec<Vec<u8>>,
}

/// The tagged union the dispatcher routes. Unknown tags never reach it: the
/// host framing rejects them while decoding.
pub enum ExecuteMsg {
    RegisterClient(MsgRegisterClient),
    CreateClient(MsgCreateClient),
    UpdateClient(MsgUpdateClient),
    Misbehaviour(MsgMisbehaviour),
    ConnectionOpenInit(MsgConnectionOpenInit),
    ConnectionOpenTry(MsgConnectionOpenTry),
    ConnectionOpenAck(MsgConnectionOpenAck),
    ConnectionOpenConfirm(MsgConnectionOpenConfirm),
    ChannelOpenInit(MsgChannelOpenInit),
    ChannelOpenTry(MsgChannelOpenTry),
    ChannelOpenAck(MsgChannelOpenAck),
    ChannelOpenConfirm(MsgChannelOpenConfirm),
    PacketSend(MsgSendPacket),
    PacketRecv(MsgPacketRecv),
    IntentPacketRecv(MsgIntentPacketRecv),
    PacketAck(MsgPacketAcknowledgement),
    PacketTimeout(MsgPacketTimeout),
    WriteAcknowledgement(MsgWriteAcknowledgement),
    BatchSend(MsgBatchSend),
    BatchAcks(MsgBatchAcks),
}

} // verus!
