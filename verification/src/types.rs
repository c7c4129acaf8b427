//! The protocol's data model: identifiers, packets, connection and channel
//! records, errors and events.

use vstd::prelude::*;

verus! {

/// A dense, monotonically allocated client identifier; ids start at 1 and
/// are never reused.
pub type ClientId = u32;

/// A dense, monotonically allocated connection identifier.
pub type ConnectionId = u32;

/// A dense, monotonically allocated channel identifier. The value 0 is the
/// sentinel for a counterparty channel not yet known.
pub type ChannelId = u32;

/// Nanoseconds since the unix epoch. The value 0 means *unset* and is never
/// a valid packet timeout.
pub type Timestamp = u64;

/// A content-addressed message traversing a channel. Its timeout height is
/// fixed to zero: timeouts are timestamp-only in this protocol.
pub struct Packet {
    pub source_channel_id: ChannelId,
    pub destination_channel_id: ChannelId,
    pub data: Vec<u8>,
    pub timeout_timestamp: Timestamp,
}

/// The lifecycle of a connection; records progress strictly forward.
#[derive(PartialEq, Eq, Structural, Clone, Copy, Debug)]
pub enum ConnectionState {
    Init,
    TryOpen,
    Open,
}

/// A pair of clients bound symmetrically across two chains.
/// `counterparty_connection_id` is 0 exactly while the state is `Init`.
#[derive(Clone, Copy)]
pub struct Connection {
    pub state: ConnectionState,
    pub client_id: ClientId,
    pub counterparty_client_id: ClientId,
    pub counterparty_connection_id: ConnectionId,
}

/// The lifecycle of a channel; `Closed` is reserved and never entered here.
#[derive(PartialEq, Eq, Structural, Clone, Copy, Debug)]
pub enum ChannelState {
    Init,
    TryOpen,
    Open,
    Closed,
}

/// An application-level pipe multiplexed over a connection. The owning port
/// is kept in a sidecar map of the host, keyed by channel id.
pub struct Channel {
    pub state: ChannelState,
    pub connection_id: ConnectionId,
    pub counterparty_channel_id: ChannelId,
    pub counterparty_port_id: Vec<u8>,
    pub version: String,
}

/// The status a light client reports for itself.
#[derive(PartialEq, Eq, Structural, Clone, Copy, Debug)]
pub enum Status {
    Active,
    Expired,
    Frozen,
}

/// Everything an operation can fail with. Errors abort the whole message;
/// the caller rolls back, so no partial state change survives them.
#[derive(Debug)]
pub enum ContractError {
    /// A packet timeout timestamp of zero was submitted.
    TimeoutMustBeSet,
    /// The named channel does not exist or is not in the state the
    /// operation needs.
    InvalidChannelState,
    /// The named connection does not exist or is not in the state the
    /// operation needs.
    InvalidConnectionState,
    /// The caller is neither the owning port nor an allowlisted relayer,
    /// whichever the operation demands.
    Unauthorized,
    /// No packet commitment stands at the submitted packet's hash.
    PacketCommitmentNotFound,
    /// No receipt stands for the packet an acknowledgement was written for.
    PacketNotReceived,
    /// An acknowledgement for this packet has already been written.
    AlreadyAcknowledged,
    /// The packet's timeout lies at or before the host's block time.
    ReceivedTimedOutPacketTimestamp { now: Timestamp, timeout: Timestamp },
    /// The proven counterparty timestamp has not reached the packet's
    /// timeout.
    TimeoutTimestampNotReached,
    /// The light client rejected a membership or non-membership proof.
    ProofVerificationFailed,
    /// The named client, or the client type to create one from, is unknown.
    ClientNotFound,
    /// An arithmetic step would overflow.
    MathOverflow,
}

impl ContractError {
    /// Which variant this error is, for tests and operators.
    pub fn code(&self) -> (r: u32)
        ensures
            r == self.spec_code(),
    {
        match self {
            ContractError::TimeoutMustBeSet => 1,
            ContractError::InvalidChannelState => 2,
            ContractError::InvalidConnectionState => 3,
            ContractError::Unauthorized => 4,
            ContractError::PacketCommitmentNotFound => 5,
            ContractError::PacketNotReceived => 6,
            ContractError::AlreadyAcknowledged => 7,
            ContractError::ReceivedTimedOutPacketTimestamp { .. } => 8,
            ContractError::TimeoutTimestampNotReached => 9,
            ContractError::ProofVerificationFailed => 10,
            ContractError::ClientNotFound => 11,
            ContractError::MathOverflow => 12,
        }
    }

    /// The code of each variant.
    pub open spec fn spec_code(&self) -> u32 {
        match self {
            ContractError::TimeoutMustBeSet => 1,
            ContractError::InvalidChannelState => 2,
            ContractError::InvalidConnectionState => 3,
            ContractError::Unauthorized => 4,
            ContractError::PacketCommitmentNotFound => 5,
            ContractError::PacketNotReceived => 6,
            ContractError::AlreadyAcknowledged => 7,
            ContractError::ReceivedTimedOutPacketTimestamp { .. } => 8,
            ContractError::TimeoutTimestampNotReached => 9,
            ContractError::ProofVerificationFailed => 10,
            ContractError::ClientNotFound => 11,
            ContractError::MathOverflow => 12,
        }
    }
}

/// What the host supplies about the current block.
pub struct Env {
    /// The host block time in nanoseconds since the unix epoch.
    pub block_time: Timestamp,
}

/// A structured event, the sole interface to relayers and indexers.
pub enum Event {
    ClientRegistered { client_type: String },
    ClientCreated { client_id: ClientId },
    ClientUpdated { client_id: ClientId, height: u64 },
    ConnectionOpenInit { connection_id: ConnectionId, client_id: ClientId, counterparty_client_id: ClientId },
    ConnectionOpenTry { connection_id: ConnectionId, client_id: ClientId, counterparty_client_id: ClientId, counterparty_connection_id: ConnectionId },
    ConnectionOpenAck { connection_id: ConnectionId, counterparty_connection_id: ConnectionId },
    ConnectionOpenConfirm { connection_id: ConnectionId },
    ChannelOpenInit { channel_id: ChannelId, connection_id: ConnectionId },
    ChannelOpenTry { channel_id: ChannelId, connection_id: ConnectionId, counterparty_channel_id: ChannelId },
    ChannelOpenAck { channel_id: ChannelId, counterparty_channel_id: ChannelId },
    ChannelOpenConfirm { channel_id: ChannelId },
    PacketSend { channel_id: ChannelId, packet_hash: Vec<u8>, packet: Packet },
    PacketRecv { channel_id: ChannelId, packet_hash: Vec<u8>, relayer: String, relayer_msg: Vec<u8> },
    IntentPacketRecv { channel_id: ChannelId, packet_hash: Vec<u8>, market_maker: String, market_maker_msg: Vec<u8> },
    WriteAck { channel_id: ChannelId, packet_hash: Vec<u8>, acknowledgement: Vec<u8> },
    PacketAck { channel_id: ChannelId, packet_hash: Vec<u8>, acknowledgement: Vec<u8> },
    PacketTimeout { channel_id: ChannelId, packet_hash: Vec<u8> },
    BatchSend { channel_id: ChannelId, batch_hash: Vec<u8> },
    BatchAcks { channel_id: ChannelId, batch_hash: Vec<u8> },
}

} // verus!
