//! The state-module logic for a sui host: decoding the records its move
//! contract returns and converting them into the protocol's connection and
//! channel shapes. The RPC transport lives outside the library and hands
//! these functions plain bytes.

use vstd::prelude::*;

use crate::cosmos::ClientInfo;
use crate::types::{Channel, ChannelState, Connection, ConnectionState};

verus! {

/// The management commands the module's command line accepts.
pub enum Cmd {
    ChainId,
    VaultAddress,
    SubmitTx,
    FetchAbi,
}

/// What a relayer is told about any client of the move contract: the one
/// client type it hosts, over the move interface tag.
pub fn client_info() -> (r: ClientInfo)
    ensures
        r.client_type@ == "cometbls"@,
        r.ibc_interface@ == "ibc-move/aptos"@,
{
    ClientInfo {
        client_type: "cometbls".to_owned(),
        ibc_interface: "ibc-move/aptos".to_owned(),
    }
}

/// A connection record as the move contract serializes it: the state as a
/// small integer, ids as plain integers with zero for "absent".
#[derive(Clone, Copy, PartialEq, Eq, Structural)]
pub struct SuiConnection {
    pub state: u8,
    pub client_id: u32,
    pub counterparty_client_id: u32,
    pub counterparty_connection_id: u32,
}

/// A channel record as the move contract serializes it.
pub struct SuiChannel {
    pub state: u8,
    pub connection_id: u32,
    pub counterparty_channel_id: u32,
    pub counterparty_port_id: Vec<u8>,
    pub version: String,
}

/// Converts a raw connection record into the protocol's shape. The state
/// byte must name a connection state and the client ids must be allocated
/// ones, which start at one.
pub fn convert_connection(connection: SuiConnection) -> (r: Connection)
    requires
        1 <= connection.state <= 3,
        connection.client_id >= 1,
        connection.counterparty_client_id >= 1,
    ensures
        r.state == (if connection.state == 1 {
            ConnectionState::Init
        } else if connection.state == 2 {
            ConnectionState::TryOpen
        } else {
            ConnectionState::Open
        }),
        r.client_id == connection.client_id,
        r.counterparty_client_id == connection.counterparty_client_id,
        r.counterparty_connection_id == connection.counterparty_connection_id,
{
    Connection {
        state: if connection.state == 1 {
            ConnectionState::Init
        } else if connection.state == 2 {
            ConnectionState::TryOpen
        } else {
            ConnectionState::Open
        },
        client_id: connection.client_id,
        counterparty_client_id: connection.counterparty_client_id,
        counterparty_connection_id: connection.counterparty_connection_id,
    }
}

/// Converts a raw channel record into the protocol's shape. The state
/// byte must name a channel state and the connection id an allocated
/// connection; a counterparty channel id of zero stays the "not yet
/// known" sentinel.
pub fn convert_channel(channel: SuiChannel) -> (r: Channel)
    requires
        1 <= channel.state <= 4,
        channel.connection_id >= 1,
    ensures
        r.state == (if channel.state == 1 {
            ChannelState::Init
        } else if channel.state == 2 {
            ChannelState::TryOpen
        } else if channel.state == 3 {
            ChannelState::Open
        } else {
            ChannelState::Closed
        }),
        r.connection_id == channel.connection_id,
        r.counterparty_channel_id == channel.counterparty_channel_id,
        r.counterparty_port_id@ == channel.counterparty_port_id@,
        r.version@ == channel.version@,
{
    Channel {
        state: if channel.state == 1 {
            ChannelState::Init
        } else if channel.state == 2 {
            ChannelState::TryOpen
        } else if channel.state == 3 {
            ChannelState::Open
        } else {
            ChannelState::Closed
        },
        connection_id: channel.connection_id,
        counterparty_channel_id: channel.counterparty_channel_id,
        counterparty_port_id: channel.counterparty_port_id,
        version: channel.version,
    }
}

/// The little-endian value of four bytes.
pub open spec fn spec_u32_le(s: Seq<u8>, off: int) -> u32 {
    (s[off] + s[off + 1] * 0x100 + s[off + 2] * 0x10000 + s[off + 3] * 0x1000000) as u32
}

fn read_u32_le(bytes: &Vec<u8>, off: usize) -> (r: u32)
    requires
        off + 4 <= bytes@.len(),
    ensures
        r == spec_u32_le(bytes@, off as int),
{
    let n = bytes.len();
    proof {
        assert(n == bytes@.len());
    }
    let b0 = bytes[off] as u32;
    let b1 = bytes[off + 1] as u32;
    let b2 = bytes[off + 2] as u32;
    let b3 = bytes[off + 3] as u32;
    b0 + b1 * 0x100 + b2 * 0x10000 + b3 * 0x1000000
}

/// Decodes the move contract's serialized connection record: one state
/// byte, then three little-endian 32-bit ids, thirteen bytes in all.
pub fn decode_sui_connection(bytes: &Vec<u8>) -> (r: Option<SuiConnection>)
    ensures
        match r {
            Some(c) => bytes@.len() == 13 && c.state == bytes@[0] && c.client_id == spec_u32_le(
                bytes@,
                1,
            ) && c.counterparty_client_id == spec_u32_le(bytes@, 5)
                && c.counterparty_connection_id == spec_u32_le(bytes@, 9),
            None => bytes@.len() != 13,
        },
{
    if bytes.len() != 13 {
        return None;
    }
    Some(SuiConnection {
        state: bytes[0],
        client_id: read_u32_le(bytes, 1),
        counterparty_client_id: read_u32_le(bytes, 5),
        counterparty_connection_id: read_u32_le(bytes, 9),
    })
}

} // verus!
