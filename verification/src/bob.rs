//! The bob light client: an L2 client whose headers are proved against an
//! L1 consensus state. The header proof itself is checked by a separate
//! verifier; these functions carry the verified decision logic around it.

use vstd::prelude::*;

use crate::bytes::copy_bytes;
use crate::types::Status;

verus! {

/// The first client-state layout of a bob client.
pub struct BobClientStateV1 {
    pub chain_id: String,
    pub latest_height: u64,
}

/// The current client-state layout of a bob client, naming the L1 client
/// its headers are proved against.
pub struct BobClientStateV2 {
    pub chain_id: String,
    pub latest_height: u64,
    pub l1_client_id: u32,
}

/// A bob client state, in either layout.
pub enum BobClientState {
    V1(BobClientStateV1),
    V2(BobClientStateV2),
}

/// One verified consensus state of a bob client.
pub struct BobConsensusState {
    /// The L2 block time, in nanoseconds.
    pub timestamp: u64,
    /// The L2 state root.
    pub state_root: Vec<u8>,
    /// The storage root of the core contract's account on the L2.
    pub ibc_storage_root: Vec<u8>,
}

/// The provable content of a submitted bob header.
pub struct BobHeader {
    /// The L1 height whose consensus state anchors the proof.
    pub l1_height: u64,
    /// The L2 block number.
    pub l2_number: u64,
    /// The L2 block time, in seconds.
    pub l2_timestamp: u64,
    /// The L2 state root.
    pub l2_state_root: Vec<u8>,
    /// The storage root shown by the L2 account proof.
    pub l2_storage_root: Vec<u8>,
}

/// What verifying a bob header yields.
pub struct BobStateUpdate {
    pub height: u64,
    pub consensus_state: BobConsensusState,
    pub client_state: Option<BobClientStateV2>,
}

/// Nanoseconds per second, for header times submitted in seconds.
pub const NANOS_PER_SECOND: u64 = 1000000000;

/// A bob light-client instance; every capability is a method.
pub struct BobLightClient;

impl BobLightClient {
    /// The timestamp of a consensus state.
    pub fn get_timestamp(consensus_state: &BobConsensusState) -> (r: u64)
        ensures
            r == consensus_state.timestamp,
    {
        consensus_state.timestamp
    }

    /// The latest height the client reached, in either layout.
    pub fn get_latest_height(client_state: &BobClientState) -> (r: u64)
        ensures
            r == (match client_state {
                BobClientState::V1(v1) => v1.latest_height,
                BobClientState::V2(v2) => v2.latest_height,
            }),
    {
        match client_state {
            BobClientState::V1(v1) => v1.latest_height,
            BobClientState::V2(v2) => v2.latest_height,
        }
    }

    /// The chain id of the tracked chain, in either layout.
    pub fn get_counterparty_chain_id(client_state: &BobClientState) -> (r: String)
        ensures
            r@ == (match client_state {
                BobClientState::V1(v1) => v1.chain_id@,
                BobClientState::V2(v2) => v2.chain_id@,
            }),
    {
        match client_state {
            BobClientState::V1(v1) => v1.chain_id.clone(),
            BobClientState::V2(v2) => v2.chain_id.clone(),
        }
    }

    /// The client's status; a bob client on its own is always active.
    pub fn status(client_state: &BobClientState) -> (r: Status)
        ensures
            r == Status::Active,
    {
        let _ = client_state;
        Status::Active
    }

    /// Builds the state update an admitted header yields, once its account
    /// proof was verified against the L1 state root: a consensus state at
    /// the L2 block number, and an advanced client state where the header
    /// went past the latest height. Header times are submitted in seconds
    /// and must fit the nanosecond scale.
    pub fn update_from_header(client_state: &BobClientStateV2, h: &BobHeader) -> (r: BobStateUpdate)
        requires
            h.l2_timestamp <= u64::MAX / NANOS_PER_SECOND,
        ensures
            r.height == h.l2_number,
            r.consensus_state.timestamp == h.l2_timestamp * NANOS_PER_SECOND,
            r.consensus_state.state_root@ == h.l2_state_root@,
            r.consensus_state.ibc_storage_root@ == h.l2_storage_root@,
            if client_state.latest_height < h.l2_number {
                (r.client_state matches Some(ncs) && ncs.latest_height == h.l2_number
                    && ncs.chain_id@ == client_state.chain_id@ && ncs.l1_client_id
                    == client_state.l1_client_id)
            } else {
                r.client_state is None
            },
    {
        let consensus_state = BobConsensusState {
            timestamp: h.l2_timestamp * NANOS_PER_SECOND,
            state_root: copy_bytes(&h.l2_state_root),
            ibc_storage_root: copy_bytes(&h.l2_storage_root),
        };
        let client_state_out = if client_state.latest_height < h.l2_number {
            Some(BobClientStateV2 {
                chain_id: client_state.chain_id.clone(),
                latest_height: h.l2_number,
                l1_client_id: client_state.l1_client_id,
            })
        } else {
            None
        };
        BobStateUpdate {
            height: h.l2_number,
            consensus_state,
            client_state: client_state_out,
        }
    }
}

} // verus!
