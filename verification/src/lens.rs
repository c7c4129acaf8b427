//! Mapping a decoded lens-client creation log into the indexer's block
//! event: every named attribute must be present, and the event carries
//! them unchanged.

use vstd::prelude::*;

verus! {

/// The block cursor of a decoded log.
#[derive(Clone, Copy, PartialEq, Eq, Structural)]
pub struct BlockHeader {
    pub height: u64,
    pub time: u64,
}

/// A decoded chain log, with each attribute the mapping reads; an absent
/// attribute makes the mapping fail.
pub struct Decoder {
    pub header: Option<BlockHeader>,
    pub client_id: Option<u32>,
    pub l1_client_id: Option<u32>,
    pub l2_client_id: Option<u32>,
    pub l2_chain_id: Option<String>,
}

/// The creation of a lens client, as the indexer stores it.
pub struct CreateLensClientEvent {
    pub header: BlockHeader,
    pub client_id: u32,
    pub l1_client_id: u32,
    pub l2_client_id: u32,
    pub l2_chain_id: String,
}

/// A block event the indexer supports.
pub enum SupportedBlockEvent {
    CreateLensClient { inner: CreateLensClientEvent },
}

/// Why a log could not be mapped: the first missing attribute, in the
/// order the mapping reads them.
#[derive(Debug)]
pub enum IndexerError {
    MissingHeader,
    MissingClientId,
    MissingL1ClientId,
    MissingL2ClientId,
    MissingL2ChainId,
}

/// Why mapping a log fails, if it does.
pub open spec fn spec_lens_err(log: Decoder) -> Option<IndexerError> {
    if log.header is None {
        Some(IndexerError::MissingHeader)
    } else if log.client_id is None {
        Some(IndexerError::MissingClientId)
    } else if log.l1_client_id is None {
        Some(IndexerError::MissingL1ClientId)
    } else if log.l2_client_id is None {
        Some(IndexerError::MissingL2ClientId)
    } else if log.l2_chain_id is None {
        Some(IndexerError::MissingL2ChainId)
    } else {
        None
    }
}

/// The fetcher that maps decoded chain logs into indexer events.
pub struct TmFetcherClient;

impl TmFetcherClient {
    /// Maps a decoded lens-client creation log into the single block event
    /// it stands for, carrying every attribute through unchanged.
    pub fn to_create_lens_client(&self, log: &Decoder) -> (r: Result<
        Vec<SupportedBlockEvent>,
        IndexerError,
    >)
        ensures
            match r {
                Ok(evs) => {
                    &&& spec_lens_err(*log) is None
                    &&& evs@.len() == 1
                    &&& evs@[0] matches SupportedBlockEvent::CreateLensClient { inner }
                        && Some(inner.header) == log.header && Some(inner.client_id)
                        == log.client_id && Some(inner.l1_client_id) == log.l1_client_id
                        && Some(inner.l2_client_id) == log.l2_client_id
                        && (log.l2_chain_id matches Some(c) && inner.l2_chain_id@ == c@)
                },
                Err(e) => Some(e) == spec_lens_err(*log),
            },
    {
        let header = match &log.header {
            Some(h) => *h,
            None => {
                return Err(IndexerError::MissingHeader);
            },
        };
        let client_id = match log.client_id {
            Some(v) => v,
            None => {
                return Err(IndexerError::MissingClientId);
            },
        };
        let l1_client_id = match log.l1_client_id {
            Some(v) => v,
            None => {
                return Err(IndexerError::MissingL1ClientId);
            },
        };
        let l2_client_id = match log.l2_client_id {
            Some(v) => v,
            None => {
                return Err(IndexerError::MissingL2ClientId);
            },
        };
        let l2_chain_id = match &log.l2_chain_id {
            Some(c) => c.clone(),
            None => {
                return Err(IndexerError::MissingL2ChainId);
            },
        };
        let mut evs: Vec<SupportedBlockEvent> = Vec::new();
        evs.push(SupportedBlockEvent::CreateLensClient {
            inner: CreateLensClientEvent {
                header,
                client_id,
                l1_client_id,
                l2_client_id,
                l2_chain_id,
            },
        });
        Ok(evs)
    }
}

} // verus!
