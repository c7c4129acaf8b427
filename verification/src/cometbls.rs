//! The cometbls light client: header admission, misbehaviour handling and
//! state updates over modelled client, consensus and header data. The
//! zero-knowledge proof itself is checked by a separate verifier; its
//! verdict enters these functions as an argument, and every rule around it
//! is proved.

use vstd::prelude::*;

use crate::bytes::{copy_bytes, push_bytes, push_u64_be, spec_u64_be};
use crate::types::Status;

verus! {

/// The client state of a cometbls client.
pub struct CometblsClientState {
    /// The chain id of the tracked chain.
    pub chain_id: String,
    /// How long a consensus state stays trusted, in nanoseconds.
    pub trusting_period: u64,
    /// The tolerated clock drift of signed headers, in nanoseconds.
    pub max_clock_drift: u64,
    /// Non-zero once the client was frozen by misbehaviour.
    pub frozen_height: u64,
    /// The highest height a verified header reached.
    pub latest_height: u64,
    /// The core contract's address on the tracked chain.
    pub contract_address: Vec<u8>,
}

/// One verified consensus state of a cometbls client.
pub struct CometblsConsensusState {
    /// The header time, in nanoseconds.
    pub timestamp: u64,
    /// The application hash of the tracked chain at this height.
    pub app_hash: Vec<u8>,
    /// The hash of the validator set of the next height.
    pub next_validators_hash: Vec<u8>,
}

/// The provable content of a submitted cometbls header.
pub struct CometblsHeader {
    /// The signed header's height.
    pub signed_height: u64,
    /// The signed header's time, in nanoseconds.
    pub signed_time: u64,
    /// The signed header's application hash.
    pub signed_app_hash: Vec<u8>,
    /// The hash of the validator set that signed.
    pub signed_validators_hash: Vec<u8>,
    /// The hash of the validator set of the following height.
    pub signed_next_validators_hash: Vec<u8>,
    /// The height whose consensus state the proof trusts.
    pub trusted_height: u64,
}

/// Everything cometbls header or misbehaviour handling can fail with.
#[derive(Debug)]
pub enum CometblsError {
    /// The signed height does not exceed the trusted height.
    SignedHeaderHeightMustBeMoreRecent { signed_height: u64, trusted_height: u64 },
    /// The signed time does not exceed the trusted consensus time.
    SignedHeaderTimestampMustBeMoreRecent { signed_timestamp: u64, trusted_timestamp: u64 },
    /// The trusted consensus state has left its trusting period.
    HeaderExpired { trusted_timestamp: u64 },
    /// An arithmetic step would overflow.
    MathOverflow,
    /// The signed time lies too far past the host clock.
    SignedHeaderCannotExceedMaxClockDrift { signed_timestamp: u64 },
    /// An adjacent header names a validator set other than the trusted one.
    InvalidValidatorsHash,
    /// The zero-knowledge proof verifier rejected the header.
    InvalidZkp,
    /// The second header of a misbehaviour report is more recent than the
    /// first.
    InvalidMisbehaviourHeaderSequence,
    /// The two reported headers do not contradict each other.
    MisbehaviourNotFound,
}

/// What verifying a header yields: a consensus state at a height, and a
/// new client state where the header advanced the latest height.
pub struct CometblsStateUpdate {
    pub height: u64,
    pub consensus_state: CometblsConsensusState,
    pub client_state: Option<CometblsClientState>,
}

/// Whether a consensus state written at `consensus_timestamp` has left the
/// trusting period by `now`.
pub open spec fn spec_client_expired(
    consensus_timestamp: u64,
    trusting_period: u64,
    now: u64,
) -> bool {
    consensus_timestamp + trusting_period > u64::MAX || consensus_timestamp + trusting_period < now
}

/// Tests whether the trusting period has run out, treating an overflowing
/// sum as expired.
pub fn is_client_expired(consensus_timestamp: u64, trusting_period: u64, now: u64) -> (r: bool)
    ensures
        r == spec_client_expired(consensus_timestamp, trusting_period, now),
{
    match consensus_timestamp.checked_add(trusting_period) {
        Some(sum) => sum < now,
        None => true,
    }
}

/// Why a header is rejected, if it is; `zkp_ok` is the verdict of the
/// zero-knowledge proof verifier on the signed header.
pub open spec fn spec_check_header_err(
    cs: CometblsClientState,
    trusted: CometblsConsensusState,
    h: CometblsHeader,
    now: u64,
    zkp_ok: bool,
) -> Option<CometblsError> {
    if h.signed_height <= h.trusted_height {
        Some(CometblsError::SignedHeaderHeightMustBeMoreRecent {
            signed_height: h.signed_height,
            trusted_height: h.trusted_height,
        })
    } else if h.signed_time <= trusted.timestamp {
        Some(CometblsError::SignedHeaderTimestampMustBeMoreRecent {
            signed_timestamp: h.signed_time,
            trusted_timestamp: trusted.timestamp,
        })
    } else if spec_client_expired(trusted.timestamp, cs.trusting_period, now) {
        Some(CometblsError::HeaderExpired { trusted_timestamp: trusted.timestamp })
    } else if now + cs.max_clock_drift > u64::MAX {
        Some(CometblsError::MathOverflow)
    } else if h.signed_time >= now + cs.max_clock_drift {
        Some(CometblsError::SignedHeaderCannotExceedMaxClockDrift {
            signed_timestamp: h.signed_time,
        })
    } else if h.signed_height == h.trusted_height + 1 && h.signed_validators_hash@
        != trusted.next_validators_hash@ {
        Some(CometblsError::InvalidValidatorsHash)
    } else if !zkp_ok {
        Some(CometblsError::InvalidZkp)
    } else {
        None
    }
}

/// Admits or rejects a header against the trusted consensus state: the
/// height and time must advance, the trusted state must still be within
/// its trusting period, the signed time must not outrun the host clock by
/// more than the tolerated drift, an adjacent header must carry the
/// trusted validator set, and the proof verdict must be positive.
pub fn check_header(
    cs: &CometblsClientState,
    trusted: &CometblsConsensusState,
    h: &CometblsHeader,
    now: u64,
    zkp_ok: bool,
) -> (r: Result<(), CometblsError>)
    ensures
        match r {
            Ok(()) => spec_check_header_err(*cs, *trusted, *h, now, zkp_ok) is None,
            Err(e) => Some(e) == spec_check_header_err(*cs, *trusted, *h, now, zkp_ok),
        },
{
    if h.signed_height <= h.trusted_height {
        return Err(CometblsError::SignedHeaderHeightMustBeMoreRecent {
            signed_height: h.signed_height,
            trusted_height: h.trusted_height,
        });
    }
    if h.signed_time <= trusted.timestamp {
        return Err(CometblsError::SignedHeaderTimestampMustBeMoreRecent {
            signed_timestamp: h.signed_time,
            trusted_timestamp: trusted.timestamp,
        });
    }
    if is_client_expired(trusted.timestamp, cs.trusting_period, now) {
        return Err(CometblsError::HeaderExpired { trusted_timestamp: trusted.timestamp });
    }
    let max_drift_deadline = match now.checked_add(cs.max_clock_drift) {
        Some(v) => v,
        None => {
            return Err(CometblsError::MathOverflow);
        },
    };
    if h.signed_time >= max_drift_deadline {
        return Err(CometblsError::SignedHeaderCannotExceedMaxClockDrift {
            signed_timestamp: h.signed_time,
        });
    }
    if h.signed_height == h.trusted_height + 1 {
        if !crate::bytes::bytes_eq(&h.signed_validators_hash, &trusted.next_validators_hash) {
            return Err(CometblsError::InvalidValidatorsHash);
        }
    }
    if !zkp_ok {
        return Err(CometblsError::InvalidZkp);
    }
    Ok(())
}

/// Builds the state update an admitted header yields: its consensus state
/// at the signed height, and a client state with an advanced latest height
/// where the header went past it.
pub fn update_state(cs: &CometblsClientState, h: &CometblsHeader) -> (r: CometblsStateUpdate)
    ensures
        r.height == h.signed_height,
        r.consensus_state.timestamp == h.signed_time,
        r.consensus_state.app_hash@ == h.signed_app_hash@,
        r.consensus_state.next_validators_hash@ == h.signed_next_validators_hash@,
        if h.signed_height > cs.latest_height {
            (r.client_state matches Some(ncs) && ncs.latest_height == h.signed_height
                && ncs.chain_id@ == cs.chain_id@ && ncs.trusting_period == cs.trusting_period
                && ncs.max_clock_drift == cs.max_clock_drift && ncs.frozen_height
                == cs.frozen_height && ncs.contract_address@ == cs.contract_address@)
        } else {
            r.client_state is None
        },
{
    let consensus_state = CometblsConsensusState {
        timestamp: h.signed_time,
        app_hash: copy_bytes(&h.signed_app_hash),
        next_validators_hash: copy_bytes(&h.signed_next_validators_hash),
    };
    let client_state = if h.signed_height > cs.latest_height {
        Some(CometblsClientState {
            chain_id: cs.chain_id.clone(),
            trusting_period: cs.trusting_period,
            max_clock_drift: cs.max_clock_drift,
            frozen_height: cs.frozen_height,
            latest_height: h.signed_height,
            contract_address: copy_bytes(&cs.contract_address),
        })
    } else {
        None
    };
    CometblsStateUpdate { height: h.signed_height, consensus_state, client_state }
}

/// Why a misbehaviour report is rejected, if it is.
pub open spec fn spec_misbehaviour_err(
    cs: CometblsClientState,
    trusted_a: CometblsConsensusState,
    trusted_b: CometblsConsensusState,
    a: CometblsHeader,
    b: CometblsHeader,
    now: u64,
    zkp_ok_a: bool,
    zkp_ok_b: bool,
) -> Option<CometblsError> {
    if a.signed_height < b.signed_height {
        Some(CometblsError::InvalidMisbehaviourHeaderSequence)
    } else if spec_check_header_err(cs, trusted_a, a, now, zkp_ok_a) is Some {
        spec_check_header_err(cs, trusted_a, a, now, zkp_ok_a)
    } else if spec_check_header_err(cs, trusted_b, b, now, zkp_ok_b) is Some {
        spec_check_header_err(cs, trusted_b, b, now, zkp_ok_b)
    } else if a.signed_height == b.signed_height && !(a.signed_time == b.signed_time
        && a.signed_app_hash@ == b.signed_app_hash@ && a.signed_validators_hash@
        == b.signed_validators_hash@ && a.signed_next_validators_hash@
        == b.signed_next_validators_hash@) {
        None
    } else if a.signed_height != b.signed_height && a.signed_time <= b.signed_time {
        None
    } else {
        Some(CometblsError::MisbehaviourNotFound)
    }
}

/// Checks a misbehaviour report: two individually valid headers that
/// contradict each other — equal heights with different content, or a
/// later height with a time no later. `Ok` means the client must freeze.
pub fn verify_misbehaviour(
    cs: &CometblsClientState,
    trusted_a: &CometblsConsensusState,
    trusted_b: &CometblsConsensusState,
    a: &CometblsHeader,
    b: &CometblsHeader,
    now: u64,
    zkp_ok_a: bool,
    zkp_ok_b: bool,
) -> (r: Result<(), CometblsError>)
    ensures
        match r {
            Ok(()) => spec_misbehaviour_err(
                *cs,
                *trusted_a,
                *trusted_b,
                *a,
                *b,
                now,
                zkp_ok_a,
                zkp_ok_b,
            ) is None,
            Err(e) => Some(e) == spec_misbehaviour_err(
                *cs,
                *trusted_a,
                *trusted_b,
                *a,
                *b,
                now,
                zkp_ok_a,
                zkp_ok_b,
            ),
        },
{
    if a.signed_height < b.signed_height {
        return Err(CometblsError::InvalidMisbehaviourHeaderSequence);
    }
    if let Err(e) = check_header(cs, trusted_a, a, now, zkp_ok_a) {
        return Err(e);
    }
    if let Err(e) = check_header(cs, trusted_b, b, now, zkp_ok_b) {
        return Err(e);
    }
    if a.signed_height == b.signed_height {
        let same = a.signed_time == b.signed_time && crate::bytes::bytes_eq(
            &a.signed_app_hash,
            &b.signed_app_hash,
        ) && crate::bytes::bytes_eq(&a.signed_validators_hash, &b.signed_validators_hash)
            && crate::bytes::bytes_eq(
            &a.signed_next_validators_hash,
            &b.signed_next_validators_hash,
        );
        if !same {
            return Ok(());
        }
    } else if a.signed_time <= b.signed_time {
        return Ok(());
    }
    Err(CometblsError::MisbehaviourNotFound)
}

/// A cometbls light-client instance; every capability is a method.
pub struct CometblsLightClient;

impl CometblsLightClient {
    /// The timestamp of a consensus state.
    pub fn get_timestamp(consensus_state: &CometblsConsensusState) -> (r: u64)
        ensures
            r == consensus_state.timestamp,
    {
        consensus_state.timestamp
    }

    /// The latest height the client reached.
    pub fn get_latest_height(client_state: &CometblsClientState) -> (r: u64)
        ensures
            r == client_state.latest_height,
    {
        client_state.latest_height
    }

    /// The chain id of the tracked chain.
    pub fn get_counterparty_chain_id(client_state: &CometblsClientState) -> (r: String)
        ensures
            r@ == client_state.chain_id@,
    {
        client_state.chain_id.clone()
    }

    /// The client's status: frozen once misbehaviour was proven, expired
    /// without a live consensus state within the trusting period, active
    /// otherwise.
    pub fn status(
        client_state: &CometblsClientState,
        latest_consensus: Option<&CometblsConsensusState>,
        now: u64,
    ) -> (r: Status)
        ensures
            r == (if client_state.frozen_height != 0 {
                Status::Frozen
            } else {
                match latest_consensus {
                    None => Status::Expired,
                    Some(c) => if spec_client_expired(
                        c.timestamp,
                        client_state.trusting_period,
                        now,
                    ) {
                        Status::Expired
                    } else {
                        Status::Active
                    },
                }
            }),
    {
        if client_state.frozen_height != 0 {
            return Status::Frozen;
        }
        match latest_consensus {
            None => Status::Expired,
            Some(c) => {
                if is_client_expired(c.timestamp, client_state.trusting_period, now) {
                    Status::Expired
                } else {
                    Status::Active
                }
            },
        }
    }

    /// Verifies a header. A height that already carries a consensus state
    /// is a no-op returning that state; otherwise the header is checked
    /// and the update built. `zkp_ok` is the proof verifier's verdict.
    pub fn verify_header(
        client_state: &CometblsClientState,
        trusted: &CometblsConsensusState,
        existing_at_height: Option<&CometblsConsensusState>,
        h: &CometblsHeader,
        now: u64,
        zkp_ok: bool,
    ) -> (r: Result<CometblsStateUpdate, CometblsError>)
        ensures
            match r {
                Ok(up) => match existing_at_height {
                    Some(c) => up.height == h.signed_height && up.consensus_state.timestamp
                        == c.timestamp && up.consensus_state.app_hash@ == c.app_hash@
                        && up.consensus_state.next_validators_hash@ == c.next_validators_hash@
                        && up.client_state is None,
                    None => spec_check_header_err(*client_state, *trusted, *h, now, zkp_ok)
                        is None && up.height == h.signed_height && up.consensus_state.timestamp
                        == h.signed_time,
                },
                Err(e) => existing_at_height is None && Some(e) == spec_check_header_err(
                    *client_state,
                    *trusted,
                    *h,
                    now,
                    zkp_ok,
                ),
            },
    {
        if let Some(c) = existing_at_height {
            return Ok(CometblsStateUpdate {
                height: h.signed_height,
                consensus_state: CometblsConsensusState {
                    timestamp: c.timestamp,
                    app_hash: copy_bytes(&c.app_hash),
                    next_validators_hash: copy_bytes(&c.next_validators_hash),
                },
                client_state: None,
            });
        }
        if let Err(e) = check_header(client_state, trusted, h, now, zkp_ok) {
            return Err(e);
        }
        Ok(update_state(client_state, h))
    }

    /// Handles a proven misbehaviour report: the client state comes back
    /// frozen at height one.
    pub fn misbehaviour(
        client_state: &CometblsClientState,
        trusted_a: &CometblsConsensusState,
        trusted_b: &CometblsConsensusState,
        a: &CometblsHeader,
        b: &CometblsHeader,
        now: u64,
        zkp_ok_a: bool,
        zkp_ok_b: bool,
    ) -> (r: Result<CometblsClientState, CometblsError>)
        ensures
            match r {
                Ok(frozen) => spec_misbehaviour_err(
                    *client_state,
                    *trusted_a,
                    *trusted_b,
                    *a,
                    *b,
                    now,
                    zkp_ok_a,
                    zkp_ok_b,
                ) is None && frozen.frozen_height == 1 && frozen.chain_id@
                    == client_state.chain_id@ && frozen.latest_height
                    == client_state.latest_height && frozen.trusting_period
                    == client_state.trusting_period && frozen.max_clock_drift
                    == client_state.max_clock_drift && frozen.contract_address@
                    == client_state.contract_address@,
                Err(e) => Some(e) == spec_misbehaviour_err(
                    *client_state,
                    *trusted_a,
                    *trusted_b,
                    *a,
                    *b,
                    now,
                    zkp_ok_a,
                    zkp_ok_b,
                ),
            },
    {
        if let Err(e) = verify_misbehaviour(
            client_state,
            trusted_a,
            trusted_b,
            a,
            b,
            now,
            zkp_ok_a,
            zkp_ok_b,
        ) {
            return Err(e);
        }
        Ok(CometblsClientState {
            chain_id: client_state.chain_id.clone(),
            trusting_period: client_state.trusting_period,
            max_clock_drift: client_state.max_clock_drift,
            frozen_height: 1,
            latest_height: client_state.latest_height,
            contract_address: copy_bytes(&client_state.contract_address),
        })
    }

    /// The raw store key whose membership a proof must show, inside the
    /// tracked chain's wasm module store: the contract store prefix, the
    /// contract address, the commitment namespace and the commitment path.
    pub fn membership_key(contract_address: &Vec<u8>, path: &Vec<u8>) -> (r: Vec<u8>)
        ensures
            r@ == spec_membership_key(contract_address@, path@),
    {
        let mut out: Vec<u8> = Vec::new();
        out.push(WASMD_CONTRACT_STORE_PREFIX);
        push_bytes(&mut out, contract_address);
        push_u64_be(&mut out, COMMITMENT_NAMESPACE);
        push_bytes(&mut out, path);
        proof {
            assert(out@ =~= spec_membership_key(contract_address@, path@));
        }
        out
    }
}

/// The prefix of contract storage inside the wasm module store.
pub const WASMD_CONTRACT_STORE_PREFIX: u8 = 0x03;

/// The namespace under which the core contract keeps its commitments.
pub const COMMITMENT_NAMESPACE: u64 = 1;

/// The raw store key of a commitment path within the tracked chain's wasm
/// store.
pub open spec fn spec_membership_key(contract_address: Seq<u8>, path: Seq<u8>) -> Seq<u8> {
    seq![WASMD_CONTRACT_STORE_PREFIX] + contract_address + spec_u64_be(COMMITMENT_NAMESPACE) + path
}

} // verus!
