//! The light-client registry: per-client records and the deterministic
//! client implementation the registry dispatches.

use vstd::prelude::*;

use crate::types::Status;

verus! {

/// A deterministic light-client implementation. It reports a configured
/// latest height and a height-independent consensus timestamp, and accepts
/// or rejects every proof as configured. It stands in for proof-verifying
/// clients in closed deployments and in tests; the registry dispatches it
/// behind a `client_type` tag.
pub struct FixedClient {
    /// The counterparty height this client considers latest.
    pub latest_height: u64,
    /// The timestamp this client reports for every consensus state.
    pub timestamp: u64,
    /// The verdict this client gives every membership proof.
    pub membership_ok: bool,
    /// The verdict this client gives every non-membership proof.
    pub non_membership_ok: bool,
    /// Whether the client has been frozen by misbehaviour.
    pub frozen: bool,
    /// The chain id of the counterparty this client tracks.
    pub counterparty_chain_id: String,
}

impl FixedClient {
    /// Verifies that `value` stands at `key` on the counterparty at
    /// `height`: the verdict is the configured one, whatever the proof.
    pub fn verify_membership(&self, height: u64, key: &Vec<u8>, proof: &Vec<u8>, value: &Vec<u8>) -> (r: bool)
        ensures
            r == self.membership_ok,
    {
        let _ = height;
        let _ = key;
        let _ = proof;
        let _ = value;
        self.membership_ok
    }

    /// Verifies that nothing stands at `key` on the counterparty at
    /// `height`: the verdict is the configured one, whatever the proof.
    pub fn verify_non_membership(&self, height: u64, key: &Vec<u8>, proof: &Vec<u8>) -> (r: bool)
        ensures
            r == self.non_membership_ok,
    {
        let _ = height;
        let _ = key;
        let _ = proof;
        self.non_membership_ok
    }

    /// The counterparty timestamp of the consensus state at `height`.
    pub fn get_timestamp(&self, height: u64) -> (r: u64)
        ensures
            r == self.timestamp,
    {
        let _ = height;
        self.timestamp
    }

    /// The latest counterparty height this client knows.
    pub fn get_latest_height(&self) -> (r: u64)
        ensures
            r == self.latest_height,
    {
        self.latest_height
    }

    /// The client's own status.
    pub fn status(&self) -> (r: Status)
        ensures
            r == (if self.frozen { Status::Frozen } else { Status::Active }),
    {
        if self.frozen {
            Status::Frozen
        } else {
            Status::Active
        }
    }
}

/// One registered client: its type tag, its implementation, the chain id it
/// reported at creation, and the consensus-state cache, read-only after
/// write.
pub struct ClientRecord {
    pub client_type: String,
    pub client: FixedClient,
    pub counterparty_chain_id: String,
    /// The heights at which a consensus state is cached.
    pub consensus_heights: Vec<u64>,
    /// The cached consensus timestamp at each height, parallel to
    /// `consensus_heights`.
    pub consensus_timestamps: Vec<u64>,
}

impl ClientRecord {
    /// The cache holds one timestamp per height.
    pub open spec fn wf(self) -> bool {
        &&& self.consensus_heights@.len() == self.consensus_timestamps@.len()
        &&& forall|i: int, j: int|
            0 <= i < j < self.consensus_heights@.len()
                ==> self.consensus_heights@[i] != self.consensus_heights@[j]
    }

    /// Whether a consensus state is cached at `height`.
    pub open spec fn spec_has_consensus(self, height: u64) -> bool {
        exists|i: int| 0 <= i < self.consensus_heights@.len() && self.consensus_heights@[i] == height
    }

    /// The cached consensus timestamp at `height`.
    pub open spec fn spec_consensus_at(self, height: u64) -> u64 {
        let i = choose|i: int|
            0 <= i < self.consensus_heights@.len() && self.consensus_heights@[i] == height;
        self.consensus_timestamps@[i]
    }

    /// Looks the cache up at `height`.
    pub fn consensus_at(&self, height: u64) -> (r: Option<u64>)
        requires
            self.wf(),
        ensures
            match r {
                Some(t) => self.spec_has_consensus(height) && t == self.spec_consensus_at(height),
                None => !self.spec_has_consensus(height),
            },
    {
        let n = self.consensus_heights.len();
        let mut i: usize = 0;
        while i < n
            invariant
                self.wf(),
                n == self.consensus_heights@.len(),
                i <= n,
                forall|j: int| 0 <= j < i ==> self.consensus_heights@[j] != height,
            decreases n - i,
        {
            if self.consensus_heights[i] == height {
                return Some(self.consensus_timestamps[i]);
            }
            i = i + 1;
        }
        None
    }
}

} // verus!
