//! The contract host state: the registry, handshake records, the relayer
//! allowlist and the commitment store, with the client-registry
//! entrypoints.

use vstd::prelude::*;

use crate::client::{ClientRecord, FixedClient};
use crate::keys::{PACKET_ACK_TAG, PACKET_RECEIPT_TAG};
use crate::store::CommitmentStore;
use crate::types::{
    Channel, ChannelId, ChannelState, ClientId, Connection, ConnectionId, ConnectionState,
    ContractError, Event, Status,
};
use crate::msgs::{InitMsg, MsgCreateClient, MsgMisbehaviour, MsgRegisterClient, MsgUpdateClient};

verus! {

/// The whole state of one contract instance. Records are dense: the client,
/// connection and channel with id `i` sit at index `i - 1` and ids are never
/// reused.
pub struct IbcHost {
    /// The relayer allowlist, set at instantiation.
    pub relayers: Vec<String>,
    /// The admin that may rotate the allowlist; empty means immutable.
    pub relayers_admin: Option<String>,
    /// The client-type tags that have been registered.
    pub registered_types: Vec<String>,
    /// One record per created client.
    pub clients: Vec<ClientRecord>,
    /// One record per connection.
    pub connections: Vec<Connection>,
    /// One record per channel.
    pub channels: Vec<Channel>,
    /// The owning port of each channel, parallel to `channels`.
    pub channel_owners: Vec<String>,
    /// The keyed commitment store.
    pub commitments: CommitmentStore,
}

/// Every acknowledgement commitment in the store is preceded by a receipt
/// for the same packet hash.
pub open spec fn acks_have_receipts_map(m: Map<Seq<u8>, Seq<u8>>) -> bool {
    forall|k: Seq<u8>|
        #[trigger] m.contains_key(k) && k.len() >= 1 && k[0] == PACKET_ACK_TAG
            ==> m.contains_key(seq![PACKET_RECEIPT_TAG] + k.skip(1))
}

/// Every packet commitment and packet receipt holds the sentinel value.
pub open spec fn presence_values_magic(m: Map<Seq<u8>, Seq<u8>>) -> bool {
    forall|k: Seq<u8>|
        #[trigger] m.contains_key(k) && k.len() >= 1 && (k[0]
            == crate::keys::PACKET_COMMITMENT_TAG || k[0] == PACKET_RECEIPT_TAG)
            ==> m[k] == crate::hashing::spec_commitment_magic()
}

/// Inserting a key outside the acknowledgement family keeps the
/// receipt-before-acknowledgement invariant.
pub proof fn lemma_ahr_insert_other(m: Map<Seq<u8>, Seq<u8>>, k0: Seq<u8>, v: Seq<u8>)
    requires
        acks_have_receipts_map(m),
        k0.len() >= 1,
        k0[0] != PACKET_ACK_TAG,
    ensures
        acks_have_receipts_map(m.insert(k0, v)),
{
    let m1 = m.insert(k0, v);
    assert forall|k: Seq<u8>|
        #[trigger] m1.contains_key(k) && k.len() >= 1 && k[0] == PACKET_ACK_TAG implies
        m1.contains_key(seq![PACKET_RECEIPT_TAG] + k.skip(1)) by {
        assert(k != k0);
        assert(m.contains_key(k));
    }
}

/// Inserting an acknowledgement whose receipt is already present keeps the
/// receipt-before-acknowledgement invariant.
pub proof fn lemma_ahr_insert_ack(m: Map<Seq<u8>, Seq<u8>>, k0: Seq<u8>, v: Seq<u8>)
    requires
        acks_have_receipts_map(m),
        k0.len() >= 1,
        m.contains_key(seq![PACKET_RECEIPT_TAG] + k0.skip(1)),
    ensures
        acks_have_receipts_map(m.insert(k0, v)),
{
    let m1 = m.insert(k0, v);
    assert forall|k: Seq<u8>|
        #[trigger] m1.contains_key(k) && k.len() >= 1 && k[0] == PACKET_ACK_TAG implies
        m1.contains_key(seq![PACKET_RECEIPT_TAG] + k.skip(1)) by {
        let rk = seq![PACKET_RECEIPT_TAG] + k.skip(1);
        if k == k0 {
            assert(m.contains_key(rk));
        } else {
            assert(m.contains_key(k));
        }
        assert(rk[0] == PACKET_RECEIPT_TAG);
    }
}

/// Removing a key outside the acknowledgement and receipt families keeps
/// the receipt-before-acknowledgement invariant.
pub proof fn lemma_ahr_remove_other(m: Map<Seq<u8>, Seq<u8>>, k0: Seq<u8>)
    requires
        acks_have_receipts_map(m),
        k0.len() >= 1,
        k0[0] != PACKET_ACK_TAG,
        k0[0] != PACKET_RECEIPT_TAG,
    ensures
        acks_have_receipts_map(m.remove(k0)),
{
    let m1 = m.remove(k0);
    assert forall|k: Seq<u8>|
        #[trigger] m1.contains_key(k) && k.len() >= 1 && k[0] == PACKET_ACK_TAG implies
        m1.contains_key(seq![PACKET_RECEIPT_TAG] + k.skip(1)) by {
        assert(m.contains_key(k));
        let rk = seq![PACKET_RECEIPT_TAG] + k.skip(1);
        assert(m.contains_key(rk));
        assert(rk[0] == PACKET_RECEIPT_TAG);
        assert(rk != k0);
    }
}

/// Inserting the sentinel at any key keeps the sentinel-value invariant.
pub proof fn lemma_pvm_insert_magic(m: Map<Seq<u8>, Seq<u8>>, k0: Seq<u8>)
    requires
        presence_values_magic(m),
    ensures
        presence_values_magic(m.insert(k0, crate::hashing::spec_commitment_magic())),
{
}

/// Inserting a key outside the presence families keeps the sentinel-value
/// invariant.
pub proof fn lemma_pvm_insert_other(m: Map<Seq<u8>, Seq<u8>>, k0: Seq<u8>, v: Seq<u8>)
    requires
        presence_values_magic(m),
        k0.len() >= 1,
        k0[0] != crate::keys::PACKET_COMMITMENT_TAG,
        k0[0] != PACKET_RECEIPT_TAG,
    ensures
        presence_values_magic(m.insert(k0, v)),
{
    let m1 = m.insert(k0, v);
    assert forall|k: Seq<u8>|
        #[trigger] m1.contains_key(k) && k.len() >= 1 && (k[0]
            == crate::keys::PACKET_COMMITMENT_TAG || k[0] == PACKET_RECEIPT_TAG) implies
        m1[k] == crate::hashing::spec_commitment_magic() by {
        assert(k != k0);
        assert(m.contains_key(k));
    }
}

/// Removing any key keeps the sentinel-value invariant.
pub proof fn lemma_pvm_remove(m: Map<Seq<u8>, Seq<u8>>, k0: Seq<u8>)
    requires
        presence_values_magic(m),
    ensures
        presence_values_magic(m.remove(k0)),
{
}

impl IbcHost {
    /// Every acknowledgement commitment is preceded by a receipt for the
    /// same packet hash.
    pub open spec fn acks_have_receipts(self) -> bool {
        acks_have_receipts_map(self.commitments@)
    }

    /// Well-formedness: the store keys are unique, sidecars run parallel to
    /// their records, every stored id points at an existing record, and the
    /// receipt-before-acknowledgement invariant holds.
    pub open spec fn wf(self) -> bool {
        &&& self.commitments.wf()
        &&& self.channels@.len() == self.channel_owners@.len()
        &&& self.channels@.len() <= u32::MAX
        &&& self.connections@.len() <= u32::MAX
        &&& self.clients@.len() <= u32::MAX
        &&& forall|i: int|
            0 <= i < self.clients@.len() ==> (#[trigger] self.clients@[i]).wf()
        &&& forall|i: int|
            0 <= i < self.channels@.len() ==> 1 <= (#[trigger] self.channels@[i]).connection_id
                <= self.connections@.len()
        &&& forall|i: int|
            0 <= i < self.connections@.len() ==> 1 <= (#[trigger] self.connections@[i]).client_id
                <= self.clients@.len()
        &&& self.acks_have_receipts()
        &&& presence_values_magic(self.commitments@)
    }

    /// Whether a client with this id exists.
    pub open spec fn has_client(self, id: ClientId) -> bool {
        1 <= id <= self.clients@.len()
    }

    /// The record of client `id`.
    pub open spec fn client_at(self, id: ClientId) -> ClientRecord {
        self.clients@[id - 1]
    }

    /// Whether a connection with this id exists.
    pub open spec fn has_connection(self, id: ConnectionId) -> bool {
        1 <= id <= self.connections@.len()
    }

    /// The record of connection `id`.
    pub open spec fn connection_at(self, id: ConnectionId) -> Connection {
        self.connections@[id - 1]
    }

    /// Whether a channel with this id exists.
    pub open spec fn has_channel(self, id: ChannelId) -> bool {
        1 <= id <= self.channels@.len()
    }

    /// The record of channel `id`.
    pub open spec fn channel_at(self, id: ChannelId) -> Channel {
        self.channels@[id - 1]
    }

    /// The owning port of channel `id`.
    pub open spec fn owner_at(self, id: ChannelId) -> Seq<char> {
        self.channel_owners@[id - 1]@
    }

    /// Whether channel `id` exists and is open.
    pub open spec fn channel_open(self, id: ChannelId) -> bool {
        self.has_channel(id) && self.channel_at(id).state == ChannelState::Open
    }

    /// Whether this caller is on the relayer allowlist.
    pub open spec fn is_relayer(self, caller: Seq<char>) -> bool {
        exists|i: int| 0 <= i < self.relayers@.len() && self.relayers@[i]@ == caller
    }

    /// Whether this client-type tag has been registered.
    pub open spec fn type_registered(self, t: Seq<char>) -> bool {
        exists|i: int| 0 <= i < self.registered_types@.len() && self.registered_types@[i]@ == t
    }

    /// Everything but the commitment store is the same in `a` and `b`.
    pub open spec fn same_except_commitments(a: IbcHost, b: IbcHost) -> bool {
        &&& a.relayers == b.relayers
        &&& a.relayers_admin == b.relayers_admin
        &&& a.registered_types == b.registered_types
        &&& a.clients == b.clients
        &&& a.connections == b.connections
        &&& a.channels == b.channels
        &&& a.channel_owners == b.channel_owners
    }

    /// Instantiates the contract with its allowlist; every other table is
    /// empty.
    pub fn init(msg: InitMsg) -> (r: IbcHost)
        ensures
            r.wf(),
            r.relayers == msg.relayers,
            r.relayers_admin == msg.relayers_admin,
            r.registered_types@.len() == 0,
            r.clients@.len() == 0,
            r.connections@.len() == 0,
            r.channels@.len() == 0,
            r.commitments@ =~= Map::<Seq<u8>, Seq<u8>>::empty(),
    {
        IbcHost {
            relayers: msg.relayers,
            relayers_admin: msg.relayers_admin,
            registered_types: Vec::new(),
            clients: Vec::new(),
            connections: Vec::new(),
            channels: Vec::new(),
            channel_owners: Vec::new(),
            commitments: CommitmentStore::new(),
        }
    }

    /// Tests the allowlist for a caller.
    pub fn check_relayer(&self, caller: &String) -> (r: bool)
        ensures
            r == self.is_relayer(caller@),
    {
        let n = self.relayers.len();
        let mut i: usize = 0;
        while i < n
            invariant
                n == self.relayers@.len(),
                i <= n,
                forall|j: int| 0 <= j < i ==> self.relayers@[j]@ != caller@,
            decreases n - i,
        {
            if self.relayers[i].eq(caller) {
                return true;
            }
            i = i + 1;
        }
        false
    }

    /// Tests whether a client-type tag is registered.
    fn check_type_registered(&self, t: &String) -> (r: bool)
        ensures
            r == self.type_registered(t@),
    {
        let n = self.registered_types.len();
        let mut i: usize = 0;
        while i < n
            invariant
                n == self.registered_types@.len(),
                i <= n,
                forall|j: int| 0 <= j < i ==> self.registered_types@[j]@ != t@,
            decreases n - i,
        {
            if self.registered_types[i].eq(t) {
                return true;
            }
            i = i + 1;
        }
        false
    }

    /// Binds a client-type tag. Registering a tag twice is a no-op.
    pub fn register_client(&mut self, msg: MsgRegisterClient) -> (r: Result<Vec<Event>, ContractError>)
        requires
            old(self).wf(),
        ensures
            final(self).wf(),
            r is Ok,
            ({
                let evs = r->Ok_0;
                if old(self).type_registered(msg.client_type@) {
                    *final(self) == *old(self) && evs@.len() == 0
                } else {
                    &&& final(self).registered_types@ == old(self).registered_types@.push(msg.client_type)
                    &&& final(self).relayers == old(self).relayers
                    &&& final(self).relayers_admin == old(self).relayers_admin
                    &&& final(self).clients == old(self).clients
                    &&& final(self).connections == old(self).connections
                    &&& final(self).channels == old(self).channels
                    &&& final(self).channel_owners == old(self).channel_owners
                    &&& final(self).commitments == old(self).commitments
                    &&& evs@.len() == 1
                    &&& evs@[0] matches Event::ClientRegistered { client_type } && client_type@
                        == msg.client_type@
                }
            }),
    {
        if self.check_type_registered(&msg.client_type) {
            return Ok(Vec::new());
        }
        let name = msg.client_type.clone();
        self.registered_types.push(msg.client_type);
        let mut evs: Vec<Event> = Vec::new();
        evs.push(Event::ClientRegistered { client_type: name });
        Ok(evs)
    }

    /// Why creating a client fails, if it does.
    pub open spec fn spec_create_client_err(s: IbcHost, msg: MsgCreateClient) -> Option<ContractError> {
        if !s.type_registered(msg.client_type@) {
            Some(ContractError::ClientNotFound)
        } else if s.clients@.len() >= u32::MAX {
            Some(ContractError::MathOverflow)
        } else {
            None
        }
    }

    /// Creates a client of a registered type: allocates the next client id,
    /// stores the implementation and the chain id it reports, and caches
    /// its initial consensus state at its latest height.
    pub fn create_client(&mut self, msg: MsgCreateClient) -> (r: Result<Vec<Event>, ContractError>)
        requires
            old(self).wf(),
        ensures
            final(self).wf(),
            match r {
                Ok(evs) => {
                    &&& Self::spec_create_client_err(*old(self), msg) is None
                    &&& final(self).clients@.len() == old(self).clients@.len() + 1
                    &&& ({
                        let rec = final(self).clients@.last();
                        &&& rec.client_type@ == msg.client_type@
                        &&& rec.client == msg.client
                        &&& rec.counterparty_chain_id@ == msg.client.counterparty_chain_id@
                        &&& rec.consensus_heights@ == seq![msg.client.latest_height]
                        &&& rec.consensus_timestamps@ == seq![msg.client.timestamp]
                    })
                    &&& final(self).clients@ == old(self).clients@.push(final(self).clients@.last())
                    &&& final(self).relayers == old(self).relayers
                    &&& final(self).relayers_admin == old(self).relayers_admin
                    &&& final(self).registered_types == old(self).registered_types
                    &&& final(self).connections == old(self).connections
                    &&& final(self).channels == old(self).channels
                    &&& final(self).channel_owners == old(self).channel_owners
                    &&& final(self).commitments == old(self).commitments
                    &&& evs@.len() == 1
                    &&& evs@[0] matches Event::ClientCreated { client_id } && client_id
                        == old(self).clients@.len() + 1
                },
                Err(e) => {
                    &&& Some(e) == Self::spec_create_client_err(*old(self), msg)
                    &&& *final(self) == *old(self)
                },
            },
    {
        if !self.check_type_registered(&msg.client_type) {
            return Err(ContractError::ClientNotFound);
        }
        if self.clients.len() >= u32::MAX as usize {
            return Err(ContractError::MathOverflow);
        }
        let client_id: u32 = (self.clients.len() as u32) + 1;
        let chain_id = msg.client.counterparty_chain_id.clone();
        let mut heights: Vec<u64> = Vec::new();
        heights.push(msg.client.latest_height);
        let mut timestamps: Vec<u64> = Vec::new();
        timestamps.push(msg.client.timestamp);
        let rec = ClientRecord {
            client_type: msg.client_type,
            client: msg.client,
            counterparty_chain_id: chain_id,
            consensus_heights: heights,
            consensus_timestamps: timestamps,
        };
        self.clients.push(rec);
        let mut evs: Vec<Event> = Vec::new();
        evs.push(Event::ClientCreated { client_id });
        Ok(evs)
    }

    /// Why a client update fails, if it does.
    pub open spec fn spec_update_client_err(s: IbcHost, msg: MsgUpdateClient) -> Option<ContractError> {
        if !s.has_client(msg.client_id) {
            Some(ContractError::ClientNotFound)
        } else {
            None
        }
    }

    /// Installs a consensus state at the claimed height. If that height is
    /// already cached the operation is a no-op: the cache is read-only
    /// after write, and is never overwritten at the same height with
    /// different contents.
    pub fn update_client(&mut self, msg: MsgUpdateClient) -> (r: Result<Vec<Event>, ContractError>)
        requires
            old(self).wf(),
        ensures
            final(self).wf(),
            match r {
                Ok(evs) => {
                    &&& Self::spec_update_client_err(*old(self), msg) is None
                    &&& ({
                        let old_rec = old(self).client_at(msg.client_id);
                        if old_rec.spec_has_consensus(msg.height) {
                            *final(self) == *old(self) && evs@.len() == 0
                        } else {
                            let new_rec = final(self).client_at(msg.client_id);
                            &&& new_rec.consensus_heights@ == old_rec.consensus_heights@.push(msg.height)
                            &&& new_rec.consensus_timestamps@ == old_rec.consensus_timestamps@.push(msg.timestamp)
                            &&& new_rec.client.latest_height == (if msg.height
                                > old_rec.client.latest_height {
                                msg.height
                            } else {
                                old_rec.client.latest_height
                            })
                            &&& new_rec.client.timestamp == old_rec.client.timestamp
                            &&& new_rec.client.membership_ok == old_rec.client.membership_ok
                            &&& new_rec.client.non_membership_ok == old_rec.client.non_membership_ok
                            &&& new_rec.client.frozen == old_rec.client.frozen
                            &&& new_rec.client.counterparty_chain_id@ == old_rec.client.counterparty_chain_id@
                            &&& new_rec.client_type@ == old_rec.client_type@
                            &&& new_rec.counterparty_chain_id@ == old_rec.counterparty_chain_id@
                            &&& final(self).clients@ == old(self).clients@.update(
                                msg.client_id - 1,
                                new_rec,
                            )
                            &&& final(self).relayers == old(self).relayers
                            &&& final(self).relayers_admin == old(self).relayers_admin
                            &&& final(self).registered_types == old(self).registered_types
                            &&& final(self).connections == old(self).connections
                            &&& final(self).channels == old(self).channels
                            &&& final(self).channel_owners == old(self).channel_owners
                            &&& final(self).commitments == old(self).commitments
                            &&& evs@.len() == 1
                            &&& evs@[0] matches Event::ClientUpdated { client_id, height }
                                && client_id == msg.client_id && height == msg.height
                        }
                    })
                },
                Err(e) => {
                    &&& Some(e) == Self::spec_update_client_err(*old(self), msg)
                    &&& *final(self) == *old(self)
                },
            },
    {
        if msg.client_id < 1 || self.clients.len() < msg.client_id as usize {
            return Err(ContractError::ClientNotFound);
        }
        let idx = (msg.client_id - 1) as usize;
        if self.clients[idx].consensus_at(msg.height).is_some() {
            return Ok(Vec::new());
        }
        let rec = &self.clients[idx];
        let mut heights: Vec<u64> = Vec::new();
        let mut timestamps: Vec<u64> = Vec::new();
        let n = rec.consensus_heights.len();
        let mut i: usize = 0;
        while i < n
            invariant
                n == rec.consensus_heights@.len(),
                n == rec.consensus_timestamps@.len(),
                i <= n,
                heights@ =~= rec.consensus_heights@.subrange(0, i as int),
                timestamps@ =~= rec.consensus_timestamps@.subrange(0, i as int),
            decreases n - i,
        {
            heights.push(rec.consensus_heights[i]);
            timestamps.push(rec.consensus_timestamps[i]);
            i = i + 1;
        }
        proof {
            assert(heights@ =~= rec.consensus_heights@);
            assert(timestamps@ =~= rec.consensus_timestamps@);
        }
        heights.push(msg.height);
        timestamps.push(msg.timestamp);
        let new_latest = if msg.height > rec.client.latest_height {
            msg.height
        } else {
            rec.client.latest_height
        };
        let new_rec = ClientRecord {
            client_type: rec.client_type.clone(),
            client: FixedClient {
                latest_height: new_latest,
                timestamp: rec.client.timestamp,
                membership_ok: rec.client.membership_ok,
                non_membership_ok: rec.client.non_membership_ok,
                frozen: rec.client.frozen,
                counterparty_chain_id: rec.client.counterparty_chain_id.clone(),
            },
            counterparty_chain_id: rec.counterparty_chain_id.clone(),
            consensus_heights: heights,
            consensus_timestamps: timestamps,
        };
        self.clients.set(idx, new_rec);
        let mut evs: Vec<Event> = Vec::new();
        evs.push(Event::ClientUpdated { client_id: msg.client_id, height: msg.height });
        Ok(evs)
    }

    /// Why a misbehaviour report fails, if it does.
    pub open spec fn spec_misbehaviour_err(s: IbcHost, msg: MsgMisbehaviour) -> Option<ContractError> {
        if !s.has_client(msg.client_id) {
            Some(ContractError::ClientNotFound)
        } else {
            None
        }
    }

    /// Freezes a client against which misbehaviour was reported.
    pub fn misbehaviour(&mut self, msg: MsgMisbehaviour) -> (r: Result<Vec<Event>, ContractError>)
        requires
            old(self).wf(),
        ensures
            final(self).wf(),
            match r {
                Ok(evs) => {
                    &&& Self::spec_misbehaviour_err(*old(self), msg) is None
                    &&& ({
                        let old_rec = old(self).client_at(msg.client_id);
                        let new_rec = final(self).client_at(msg.client_id);
                        &&& new_rec.client.frozen == true
                        &&& new_rec.client.latest_height == old_rec.client.latest_height
                        &&& new_rec.client.timestamp == old_rec.client.timestamp
                        &&& new_rec.client.membership_ok == old_rec.client.membership_ok
                        &&& new_rec.client.non_membership_ok == old_rec.client.non_membership_ok
                        &&& new_rec.consensus_heights@ == old_rec.consensus_heights@
                        &&& new_rec.consensus_timestamps@ == old_rec.consensus_timestamps@
                        &&& final(self).clients@ == old(self).clients@.update(
                            msg.client_id - 1,
                            new_rec,
                        )
                    })
                    &&& final(self).relayers == old(self).relayers
                    &&& final(self).relayers_admin == old(self).relayers_admin
                    &&& final(self).registered_types == old(self).registered_types
                    &&& final(self).connections == old(self).connections
                    &&& final(self).channels == old(self).channels
                    &&& final(self).channel_owners == old(self).channel_owners
                    &&& final(self).commitments == old(self).commitments
                    &&& evs@.len() == 0
                },
                Err(e) => {
                    &&& Some(e) == Self::spec_misbehaviour_err(*old(self), msg)
                    &&& *final(self) == *old(self)
                },
            },
    {
        if msg.client_id < 1 || self.clients.len() < msg.client_id as usize {
            return Err(ContractError::ClientNotFound);
        }
        let idx = (msg.client_id - 1) as usize;
        let rec = &self.clients[idx];
        let mut heights: Vec<u64> = Vec::new();
        let mut timestamps: Vec<u64> = Vec::new();
        let n = rec.consensus_heights.len();
        let mut i: usize = 0;
        while i < n
            invariant
                n == rec.consensus_heights@.len(),
                n == rec.consensus_timestamps@.len(),
                i <= n,
                heights@ =~= rec.consensus_heights@.subrange(0, i as int),
                timestamps@ =~= rec.consensus_timestamps@.subrange(0, i as int),
            decreases n - i,
        {
            heights.push(rec.consensus_heights[i]);
            timestamps.push(rec.consensus_timestamps[i]);
            i = i + 1;
        }
        proof {
            assert(heights@ =~= rec.consensus_heights@);
            assert(timestamps@ =~= rec.consensus_timestamps@);
        }
        let new_rec = ClientRecord {
            client_type: rec.client_type.clone(),
            client: FixedClient {
                latest_height: rec.client.latest_height,
                timestamp: rec.client.timestamp,
                membership_ok: rec.client.membership_ok,
                non_membership_ok: rec.client.non_membership_ok,
                frozen: true,
                counterparty_chain_id: rec.client.counterparty_chain_id.clone(),
            },
            counterparty_chain_id: rec.counterparty_chain_id.clone(),
            consensus_heights: heights,
            consensus_timestamps: timestamps,
        };
        self.clients.set(idx, new_rec);
        Ok(Vec::new())
    }

    /// The record of connection `id`, if any: the `GetConnection` query.
    pub fn get_connection(&self, id: ConnectionId) -> (r: Option<&Connection>)
        ensures
            match r {
                Some(c) => self.has_connection(id) && *c == self.connection_at(id),
                None => !self.has_connection(id),
            },
    {
        if id < 1 || self.connections.len() < id as usize {
            return None;
        }
        Some(&self.connections[(id - 1) as usize])
    }

    /// The record of channel `id`, if any: the `GetChannel` query.
    pub fn get_channel(&self, id: ChannelId) -> (r: Option<&Channel>)
        ensures
            match r {
                Some(c) => self.has_channel(id) && *c == self.channel_at(id),
                None => !self.has_channel(id),
            },
    {
        if id < 1 || self.channels.len() < id as usize {
            return None;
        }
        Some(&self.channels[(id - 1) as usize])
    }

    /// The client implementation of client `id`, if any: the
    /// `GetClientState` query.
    pub fn get_client_state(&self, id: ClientId) -> (r: Option<&FixedClient>)
        ensures
            match r {
                Some(c) => self.has_client(id) && *c == self.client_at(id).client,
                None => !self.has_client(id),
            },
    {
        if id < 1 || self.clients.len() < id as usize {
            return None;
        }
        Some(&self.clients[(id - 1) as usize].client)
    }

    /// The type tag of client `id`, if any: the `GetClientType` query.
    pub fn get_client_type(&self, id: ClientId) -> (r: Option<&String>)
        ensures
            match r {
                Some(t) => self.has_client(id) && t@ == self.client_at(id).client_type@,
                None => !self.has_client(id),
            },
    {
        if id < 1 || self.clients.len() < id as usize {
            return None;
        }
        Some(&self.clients[(id - 1) as usize].client_type)
    }

    /// The cached consensus timestamp of client `id` at `height`, if any:
    /// the `GetConsensusState` query.
    pub fn get_consensus_state(&self, id: ClientId, height: u64) -> (r: Option<u64>)
        requires
            self.wf(),
        ensures
            match r {
                Some(t) => self.has_client(id) && self.client_at(id).spec_has_consensus(height)
                    && t == self.client_at(id).spec_consensus_at(height),
                None => !self.has_client(id) || !self.client_at(id).spec_has_consensus(height),
            },
    {
        if id < 1 || self.clients.len() < id as usize {
            return None;
        }
        self.clients[(id - 1) as usize].consensus_at(height)
    }

    /// The stored batch commitment at `batch_hash`, if any: the
    /// `GetBatchPackets` query.
    pub fn get_batch_packets(&self, batch_hash: &Vec<u8>) -> (r: Option<&Vec<u8>>)
        requires
            self.wf(),
        ensures
            ({
                let key = crate::keys::spec_batch_packets_key(batch_hash@);
                match r {
                    Some(v) => self.commitments@.contains_key(key) && v@ == self.commitments@[key],
                    None => !self.commitments@.contains_key(key),
                }
            }),
    {
        let key = crate::keys::hash_key(crate::keys::BATCH_PACKETS_TAG, batch_hash);
        self.commitments.read(&key)
    }

    /// The stored batch-receipts commitment at `batch_hash`, if any: the
    /// `GetBatchReceipts` query.
    pub fn get_batch_receipts(&self, batch_hash: &Vec<u8>) -> (r: Option<&Vec<u8>>)
        requires
            self.wf(),
        ensures
            ({
                let key = crate::keys::spec_batch_receipts_key(batch_hash@);
                match r {
                    Some(v) => self.commitments@.contains_key(key) && v@ == self.commitments@[key],
                    None => !self.commitments@.contains_key(key),
                }
            }),
    {
        let key = crate::keys::hash_key(crate::keys::BATCH_RECEIPTS_TAG, batch_hash);
        self.commitments.read(&key)
    }

    /// Whether the packet commitment for `packet_hash` stands: set by
    /// send, cleared by acknowledgement or timeout.
    pub fn has_packet_commitment(&self, packet_hash: &Vec<u8>) -> (r: bool)
        requires
            self.wf(),
        ensures
            r == self.commitments@.contains_key(
                crate::keys::spec_packet_commitment_key(packet_hash@),
            ),
    {
        let key = crate::keys::hash_key(crate::keys::PACKET_COMMITMENT_TAG, packet_hash);
        self.commitments.contains(&key)
    }

    /// Whether the packet receipt for `packet_hash` stands: set once on
    /// first receive, never cleared.
    pub fn has_packet_receipt(&self, packet_hash: &Vec<u8>) -> (r: bool)
        requires
            self.wf(),
        ensures
            r == self.commitments@.contains_key(
                crate::keys::spec_packet_receipt_key(packet_hash@),
            ),
    {
        let key = crate::keys::hash_key(PACKET_RECEIPT_TAG, packet_hash);
        self.commitments.contains(&key)
    }

    /// The stored acknowledgement commitment for `packet_hash`, if any.
    pub fn get_packet_acknowledgement(&self, packet_hash: &Vec<u8>) -> (r: Option<&Vec<u8>>)
        requires
            self.wf(),
        ensures
            ({
                let key = crate::keys::spec_packet_ack_key(packet_hash@);
                match r {
                    Some(v) => self.commitments@.contains_key(key) && v@ == self.commitments@[key],
                    None => !self.commitments@.contains_key(key),
                }
            }),
    {
        let key = crate::keys::hash_key(PACKET_ACK_TAG, packet_hash);
        self.commitments.read(&key)
    }

    /// The status client `id` reports, if the client exists.
    pub fn get_status(&self, id: ClientId) -> (r: Option<Status>)
        requires
            self.wf(),
        ensures
            match r {
                Some(s) => self.has_client(id) && s == (if self.client_at(id).client.frozen {
                    Status::Frozen
                } else {
                    Status::Active
                }),
                None => !self.has_client(id),
            },
    {
        if id < 1 || self.clients.len() < id as usize {
            return None;
        }
        Some(self.clients[(id - 1) as usize].client.status())
    }
}

} // verus!
