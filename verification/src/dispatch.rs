//! The dispatch surface: one entrypoint routing each typed message into
//! exactly one component, transactionally — an error leaves the state
//! untouched. The contract ties every outcome to the routed component:
//! `spec_execute_err` fixes, per message, exactly which error comes back on
//! which state, and `spec_execute_ok` fixes the state delta and the events
//! of every success. On any outcome, a packet commitment leaves the store
//! only through an acknowledgement or a timeout that names that packet,
//! and receipts and acknowledgements never leave at all.

use vstd::prelude::*;

use crate::hashing::{
    spec_ack_commitment, spec_channel_end_commitment, spec_commitment_magic,
    spec_connection_commitment, spec_packet_hash,
};
use crate::host::IbcHost;
use crate::keys::{
    spec_batch_packets_key, spec_batch_receipts_key, spec_channel_key, spec_connection_key,
    spec_packet_ack_key, spec_packet_commitment_key, PACKET_ACK_TAG, PACKET_COMMITMENT_TAG,
    PACKET_RECEIPT_TAG,
};
use crate::msgs::ExecuteMsg;
use crate::packet::{
    lemma_apply_receipts, lemma_remove_commitments, spec_all_received, spec_apply_receipts,
    spec_batch_hash, spec_fresh_receipts, spec_is_commitment_of, spec_packet_hashes,
    spec_remove_commitments,
};
use crate::types::{
    ChannelState, Connection, ConnectionState, ContractError, Env, Event, Timestamp,
};

verus! {

/// The input constraints each message variant carries, as the protocol
/// states them: parallel arrays run in step, batches are non-empty, and a
/// batch of acknowledgements stays on one channel pair.
pub open spec fn spec_msg_wf(msg: ExecuteMsg) -> bool {
    match msg {
        ExecuteMsg::PacketRecv(m) => m.packets@.len() == m.relayer_msgs@.len() && m.packets@.len()
            >= 1,
        ExecuteMsg::IntentPacketRecv(m) => m.packets@.len() == m.market_maker_msgs@.len()
            && m.packets@.len() >= 1,
        ExecuteMsg::PacketAck(m) => m.packets@.len() == m.acknowledgements@.len()
            && m.packets@.len() >= 1,
        ExecuteMsg::BatchSend(m) => m.packets@.len() >= 1,
        ExecuteMsg::BatchAcks(m) => m.packets@.len() >= 1 && m.packets@.len() == m.acks@.len()
            && forall|i: int|
                0 <= i < m.packets@.len() ==> (#[trigger] m.packets@[i]).source_channel_id
                    == m.packets@[0].source_channel_id && m.packets@[i].destination_channel_id
                    == m.packets@[0].destination_channel_id,
        _ => true,
    }
}

impl IbcHost {
    /// Why a routed message fails, if it does: each variant fails exactly
    /// as its component does.
    pub open spec fn spec_execute_err(
        s: IbcHost,
        now: Timestamp,
        caller: Seq<char>,
        msg: ExecuteMsg,
    ) -> Option<ContractError> {
        match msg {
            ExecuteMsg::RegisterClient(_) => None,
            ExecuteMsg::CreateClient(m) => Self::spec_create_client_err(s, m),
            ExecuteMsg::UpdateClient(m) => Self::spec_update_client_err(s, m),
            ExecuteMsg::Misbehaviour(m) => Self::spec_misbehaviour_err(s, m),
            ExecuteMsg::ConnectionOpenInit(m) => Self::spec_connection_open_init_err(s, m),
            ExecuteMsg::ConnectionOpenTry(m) => Self::spec_connection_open_try_err(s, m),
            ExecuteMsg::ConnectionOpenAck(m) => Self::spec_connection_open_ack_err(s, m),
            ExecuteMsg::ConnectionOpenConfirm(m) => Self::spec_connection_open_confirm_err(s, m),
            ExecuteMsg::ChannelOpenInit(m) => Self::spec_channel_open_init_err(s, caller, m),
            ExecuteMsg::ChannelOpenTry(m) => Self::spec_channel_open_try_err(s, caller, m),
            ExecuteMsg::ChannelOpenAck(m) => Self::spec_channel_open_ack_err(s, caller, m),
            ExecuteMsg::ChannelOpenConfirm(m) => Self::spec_channel_open_confirm_err(s, caller, m),
            ExecuteMsg::PacketSend(m) => Self::spec_send_err(s, caller, m),
            ExecuteMsg::PacketRecv(m) => Self::spec_recv_err(s, now, caller, m.packets@),
            ExecuteMsg::IntentPacketRecv(m) => Self::spec_intent_recv_err(
                s,
                now,
                caller,
                m.packets@,
            ),
            ExecuteMsg::PacketAck(m) => Self::spec_ack_err(s, caller, m.packets@),
            ExecuteMsg::PacketTimeout(m) => Self::spec_timeout_err(s, caller, m),
            ExecuteMsg::WriteAcknowledgement(m) => Self::spec_write_ack_err(s, caller, m),
            ExecuteMsg::BatchSend(m) => Self::spec_batch_send_err(s, m.packets@),
            ExecuteMsg::BatchAcks(m) => Self::spec_batch_acks_err(s, m.packets@),
        }
    }

    /// What a successful routed message does: each variant changes the
    /// state and emits the events exactly as its component does.
    pub open spec fn spec_execute_ok(
        s0: IbcHost,
        now: Timestamp,
        caller: Seq<char>,
        msg: ExecuteMsg,
        s1: IbcHost,
        evs: Seq<Event>,
    ) -> bool {
        match msg {
            ExecuteMsg::RegisterClient(m) => if s0.type_registered(m.client_type@) {
                s1 == s0 && evs.len() == 0
            } else {
                &&& s1.registered_types@ == s0.registered_types@.push(m.client_type)
                &&& s1.relayers == s0.relayers
                &&& s1.relayers_admin == s0.relayers_admin
                &&& s1.clients == s0.clients
                &&& s1.connections == s0.connections
                &&& s1.channels == s0.channels
                &&& s1.channel_owners == s0.channel_owners
                &&& s1.commitments == s0.commitments
                &&& evs.len() == 1
                &&& (evs[0] matches Event::ClientRegistered { client_type } && client_type@
                    == m.client_type@)
            },
            ExecuteMsg::CreateClient(m) => {
                &&& s1.clients@.len() == s0.clients@.len() + 1
                &&& ({
                    let rec = s1.clients@.last();
                    &&& rec.client_type@ == m.client_type@
                    &&& rec.client == m.client
                    &&& rec.counterparty_chain_id@ == m.client.counterparty_chain_id@
                    &&& rec.consensus_heights@ == seq![m.client.latest_height]
                    &&& rec.consensus_timestamps@ == seq![m.client.timestamp]
                })
                &&& s1.clients@ == s0.clients@.push(s1.clients@.last())
                &&& s1.relayers == s0.relayers
                &&& s1.relayers_admin == s0.relayers_admin
                &&& s1.registered_types == s0.registered_types
                &&& s1.connections == s0.connections
                &&& s1.channels == s0.channels
                &&& s1.channel_owners == s0.channel_owners
                &&& s1.commitments == s0.commitments
                &&& evs.len() == 1
                &&& (evs[0] matches Event::ClientCreated { client_id } && client_id
                    == s0.clients@.len() + 1)
            },
            ExecuteMsg::UpdateClient(m) => if s0.client_at(m.client_id).spec_has_consensus(
                m.height,
            ) {
                s1 == s0 && evs.len() == 0
            } else {
                let old_rec = s0.client_at(m.client_id);
                let new_rec = s1.client_at(m.client_id);
                &&& new_rec.consensus_heights@ == old_rec.consensus_heights@.push(m.height)
                &&& new_rec.consensus_timestamps@ == old_rec.consensus_timestamps@.push(
                    m.timestamp,
                )
                &&& new_rec.client.latest_height == (if m.height > old_rec.client.latest_height {
                    m.height
                } else {
                    old_rec.client.latest_height
                })
                &&& new_rec.client.timestamp == old_rec.client.timestamp
                &&& new_rec.client.membership_ok == old_rec.client.membership_ok
                &&& new_rec.client.non_membership_ok == old_rec.client.non_membership_ok
                &&& new_rec.client.frozen == old_rec.client.frozen
                &&& s1.clients@ == s0.clients@.update(m.client_id - 1, new_rec)
                &&& s1.relayers == s0.relayers
                &&& s1.relayers_admin == s0.relayers_admin
                &&& s1.registered_types == s0.registered_types
                &&& s1.connections == s0.connections
                &&& s1.channels == s0.channels
                &&& s1.channel_owners == s0.channel_owners
                &&& s1.commitments == s0.commitments
                &&& evs.len() == 1
                &&& (evs[0] matches Event::ClientUpdated { client_id, height } && client_id
                    == m.client_id && height == m.height)
            },
            ExecuteMsg::Misbehaviour(m) => {
                let old_rec = s0.client_at(m.client_id);
                let new_rec = s1.client_at(m.client_id);
                &&& new_rec.client.frozen == true
                &&& new_rec.client.latest_height == old_rec.client.latest_height
                &&& new_rec.client.timestamp == old_rec.client.timestamp
                &&& new_rec.client.membership_ok == old_rec.client.membership_ok
                &&& new_rec.client.non_membership_ok == old_rec.client.non_membership_ok
                &&& s1.clients@ == s0.clients@.update(m.client_id - 1, new_rec)
                &&& s1.relayers == s0.relayers
                &&& s1.relayers_admin == s0.relayers_admin
                &&& s1.registered_types == s0.registered_types
                &&& s1.connections == s0.connections
                &&& s1.channels == s0.channels
                &&& s1.channel_owners == s0.channel_owners
                &&& s1.commitments == s0.commitments
                &&& evs.len() == 0
            },
            ExecuteMsg::ConnectionOpenInit(m) => {
                let record = Connection {
                    state: ConnectionState::Init,
                    client_id: m.client_id,
                    counterparty_client_id: m.counterparty_client_id,
                    counterparty_connection_id: 0,
                };
                &&& s1.connections@ == s0.connections@.push(record)
                &&& s1.commitments@ == s0.commitments@.insert(
                    spec_connection_key((s0.connections@.len() + 1) as u32),
                    spec_connection_commitment(record),
                )
                &&& IbcHost::same_tables_but_connections(s0, s1)
                &&& evs.len() == 1
                &&& (evs[0] matches Event::ConnectionOpenInit { connection_id, .. }
                    && connection_id == s0.connections@.len() + 1)
            },
            ExecuteMsg::ConnectionOpenTry(m) => {
                let record = Connection {
                    state: ConnectionState::TryOpen,
                    client_id: m.client_id,
                    counterparty_client_id: m.counterparty_client_id,
                    counterparty_connection_id: m.counterparty_connection_id,
                };
                &&& s1.connections@ == s0.connections@.push(record)
                &&& s1.commitments@ == s0.commitments@.insert(
                    spec_connection_key((s0.connections@.len() + 1) as u32),
                    spec_connection_commitment(record),
                )
                &&& IbcHost::same_tables_but_connections(s0, s1)
                &&& evs.len() == 1
                &&& (evs[0] matches Event::ConnectionOpenTry { connection_id, .. }
                    && connection_id == s0.connections@.len() + 1)
            },
            ExecuteMsg::ConnectionOpenAck(m) => {
                let record = Connection {
                    state: ConnectionState::Open,
                    client_id: s0.connection_at(m.connection_id).client_id,
                    counterparty_client_id: s0.connection_at(
                        m.connection_id,
                    ).counterparty_client_id,
                    counterparty_connection_id: m.counterparty_connection_id,
                };
                &&& s1.connections@ == s0.connections@.update(m.connection_id - 1, record)
                &&& s1.commitments@ == s0.commitments@.insert(
                    spec_connection_key(m.connection_id),
                    spec_connection_commitment(record),
                )
                &&& IbcHost::same_tables_but_connections(s0, s1)
                &&& evs.len() == 1
                &&& (evs[0] matches Event::ConnectionOpenAck { connection_id, .. }
                    && connection_id == m.connection_id)
            },
            ExecuteMsg::ConnectionOpenConfirm(m) => {
                let record = Connection {
                    state: ConnectionState::Open,
                    client_id: s0.connection_at(m.connection_id).client_id,
                    counterparty_client_id: s0.connection_at(
                        m.connection_id,
                    ).counterparty_client_id,
                    counterparty_connection_id: s0.connection_at(
                        m.connection_id,
                    ).counterparty_connection_id,
                };
                &&& s1.connections@ == s0.connections@.update(m.connection_id - 1, record)
                &&& s1.commitments@ == s0.commitments@.insert(
                    spec_connection_key(m.connection_id),
                    spec_connection_commitment(record),
                )
                &&& IbcHost::same_tables_but_connections(s0, s1)
                &&& evs.len() == 1
                &&& (evs[0] matches Event::ConnectionOpenConfirm { connection_id }
                    && connection_id == m.connection_id)
            },
            ExecuteMsg::ChannelOpenInit(m) => {
                let c = s1.channels@.last();
                &&& s1.channels@.len() == s0.channels@.len() + 1
                &&& c.state == ChannelState::Init
                &&& c.connection_id == m.connection_id
                &&& c.counterparty_channel_id == 0
                &&& c.counterparty_port_id@ == m.counterparty_port_id@
                &&& s1.channels@ == s0.channels@.push(c)
                &&& s1.channel_owners@ == s0.channel_owners@.push(s1.channel_owners@.last())
                &&& s1.channel_owners@.last()@ == caller
                &&& s1.commitments@ == s0.commitments@.insert(
                    spec_channel_key((s0.channels@.len() + 1) as u32),
                    spec_channel_end_commitment(
                        ChannelState::Init,
                        0,
                        m.counterparty_port_id@,
                    ),
                )
                &&& IbcHost::same_tables_but_channels(s0, s1)
                &&& evs.len() == 1
                &&& (evs[0] matches Event::ChannelOpenInit { channel_id, .. } && channel_id
                    == s0.channels@.len() + 1)
            },
            ExecuteMsg::ChannelOpenTry(m) => {
                let c = s1.channels@.last();
                &&& s1.channels@.len() == s0.channels@.len() + 1
                &&& c.state == ChannelState::TryOpen
                &&& c.connection_id == m.connection_id
                &&& c.counterparty_channel_id == m.counterparty_channel_id
                &&& c.counterparty_port_id@ == m.counterparty_port_id@
                &&& s1.channels@ == s0.channels@.push(c)
                &&& s1.channel_owners@ == s0.channel_owners@.push(s1.channel_owners@.last())
                &&& s1.channel_owners@.last()@ == caller
                &&& s1.commitments@ == s0.commitments@.insert(
                    spec_channel_key((s0.channels@.len() + 1) as u32),
                    spec_channel_end_commitment(
                        ChannelState::TryOpen,
                        m.counterparty_channel_id,
                        m.counterparty_port_id@,
                    ),
                )
                &&& IbcHost::same_tables_but_channels(s0, s1)
                &&& evs.len() == 1
                &&& (evs[0] matches Event::ChannelOpenTry { channel_id, .. } && channel_id
                    == s0.channels@.len() + 1)
            },
            ExecuteMsg::ChannelOpenAck(m) => {
                let c = s1.channel_at(m.channel_id);
                let c0 = s0.channel_at(m.channel_id);
                &&& c.state == ChannelState::Open
                &&& c.connection_id == c0.connection_id
                &&& c.counterparty_channel_id == m.counterparty_channel_id
                &&& c.counterparty_port_id@ == c0.counterparty_port_id@
                &&& s1.channels@ == s0.channels@.update(m.channel_id - 1, c)
                &&& s1.channel_owners == s0.channel_owners
                &&& s1.commitments@ == s0.commitments@.insert(
                    spec_channel_key(m.channel_id),
                    spec_channel_end_commitment(
                        ChannelState::Open,
                        m.counterparty_channel_id,
                        c0.counterparty_port_id@,
                    ),
                )
                &&& IbcHost::same_tables_but_channels(s0, s1)
                &&& evs.len() == 1
                &&& (evs[0] matches Event::ChannelOpenAck { channel_id, .. } && channel_id
                    == m.channel_id)
            },
            ExecuteMsg::ChannelOpenConfirm(m) => {
                let c = s1.channel_at(m.channel_id);
                let c0 = s0.channel_at(m.channel_id);
                &&& c.state == ChannelState::Open
                &&& c.connection_id == c0.connection_id
                &&& c.counterparty_channel_id == c0.counterparty_channel_id
                &&& c.counterparty_port_id@ == c0.counterparty_port_id@
                &&& s1.channels@ == s0.channels@.update(m.channel_id - 1, c)
                &&& s1.channel_owners == s0.channel_owners
                &&& s1.commitments@ == s0.commitments@.insert(
                    spec_channel_key(m.channel_id),
                    spec_channel_end_commitment(
                        ChannelState::Open,
                        c0.counterparty_channel_id,
                        c0.counterparty_port_id@,
                    ),
                )
                &&& IbcHost::same_tables_but_channels(s0, s1)
                &&& evs.len() == 1
                &&& (evs[0] matches Event::ChannelOpenConfirm { channel_id } && channel_id
                    == m.channel_id)
            },
            ExecuteMsg::PacketSend(m) => {
                let p = Self::spec_sent_packet(s0, m);
                let key = spec_packet_commitment_key(spec_packet_hash(p));
                if s0.commitments@.contains_key(key) {
                    s1 == s0 && evs.len() == 0
                } else {
                    &&& s1.commitments@ == s0.commitments@.insert(key, spec_commitment_magic())
                    &&& IbcHost::same_except_commitments(s1, s0)
                    &&& evs.len() == 1
                    &&& (evs[0] matches Event::PacketSend { channel_id, packet_hash, packet }
                        && channel_id == m.source_channel_id && packet_hash@
                        == spec_packet_hash(p) && packet.data@ == p.data@
                        && packet.source_channel_id == p.source_channel_id
                        && packet.destination_channel_id == p.destination_channel_id
                        && packet.timeout_timestamp == p.timeout_timestamp)
                }
            },
            ExecuteMsg::PacketRecv(m) => if spec_all_received(s0.commitments@, m.packets@) {
                s1 == s0 && evs.len() == 0
            } else {
                let fresh = spec_fresh_receipts(s0.commitments@, m.packets@);
                &&& s1.commitments@ == spec_apply_receipts(s0.commitments@, m.packets@)
                &&& IbcHost::same_except_commitments(s1, s0)
                &&& evs.len() == fresh.len()
                &&& forall|j: int|
                    0 <= j < evs.len() ==> (#[trigger] evs[j] matches Event::PacketRecv {
                        channel_id,
                        packet_hash,
                        ..
                    } && channel_id == fresh[j].0 && packet_hash@ == fresh[j].1)
            },
            ExecuteMsg::IntentPacketRecv(m) => if spec_all_received(s0.commitments@, m.packets@) {
                s1 == s0 && evs.len() == 0
            } else {
                let fresh = spec_fresh_receipts(s0.commitments@, m.packets@);
                &&& s1.commitments@ == spec_apply_receipts(s0.commitments@, m.packets@)
                &&& IbcHost::same_except_commitments(s1, s0)
                &&& evs.len() == fresh.len()
                &&& forall|j: int|
                    0 <= j < evs.len() ==> (#[trigger] evs[j] matches Event::IntentPacketRecv {
                        channel_id,
                        packet_hash,
                        ..
                    } && channel_id == fresh[j].0 && packet_hash@ == fresh[j].1)
            },
            ExecuteMsg::PacketAck(m) => {
                &&& s1.commitments@ == spec_remove_commitments(s0.commitments@, m.packets@)
                &&& IbcHost::same_except_commitments(s1, s0)
                &&& evs.len() == m.packets@.len()
                &&& forall|i: int|
                    0 <= i < evs.len() ==> (#[trigger] evs[i] matches Event::PacketAck {
                        channel_id,
                        packet_hash,
                        acknowledgement,
                    } && channel_id == m.packets@[i].source_channel_id && packet_hash@
                        == spec_packet_hash(m.packets@[i]) && acknowledgement@
                        == m.acknowledgements@[i]@)
            },
            ExecuteMsg::PacketTimeout(m) => {
                let h = spec_packet_hash(m.packet);
                &&& s0.channel_client(m.packet.source_channel_id).timestamp
                    >= m.packet.timeout_timestamp
                &&& s1.commitments@ == s0.commitments@.remove(spec_packet_commitment_key(h))
                &&& IbcHost::same_except_commitments(s1, s0)
                &&& evs.len() == 1
                &&& (evs[0] matches Event::PacketTimeout { channel_id, packet_hash }
                    && channel_id == m.packet.source_channel_id && packet_hash@ == h)
            },
            ExecuteMsg::WriteAcknowledgement(m) => {
                let h = spec_packet_hash(m.packet);
                &&& s1.commitments@ == s0.commitments@.insert(
                    spec_packet_ack_key(h),
                    spec_ack_commitment(m.acknowledgement@),
                )
                &&& IbcHost::same_except_commitments(s1, s0)
                &&& evs.len() == 1
                &&& (evs[0] matches Event::WriteAck { channel_id, packet_hash, acknowledgement }
                    && channel_id == m.packet.destination_channel_id && packet_hash@ == h
                    && acknowledgement@ == m.acknowledgement@)
            },
            ExecuteMsg::BatchSend(m) => {
                let bh = spec_batch_hash(spec_packet_hashes(m.packets@));
                &&& s1.commitments@ == s0.commitments@.insert(
                    spec_batch_packets_key(bh),
                    spec_commitment_magic(),
                )
                &&& IbcHost::same_except_commitments(s1, s0)
                &&& evs.len() == 1
                &&& (evs[0] matches Event::BatchSend { channel_id, batch_hash } && channel_id
                    == m.packets@[0].source_channel_id && batch_hash@ == bh)
            },
            ExecuteMsg::BatchAcks(m) => {
                let bh = spec_batch_hash(spec_packet_hashes(m.packets@));
                &&& s1.commitments@ == s0.commitments@.insert(
                    spec_batch_receipts_key(bh),
                    crate::hashing::keccak_of(crate::hashing::spec_concat_hashes(
                        Self::spec_stored_acks(s0.commitments@, m.packets@),
                    )),
                )
                &&& IbcHost::same_except_commitments(s1, s0)
                &&& evs.len() == 1
                &&& (evs[0] matches Event::BatchAcks { channel_id, batch_hash } && channel_id
                    == m.packets@[0].destination_channel_id && batch_hash@ == bh)
            },
        }
    }

    /// Every table except the connections and the commitment store is the
    /// same in `a` and `b`.
    pub open spec fn same_tables_but_connections(a: IbcHost, b: IbcHost) -> bool {
        &&& a.relayers == b.relayers
        &&& a.relayers_admin == b.relayers_admin
        &&& a.registered_types == b.registered_types
        &&& a.clients == b.clients
        &&& a.channels == b.channels
        &&& a.channel_owners == b.channel_owners
    }

    /// Every table except the channels, their owners and the commitment
    /// store is the same in `a` and `b`.
    pub open spec fn same_tables_but_channels(a: IbcHost, b: IbcHost) -> bool {
        &&& a.relayers == b.relayers
        &&& a.relayers_admin == b.relayers_admin
        &&& a.registered_types == b.registered_types
        &&& a.clients == b.clients
        &&& a.connections == b.connections
    }

    /// Routes one external message into its component. Every entrypoint is
    /// transactional: it fails exactly when its component does, and an
    /// error leaves the state exactly what it was; a success changes the
    /// state and emits the events exactly as the component's contract
    /// says. On any outcome, a packet commitment disappears only through
    /// `PacketAck` or `PacketTimeout` naming a packet with that hash, and
    /// no receipt or acknowledgement ever disappears.
    #[verifier::rlimit(100)]
    pub fn execute(&mut self, env: &Env, caller: &String, msg: ExecuteMsg) -> (r: Result<
        Vec<Event>,
        ContractError,
    >)
        requires
            old(self).wf(),
            spec_msg_wf(msg),
        ensures
            final(self).wf(),
            match r {
                Ok(evs) => {
                    &&& Self::spec_execute_err(*old(self), env.block_time, caller@, msg) is None
                    &&& Self::spec_execute_ok(
                        *old(self),
                        env.block_time,
                        caller@,
                        msg,
                        *final(self),
                        evs@,
                    )
                },
                Err(e) => {
                    &&& Some(e) == Self::spec_execute_err(*old(self), env.block_time, caller@, msg)
                    &&& *final(self) == *old(self)
                },
            },
            forall|k: Seq<u8>|
                old(self).commitments@.contains_key(k) && !final(self).commitments@.contains_key(
                    k,
                ) ==> match msg {
                    ExecuteMsg::PacketAck(m) => spec_is_commitment_of(k, m.packets@),
                    ExecuteMsg::PacketTimeout(m) => k == spec_packet_commitment_key(
                        spec_packet_hash(m.packet),
                    ),
                    _ => false,
                },
            forall|k: Seq<u8>|
                old(self).commitments@.contains_key(k) && k.len() >= 1 && (k[0]
                    == PACKET_RECEIPT_TAG || k[0] == PACKET_ACK_TAG)
                    ==> final(self).commitments@.contains_key(k),
    {
        match msg {
            ExecuteMsg::RegisterClient(m) => self.register_client(m),
            ExecuteMsg::CreateClient(m) => self.create_client(m),
            ExecuteMsg::UpdateClient(m) => self.update_client(m),
            ExecuteMsg::Misbehaviour(m) => self.misbehaviour(m),
            ExecuteMsg::ConnectionOpenInit(m) => self.connection_open_init(m),
            ExecuteMsg::ConnectionOpenTry(m) => self.connection_open_try(m),
            ExecuteMsg::ConnectionOpenAck(m) => self.connection_open_ack(m),
            ExecuteMsg::ConnectionOpenConfirm(m) => self.connection_open_confirm(m),
            ExecuteMsg::ChannelOpenInit(m) => self.channel_open_init(caller, m),
            ExecuteMsg::ChannelOpenTry(m) => self.channel_open_try(caller, m),
            ExecuteMsg::ChannelOpenAck(m) => self.channel_open_ack(caller, m),
            ExecuteMsg::ChannelOpenConfirm(m) => self.channel_open_confirm(caller, m),
            ExecuteMsg::PacketSend(m) => self.send_packet(caller, m),
            ExecuteMsg::PacketRecv(m) => {
                let ghost ps = m.packets@;
                let ghost m0 = self.commitments@;
                let r = self.recv_packets(env, caller, m);
                proof {
                    if r is Ok {
                        lemma_apply_receipts(m0, ps);
                    }
                }
                r
            },
            ExecuteMsg::IntentPacketRecv(m) => {
                let ghost ps = m.packets@;
                let ghost m0 = self.commitments@;
                let r = self.intent_recv_packets(env, caller, m);
                proof {
                    if r is Ok {
                        lemma_apply_receipts(m0, ps);
                    }
                }
                r
            },
            ExecuteMsg::PacketAck(m) => {
                let ghost ps = m.packets@;
                let ghost m0 = self.commitments@;
                let r = self.acknowledge_packets(caller, m);
                proof {
                    if r is Ok {
                        lemma_remove_commitments(m0, ps);
                        assert forall|k: Seq<u8>|
                            m0.contains_key(k) && k.len() >= 1 && (k[0] == PACKET_RECEIPT_TAG
                                || k[0] == PACKET_ACK_TAG) implies self.commitments@.contains_key(
                            k,
                        ) by {
                            if spec_is_commitment_of(k, ps) {
                                let i = choose|i: int|
                                    0 <= i < ps.len() && k == spec_packet_commitment_key(
                                        spec_packet_hash(#[trigger] ps[i]),
                                    );
                                assert(k[0] == PACKET_COMMITMENT_TAG);
                            }
                        }
                    }
                }
                r
            },
            ExecuteMsg::PacketTimeout(m) => {
                let ghost k0 = spec_packet_commitment_key(spec_packet_hash(m.packet));
                let r = self.timeout_packet(caller, m);
                proof {
                    if r is Ok {
                        assert(k0[0] == PACKET_COMMITMENT_TAG);
                    }
                }
                r
            },
            ExecuteMsg::WriteAcknowledgement(m) => self.write_acknowledgement(caller, m),
            ExecuteMsg::BatchSend(m) => self.batch_send(m),
            ExecuteMsg::BatchAcks(m) => self.batch_acks(m),
        }
    }
}

} // verus!
