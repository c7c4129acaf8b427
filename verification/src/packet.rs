//! The packet engine: send, receive, acknowledge, timeout, write-ack and
//! batching. Packet state lives entirely in the commitment store, keyed by
//! content hash, which makes every write idempotent and concurrent relayers
//! safe.

use vstd::prelude::*;

use crate::bytes::copy_bytes;
use crate::hashing::{
    ack_commitment, commitment_magic, concat_hashes, keccak_of, packet_hash, spec_ack_commitment,
    spec_commitment_magic, spec_concat_hashes, spec_packet_hash,
};
use crate::host::{
    acks_have_receipts_map, lemma_ahr_insert_ack, lemma_ahr_insert_other, lemma_ahr_remove_other,
    lemma_pvm_insert_magic, lemma_pvm_insert_other, lemma_pvm_remove, presence_values_magic,
    IbcHost,
};
use crate::keys::{
    hash_key, spec_batch_packets_key, spec_batch_receipts_key, spec_packet_ack_key,
    spec_packet_commitment_key, spec_packet_receipt_key, BATCH_PACKETS_TAG, BATCH_RECEIPTS_TAG,
    PACKET_ACK_TAG, PACKET_COMMITMENT_TAG, PACKET_RECEIPT_TAG,
};
use crate::msgs::{
    MsgBatchAcks, MsgBatchSend, MsgIntentPacketRecv, MsgPacketAcknowledgement, MsgPacketRecv,
    MsgPacketTimeout, MsgSendPacket, MsgWriteAcknowledgement,
};
use crate::sort::{sort_bytes, spec_sort_bytes};
use crate::types::{ChannelState, ContractError, Env, Event, Packet, Timestamp};

verus! {

/// The hashes of a list of packets, in submission order.
pub open spec fn spec_packet_hashes(ps: Seq<Packet>) -> Seq<Seq<u8>> {
    ps.map_values(|p: Packet| spec_packet_hash(p))
}

/// The batch hash of a list of packet hashes: the digest of their
/// concatenation in canonical (sorted) order.
pub open spec fn spec_batch_hash(hashes: Seq<Seq<u8>>) -> Seq<u8> {
    keccak_of(spec_concat_hashes(spec_sort_bytes(hashes)))
}

impl IbcHost {
    /// The packet a send message constructs: the destination comes from the
    /// channel record, the timeout height is fixed to zero.
    pub open spec fn spec_sent_packet(s: IbcHost, msg: MsgSendPacket) -> Packet {
        Packet {
            source_channel_id: msg.source_channel_id,
            destination_channel_id: s.channel_at(msg.source_channel_id).counterparty_channel_id,
            data: msg.data,
            timeout_timestamp: msg.timeout_timestamp,
        }
    }

    /// Why a send fails, if it does.
    pub open spec fn spec_send_err(s: IbcHost, caller: Seq<char>, msg: MsgSendPacket) -> Option<
        ContractError,
    > {
        if msg.timeout_timestamp == 0 {
            Some(ContractError::TimeoutMustBeSet)
        } else if !s.channel_open(msg.source_channel_id) {
            Some(ContractError::InvalidChannelState)
        } else if s.owner_at(msg.source_channel_id) != caller {
            Some(ContractError::Unauthorized)
        } else {
            None
        }
    }

    /// Sends a packet: requires a set timeout, an open source channel and
    /// the owning port as caller. Resending an identical packet is a no-op;
    /// the first send writes one commitment and emits one event.
    pub fn send_packet(&mut self, caller: &String, msg: MsgSendPacket) -> (r: Result<
        Vec<Event>,
        ContractError,
    >)
        requires
            old(self).wf(),
        ensures
            final(self).wf(),
            match r {
                Ok(evs) => ({
                    let p = Self::spec_sent_packet(*old(self), msg);
                    let key = spec_packet_commitment_key(spec_packet_hash(p));
                    &&& Self::spec_send_err(*old(self), caller@, msg) is None
                    &&& if old(self).commitments@.contains_key(key) {
                        *final(self) == *old(self) && evs@.len() == 0
                    } else {
                        &&& final(self).commitments@ == old(self).commitments@.insert(
                            key,
                            spec_commitment_magic(),
                        )
                        &&& IbcHost::same_except_commitments(*final(self), *old(self))
                        &&& evs@.len() == 1
                        &&& evs@[0] matches Event::PacketSend { channel_id, packet_hash, packet }
                            && channel_id == msg.source_channel_id && packet_hash@
                            == spec_packet_hash(p) && packet.source_channel_id
                            == p.source_channel_id && packet.destination_channel_id
                            == p.destination_channel_id && packet.data@ == p.data@
                            && packet.timeout_timestamp == p.timeout_timestamp
                    }
                }),
                Err(e) => {
                    &&& Some(e) == Self::spec_send_err(*old(self), caller@, msg)
                    &&& *final(self) == *old(self)
                },
            },
    {
        if msg.timeout_timestamp == 0 {
            return Err(ContractError::TimeoutMustBeSet);
        }
        if msg.source_channel_id < 1 || self.channels.len() < msg.source_channel_id as usize {
            return Err(ContractError::InvalidChannelState);
        }
        let idx = (msg.source_channel_id - 1) as usize;
        if self.channels[idx].state != ChannelState::Open {
            return Err(ContractError::InvalidChannelState);
        }
        if !self.channel_owners[idx].eq(caller) {
            return Err(ContractError::Unauthorized);
        }
        let packet = Packet {
            source_channel_id: msg.source_channel_id,
            destination_channel_id: self.channels[idx].counterparty_channel_id,
            data: msg.data,
            timeout_timestamp: msg.timeout_timestamp,
        };
        let h = packet_hash(&packet);
        let key = hash_key(PACKET_COMMITMENT_TAG, &h);
        if self.commitments.contains(&key) {
            return Ok(Vec::new());
        }
        let ghost m0 = self.commitments@;
        let ghost keyv = key@;
        self.commitments.write(key, commitment_magic());
        proof {
            lemma_ahr_insert_other(m0, keyv, spec_commitment_magic());
            lemma_pvm_insert_magic(m0, keyv);
        }
        let mut evs: Vec<Event> = Vec::new();
        evs.push(Event::PacketSend {
            channel_id: msg.source_channel_id,
            packet_hash: h,
            packet,
        });
        Ok(evs)
    }

    /// Why writing an acknowledgement fails, if it does.
    pub open spec fn spec_write_ack_err(
        s: IbcHost,
        caller: Seq<char>,
        msg: MsgWriteAcknowledgement,
    ) -> Option<ContractError> {
        let h = spec_packet_hash(msg.packet);
        if !s.channel_open(msg.packet.destination_channel_id) {
            Some(ContractError::InvalidChannelState)
        } else if s.owner_at(msg.packet.destination_channel_id) != caller {
            Some(ContractError::Unauthorized)
        } else if !s.commitments@.contains_key(spec_packet_receipt_key(h)) {
            Some(ContractError::PacketNotReceived)
        } else if s.commitments@.contains_key(spec_packet_ack_key(h)) {
            Some(ContractError::AlreadyAcknowledged)
        } else {
            None
        }
    }

    /// Writes the acknowledgement of a received packet, at most once per
    /// packet hash, and only from the port owning the destination channel.
    #[verifier::rlimit(60)]
    pub fn write_acknowledgement(&mut self, caller: &String, msg: MsgWriteAcknowledgement) -> (r:
        Result<Vec<Event>, ContractError>)
        requires
            old(self).wf(),
        ensures
            final(self).wf(),
            match r {
                Ok(evs) => ({
                    let h = spec_packet_hash(msg.packet);
                    &&& Self::spec_write_ack_err(*old(self), caller@, msg) is None
                    &&& final(self).commitments@ == old(self).commitments@.insert(
                        spec_packet_ack_key(h),
                        spec_ack_commitment(msg.acknowledgement@),
                    )
                    &&& IbcHost::same_except_commitments(*final(self), *old(self))
                    &&& evs@.len() == 1
                    &&& evs@[0] matches Event::WriteAck { channel_id, packet_hash, acknowledgement }
                        && channel_id == msg.packet.destination_channel_id && packet_hash@ == h
                        && acknowledgement@ == msg.acknowledgement@
                }),
                Err(e) => {
                    &&& Some(e) == Self::spec_write_ack_err(*old(self), caller@, msg)
                    &&& *final(self) == *old(self)
                },
            },
    {
        let dst = msg.packet.destination_channel_id;
        if dst < 1 || self.channels.len() < dst as usize {
            return Err(ContractError::InvalidChannelState);
        }
        let idx = (dst - 1) as usize;
        if self.channels[idx].state != ChannelState::Open {
            return Err(ContractError::InvalidChannelState);
        }
        if !self.channel_owners[idx].eq(caller) {
            return Err(ContractError::Unauthorized);
        }
        let h = packet_hash(&msg.packet);
        let receipt_key = hash_key(PACKET_RECEIPT_TAG, &h);
        if !self.commitments.contains(&receipt_key) {
            return Err(ContractError::PacketNotReceived);
        }
        let ack_key = hash_key(PACKET_ACK_TAG, &h);
        if self.commitments.contains(&ack_key) {
            return Err(ContractError::AlreadyAcknowledged);
        }
        let ghost m0 = self.commitments@;
        let ghost keyv = ack_key@;
        let value = ack_commitment(&msg.acknowledgement);
        proof {
            assert(keyv.skip(1) =~= spec_packet_hash(msg.packet));
            assert(seq![PACKET_RECEIPT_TAG] + keyv.skip(1) =~= spec_packet_receipt_key(
                spec_packet_hash(msg.packet),
            ));
        }
        self.commitments.write(ack_key, value);
        proof {
            lemma_ahr_insert_ack(m0, keyv, spec_ack_commitment(msg.acknowledgement@));
            lemma_pvm_insert_other(m0, keyv, spec_ack_commitment(msg.acknowledgement@));
        }
        let mut evs: Vec<Event> = Vec::new();
        evs.push(Event::WriteAck {
            channel_id: dst,
            packet_hash: h,
            acknowledgement: msg.acknowledgement,
        });
        Ok(evs)
    }
}

/// The per-packet admission checks of a receive, in array order: the first
/// failing packet decides the error.
pub open spec fn spec_recv_checks_err(s: IbcHost, now: Timestamp, ps: Seq<Packet>) -> Option<
    ContractError,
>
    decreases ps.len(),
{
    if ps.len() == 0 {
        None
    } else {
        let p = ps[0];
        if !s.channel_open(p.destination_channel_id) {
            Some(ContractError::InvalidChannelState)
        } else if now >= p.timeout_timestamp {
            Some(ContractError::ReceivedTimedOutPacketTimestamp {
                now,
                timeout: p.timeout_timestamp,
            })
        } else {
            spec_recv_checks_err(s, now, ps.drop_first())
        }
    }
}

/// Whether every packet of the list already has a receipt.
pub open spec fn spec_all_received(m: Map<Seq<u8>, Seq<u8>>, ps: Seq<Packet>) -> bool {
    forall|i: int|
        0 <= i < ps.len() ==> m.contains_key(
            spec_packet_receipt_key(spec_packet_hash(#[trigger] ps[i])),
        )
}

/// The store after writing the receipt of every packet of the list.
pub open spec fn spec_apply_receipts(m: Map<Seq<u8>, Seq<u8>>, ps: Seq<Packet>) -> Map<
    Seq<u8>,
    Seq<u8>,
>
    decreases ps.len(),
{
    if ps.len() == 0 {
        m
    } else {
        spec_apply_receipts(
            m.insert(
                spec_packet_receipt_key(spec_packet_hash(ps[0])),
                spec_commitment_magic(),
            ),
            ps.drop_first(),
        )
    }
}

/// Whether `k` is the receipt key of some packet of the list.
pub open spec fn spec_is_receipt_of(k: Seq<u8>, ps: Seq<Packet>) -> bool {
    exists|i: int|
        0 <= i < ps.len() && k == spec_packet_receipt_key(spec_packet_hash(#[trigger] ps[i]))
}

/// Being a receipt key of a non-empty list means being the first packet's
/// receipt key or one of the rest's.
pub proof fn lemma_receipt_of_unfold(k: Seq<u8>, ps: Seq<Packet>)
    requires
        ps.len() > 0,
    ensures
        spec_is_receipt_of(k, ps) <==> (k == spec_packet_receipt_key(spec_packet_hash(ps[0]))
            || spec_is_receipt_of(k, ps.drop_first())),
{
    let q = ps.drop_first();
    if spec_is_receipt_of(k, ps) {
        let i = choose|i: int|
            0 <= i < ps.len() && k == spec_packet_receipt_key(spec_packet_hash(#[trigger] ps[i]));
        if i > 0 {
            assert(q[i - 1] == ps[i]);
            assert(spec_is_receipt_of(k, q));
        }
    }
    if k == spec_packet_receipt_key(spec_packet_hash(ps[0])) {
        assert(spec_is_receipt_of(k, ps));
    }
    if spec_is_receipt_of(k, q) {
        let j = choose|j: int|
            0 <= j < q.len() && k == spec_packet_receipt_key(spec_packet_hash(#[trigger] q[j]));
        assert(ps[j + 1] == q[j]);
        assert(spec_is_receipt_of(k, ps));
    }
}

/// What applying receipts does to the store: receipt keys of the list map
/// to the sentinel, every other key is untouched.
pub proof fn lemma_apply_receipts(m: Map<Seq<u8>, Seq<u8>>, ps: Seq<Packet>)
    ensures
        ({
            let m1 = spec_apply_receipts(m, ps);
            &&& forall|k: Seq<u8>|
                #[trigger] m1.contains_key(k) <==> (m.contains_key(k) || spec_is_receipt_of(k, ps))
            &&& forall|k: Seq<u8>|
                #[trigger] m1.contains_key(k) && !spec_is_receipt_of(k, ps) ==> m1[k] == m[k]
            &&& forall|k: Seq<u8>| spec_is_receipt_of(k, ps) ==> #[trigger] m1[k]
                == spec_commitment_magic()
        }),
    decreases ps.len(),
{
    if ps.len() == 0 {
        assert(forall|k: Seq<u8>| !spec_is_receipt_of(k, ps));
    } else {
        let k0 = spec_packet_receipt_key(spec_packet_hash(ps[0]));
        let q = ps.drop_first();
        let m0 = m.insert(k0, spec_commitment_magic());
        lemma_apply_receipts(m0, q);
        let m1 = spec_apply_receipts(m, ps);
        assert(m1 == spec_apply_receipts(m0, q));
        assert forall|k: Seq<u8>| #[trigger] m1.contains_key(k) implies (m.contains_key(k)
            || spec_is_receipt_of(k, ps)) by {
            lemma_receipt_of_unfold(k, ps);
        }
        assert forall|k: Seq<u8>| m.contains_key(k) || spec_is_receipt_of(k, ps) implies #[trigger]
            m1.contains_key(k) by {
            lemma_receipt_of_unfold(k, ps);
        }
        assert forall|k: Seq<u8>| #[trigger] m1.contains_key(k) && !spec_is_receipt_of(k, ps)
            implies m1[k] == m[k] by {
            lemma_receipt_of_unfold(k, ps);
        }
        assert forall|k: Seq<u8>| spec_is_receipt_of(k, ps) implies #[trigger] m1[k]
            == spec_commitment_magic() by {
            lemma_receipt_of_unfold(k, ps);
            if spec_is_receipt_of(k, q) {
                assert(m1[k] == spec_commitment_magic());
            } else {
                assert(k == k0);
                assert(m0.contains_key(k) && m0[k] == spec_commitment_magic());
                assert(m1.contains_key(k));
                assert(m1[k] == m0[k]);
            }
        }
    }
}

/// Applying one more receipt at the end of the list is inserting that
/// receipt after applying the others.
pub proof fn lemma_apply_snoc(m: Map<Seq<u8>, Seq<u8>>, ps: Seq<Packet>, p: Packet)
    ensures
        spec_apply_receipts(m, ps.push(p)) == spec_apply_receipts(m, ps).insert(
            spec_packet_receipt_key(spec_packet_hash(p)),
            spec_commitment_magic(),
        ),
    decreases ps.len(),
{
    let magic = spec_commitment_magic();
    if ps.len() == 0 {
        assert(ps.push(p)[0] == p);
        assert(ps.push(p).drop_first().len() == 0);
        let kp = spec_packet_receipt_key(spec_packet_hash(p));
        assert(spec_apply_receipts(m, ps.push(p)) == spec_apply_receipts(
            m.insert(kp, magic),
            ps.push(p).drop_first(),
        ));
        assert(spec_apply_receipts(m.insert(kp, magic), ps.push(p).drop_first()) == m.insert(
            kp,
            magic,
        ));
        assert(spec_apply_receipts(m, ps) == m);
    } else {
        let k0 = spec_packet_receipt_key(spec_packet_hash(ps[0]));
        assert(ps.push(p)[0] == ps[0]);
        assert(ps.push(p).drop_first() =~= ps.drop_first().push(p));
        assert(spec_apply_receipts(m, ps.push(p)) == spec_apply_receipts(
            m.insert(k0, magic),
            ps.push(p).drop_first(),
        ));
        assert(spec_apply_receipts(m, ps) == spec_apply_receipts(
            m.insert(k0, magic),
            ps.drop_first(),
        ));
        lemma_apply_snoc(m.insert(k0, magic), ps.drop_first(), p);
    }
}

/// The content addresses of a list of packets, in order.
pub fn collect_packet_hashes(packets: &Vec<Packet>) -> (r: Vec<Vec<u8>>)
    ensures
        r@.len() == packets@.len(),
        forall|i: int| 0 <= i < r@.len() ==> (#[trigger] r@[i])@ == spec_packet_hash(packets@[i]),
        r@.map_values(|v: Vec<u8>| v@) == spec_packet_hashes(packets@),
{
    let n = packets.len();
    let mut r: Vec<Vec<u8>> = Vec::new();
    let mut i: usize = 0;
    while i < n
        invariant
            n == packets@.len(),
            i <= n,
            r@.len() == i,
            forall|j: int|
                0 <= j < i ==> (#[trigger] r@[j])@ == spec_packet_hash(packets@[j]),
        decreases n - i,
    {
        r.push(packet_hash(&packets[i]));
        i = i + 1;
    }
    proof {
        assert(r@.map_values(|v: Vec<u8>| v@) =~= spec_packet_hashes(packets@));
    }
    r
}

/// The canonical batch hash of a list of packets: the digest of their
/// sorted, concatenated content addresses.
pub fn compute_batch_hash(packets: &Vec<Packet>) -> (r: Vec<u8>)
    ensures
        r@ == spec_batch_hash(spec_packet_hashes(packets@)),
        r@.len() == 32,
{
    let hashes = collect_packet_hashes(packets);
    let sorted = sort_bytes(hashes);
    let concatenated = concat_hashes(&sorted);
    crate::hashing::keccak256(&concatenated)
}

impl IbcHost {
    /// Why a receive fails, if it does: the caller must be allowlisted,
    /// every packet must pass its channel and timeout checks, and unless
    /// every packet was already received the batch proof must verify.
    pub open spec fn spec_recv_err(
        s: IbcHost,
        now: Timestamp,
        caller: Seq<char>,
        ps: Seq<Packet>,
    ) -> Option<ContractError> {
        if !s.is_relayer(caller) {
            Some(ContractError::Unauthorized)
        } else if spec_recv_checks_err(s, now, ps) is Some {
            spec_recv_checks_err(s, now, ps)
        } else if !spec_all_received(s.commitments@, ps)
            && !s.channel_client(ps[0].destination_channel_id).membership_ok {
            Some(ContractError::ProofVerificationFailed)
        } else {
            None
        }
    }

    /// Receives a batch of proven packets: writes one receipt per packet
    /// not yet received and emits one event for each. Receiving a packet
    /// again is a silent skip, and a batch of only such packets is a no-op
    /// that consults no proof.
    #[verifier::rlimit(100)]
    pub fn recv_packets(&mut self, env: &Env, caller: &String, msg: MsgPacketRecv) -> (r: Result<
        Vec<Event>,
        ContractError,
    >)
        requires
            old(self).wf(),
            msg.packets@.len() == msg.relayer_msgs@.len(),
            msg.packets@.len() >= 1,
        ensures
            final(self).wf(),
            match r {
                Ok(evs) => {
                    &&& Self::spec_recv_err(*old(self), env.block_time, caller@, msg.packets@)
                        is None
                    &&& if spec_all_received(old(self).commitments@, msg.packets@) {
                        *final(self) == *old(self) && evs@.len() == 0
                    } else {
                        let fresh = spec_fresh_receipts(old(self).commitments@, msg.packets@);
                        &&& final(self).commitments@ == spec_apply_receipts(
                            old(self).commitments@,
                            msg.packets@,
                        )
                        &&& IbcHost::same_except_commitments(*final(self), *old(self))
                        &&& evs@.len() == fresh.len()
                        &&& forall|j: int|
                            0 <= j < evs@.len() ==> (#[trigger] evs@[j] matches Event::PacketRecv {
                                channel_id,
                                packet_hash,
                                relayer,
                                ..
                            } && channel_id == fresh[j].0 && packet_hash@ == fresh[j].1
                                && relayer@ == msg.relayer@)
                    }
                },
                Err(e) => {
                    &&& Some(e) == Self::spec_recv_err(
                        *old(self),
                        env.block_time,
                        caller@,
                        msg.packets@,
                    )
                    &&& *final(self) == *old(self)
                },
            },
    {
        if !self.check_relayer(caller) {
            return Err(ContractError::Unauthorized);
        }
        let ghost ps = msg.packets@;
        let now = env.block_time;
        let n = msg.packets.len();
        proof {
            assert(ps.skip(0) =~= ps);
            assert(ps.subrange(0, 0).len() == 0);
        }
        let mut i: usize = 0;
        let mut all_received = true;
        while i < n
            invariant
                old(self).wf(),
                *self == *old(self),
                self.is_relayer(caller@),
                now == env.block_time,
                n == msg.packets@.len(),
                i <= n,
                ps == msg.packets@,
                spec_recv_checks_err(*self, now, ps) == spec_recv_checks_err(
                    *self,
                    now,
                    ps.skip(i as int),
                ),
                all_received == spec_all_received(self.commitments@, ps.subrange(0, i as int)),
            decreases n - i,
        {
            let p = &msg.packets[i];
            let dst = p.destination_channel_id;
            proof {
                assert(ps.skip(i as int).len() == n - i);
                assert(ps.skip(i as int)[0] == ps[i as int]);
            }
            if dst < 1 || self.channels.len() < dst as usize {
                return Err(ContractError::InvalidChannelState);
            }
            if self.channels[(dst - 1) as usize].state != ChannelState::Open {
                return Err(ContractError::InvalidChannelState);
            }
            if now >= p.timeout_timestamp {
                return Err(ContractError::ReceivedTimedOutPacketTimestamp {
                    now,
                    timeout: p.timeout_timestamp,
                });
            }
            let h = packet_hash(p);
            let rkey = hash_key(PACKET_RECEIPT_TAG, &h);
            if !self.commitments.contains(&rkey) {
                all_received = false;
            }
            proof {
                assert(ps.skip(i as int).drop_first() =~= ps.skip(i + 1));
                let m = self.commitments@;
                let sub1 = ps.subrange(0, i + 1);
                let sub0 = ps.subrange(0, i as int);
                assert(sub1[i as int] == ps[i as int]);
                if spec_all_received(m, sub0) && m.contains_key(
                    spec_packet_receipt_key(spec_packet_hash(ps[i as int])),
                ) {
                    assert forall|j: int| 0 <= j < sub1.len() implies m.contains_key(
                        spec_packet_receipt_key(spec_packet_hash(#[trigger] sub1[j])),
                    ) by {
                        if j < i {
                            assert(sub1[j] == sub0[j]);
                        } else {
                            assert(sub1[j] == ps[i as int]);
                        }
                    }
                }
                if spec_all_received(m, sub1) {
                    assert forall|j: int| 0 <= j < sub0.len() implies m.contains_key(
                        spec_packet_receipt_key(spec_packet_hash(#[trigger] sub0[j])),
                    ) by {
                        assert(sub0[j] == sub1[j]);
                    }
                    assert(sub1[i as int] == ps[i as int]);
                    assert(m.contains_key(
                        spec_packet_receipt_key(spec_packet_hash(ps[i as int])),
                    ));
                }
            }
            i = i + 1;
        }
        proof {
            assert(ps.skip(n as int).len() == 0);
            assert(ps.subrange(0, n as int) =~= ps);
        }
        if all_received {
            return Ok(Vec::new());
        }
        let first_dst = msg.packets[0].destination_channel_id;
        let conn_id = self.channels[(first_dst - 1) as usize].connection_id;
        let client_id = self.connections[(conn_id - 1) as usize].client_id;
        let membership = {
            let batch_hash = compute_batch_hash(&msg.packets);
            let key = hash_key(BATCH_PACKETS_TAG, &batch_hash);
            let magic = commitment_magic();
            self.clients[(client_id - 1) as usize].client.verify_membership(
                msg.proof_height,
                &key,
                &msg.proof,
                &magic,
            )
        };
        if !membership {
            return Err(ContractError::ProofVerificationFailed);
        }
        let ghost m0 = self.commitments@;
        let mut evs: Vec<Event> = Vec::new();
        let mut i: usize = 0;
        while i < n
            invariant
                n == msg.packets@.len(),
                n == msg.relayer_msgs@.len(),
                ps == msg.packets@,
                i <= n,
                self.commitments.wf(),
                acks_have_receipts_map(self.commitments@),
                presence_values_magic(self.commitments@),
                presence_values_magic(m0),
                self.commitments@ == spec_apply_receipts(m0, ps.subrange(0, i as int)),
                self.relayers == old(self).relayers,
                self.relayers_admin == old(self).relayers_admin,
                self.registered_types == old(self).registered_types,
                self.clients == old(self).clients,
                self.connections == old(self).connections,
                self.channels == old(self).channels,
                self.channel_owners == old(self).channel_owners,
                evs@.len() == spec_fresh_receipts(m0, ps.subrange(0, i as int)).len(),
                forall|j: int|
                    0 <= j < evs@.len() ==> (#[trigger] evs@[j] matches Event::PacketRecv {
                        channel_id,
                        packet_hash,
                        relayer,
                        ..
                    } && channel_id == spec_fresh_receipts(m0, ps.subrange(0, i as int))[j].0
                        && packet_hash@ == spec_fresh_receipts(m0, ps.subrange(0, i as int))[j].1
                        && relayer@ == msg.relayer@),
            decreases n - i,
        {
            let p = &msg.packets[i];
            let h = packet_hash(p);
            let rkey = hash_key(PACKET_RECEIPT_TAG, &h);
            let ghost mcur = self.commitments@;
            let ghost rkeyv = rkey@;
            proof {
                assert(ps.subrange(0, i + 1) =~= ps.subrange(0, i as int).push(ps[i as int]));
                lemma_apply_snoc(m0, ps.subrange(0, i as int), ps[i as int]);
                lemma_fresh_snoc(m0, ps.subrange(0, i as int), ps[i as int]);
            }
            if !self.commitments.contains(&rkey) {
                let magic = commitment_magic();
                self.commitments.write(rkey, magic);
                proof {
                    lemma_ahr_insert_other(mcur, rkeyv, spec_commitment_magic());
                    lemma_pvm_insert_magic(mcur, rkeyv);
                }
                evs.push(Event::PacketRecv {
                    channel_id: p.destination_channel_id,
                    packet_hash: h,
                    relayer: msg.relayer.clone(),
                    relayer_msg: copy_bytes(&msg.relayer_msgs[i]),
                });
            } else {
                proof {
                    assert(mcur.contains_key(rkeyv));
                    assert(rkeyv.len() >= 1 && rkeyv[0] == PACKET_RECEIPT_TAG);
                    assert(mcur[rkeyv] == spec_commitment_magic());
                    assert(mcur.insert(rkeyv, spec_commitment_magic()) =~= mcur);
                }
            }
            i = i + 1;
        }
        proof {
            assert(ps.subrange(0, n as int) =~= ps);
        }
        Ok(evs)
    }
}

/// Whether `k` is the commitment key of some packet of the list.
pub open spec fn spec_is_commitment_of(k: Seq<u8>, ps: Seq<Packet>) -> bool {
    exists|i: int|
        0 <= i < ps.len() && k == spec_packet_commitment_key(spec_packet_hash(#[trigger] ps[i]))
}

/// The store after deleting the commitment of every packet of the list.
pub open spec fn spec_remove_commitments(m: Map<Seq<u8>, Seq<u8>>, ps: Seq<Packet>) -> Map<
    Seq<u8>,
    Seq<u8>,
>
    decreases ps.len(),
{
    if ps.len() == 0 {
        m
    } else {
        spec_remove_commitments(
            m.remove(spec_packet_commitment_key(spec_packet_hash(ps[0]))),
            ps.drop_first(),
        )
    }
}

/// Being a commitment key of a non-empty list means being the first
/// packet's commitment key or one of the rest's.
pub proof fn lemma_commitment_of_unfold(k: Seq<u8>, ps: Seq<Packet>)
    requires
        ps.len() > 0,
    ensures
        spec_is_commitment_of(k, ps) <==> (k == spec_packet_commitment_key(spec_packet_hash(ps[0]))
            || spec_is_commitment_of(k, ps.drop_first())),
{
    let q = ps.drop_first();
    if spec_is_commitment_of(k, ps) {
        let i = choose|i: int|
            0 <= i < ps.len() && k == spec_packet_commitment_key(
                spec_packet_hash(#[trigger] ps[i]),
            );
        if i > 0 {
            assert(q[i - 1] == ps[i]);
            assert(spec_is_commitment_of(k, q));
        }
    }
    if k == spec_packet_commitment_key(spec_packet_hash(ps[0])) {
        assert(spec_is_commitment_of(k, ps));
    }
    if spec_is_commitment_of(k, q) {
        let j = choose|j: int|
            0 <= j < q.len() && k == spec_packet_commitment_key(spec_packet_hash(#[trigger] q[j]));
        assert(ps[j + 1] == q[j]);
        assert(spec_is_commitment_of(k, ps));
    }
}

/// What deleting commitments does to the store: commitment keys of the
/// list leave, every other key stays untouched.
pub proof fn lemma_remove_commitments(m: Map<Seq<u8>, Seq<u8>>, ps: Seq<Packet>)
    ensures
        ({
            let m1 = spec_remove_commitments(m, ps);
            &&& forall|k: Seq<u8>|
                #[trigger] m1.contains_key(k) <==> (m.contains_key(k) && !spec_is_commitment_of(
                    k,
                    ps,
                ))
            &&& forall|k: Seq<u8>| #[trigger] m1.contains_key(k) ==> m1[k] == m[k]
        }),
    decreases ps.len(),
{
    if ps.len() == 0 {
        assert(forall|k: Seq<u8>| !spec_is_commitment_of(k, ps));
    } else {
        let k0 = spec_packet_commitment_key(spec_packet_hash(ps[0]));
        let q = ps.drop_first();
        let m0 = m.remove(k0);
        lemma_remove_commitments(m0, q);
        let m1 = spec_remove_commitments(m, ps);
        assert(m1 == spec_remove_commitments(m0, q));
        assert forall|k: Seq<u8>| #[trigger] m1.contains_key(k) implies (m.contains_key(k)
            && !spec_is_commitment_of(k, ps)) by {
            lemma_commitment_of_unfold(k, ps);
        }
        assert forall|k: Seq<u8>| m.contains_key(k) && !spec_is_commitment_of(k, ps) implies
            #[trigger] m1.contains_key(k) by {
            lemma_commitment_of_unfold(k, ps);
        }
    }
}

/// Deleting one more commitment at the end of the list is removing that
/// key after deleting the others.
pub proof fn lemma_remove_snoc(m: Map<Seq<u8>, Seq<u8>>, ps: Seq<Packet>, p: Packet)
    ensures
        spec_remove_commitments(m, ps.push(p)) == spec_remove_commitments(m, ps).remove(
            spec_packet_commitment_key(spec_packet_hash(p)),
        ),
    decreases ps.len(),
{
    if ps.len() == 0 {
        assert(ps.push(p)[0] == p);
        assert(ps.push(p).drop_first().len() == 0);
        let kp = spec_packet_commitment_key(spec_packet_hash(p));
        assert(spec_remove_commitments(m, ps.push(p)) == spec_remove_commitments(
            m.remove(kp),
            ps.push(p).drop_first(),
        ));
        assert(spec_remove_commitments(m.remove(kp), ps.push(p).drop_first()) == m.remove(kp));
        assert(spec_remove_commitments(m, ps) == m);
    } else {
        let k0 = spec_packet_commitment_key(spec_packet_hash(ps[0]));
        assert(ps.push(p)[0] == ps[0]);
        assert(ps.push(p).drop_first() =~= ps.drop_first().push(p));
        assert(spec_remove_commitments(m, ps.push(p)) == spec_remove_commitments(
            m.remove(k0),
            ps.push(p).drop_first(),
        ));
        assert(spec_remove_commitments(m, ps) == spec_remove_commitments(
            m.remove(k0),
            ps.drop_first(),
        ));
        lemma_remove_snoc(m.remove(k0), ps.drop_first(), p);
    }
}

/// Whether every packet of the list has a live commitment in the store.
pub open spec fn spec_all_committed(m: Map<Seq<u8>, Seq<u8>>, ps: Seq<Packet>) -> bool {
    forall|i: int|
        0 <= i < ps.len() ==> m.contains_key(
            spec_packet_commitment_key(spec_packet_hash(#[trigger] ps[i])),
        )
}

/// Whether every packet of the list has a written acknowledgement.
pub open spec fn spec_all_acked(m: Map<Seq<u8>, Seq<u8>>, ps: Seq<Packet>) -> bool {
    forall|i: int|
        0 <= i < ps.len() ==> m.contains_key(
            spec_packet_ack_key(spec_packet_hash(#[trigger] ps[i])),
        )
}

impl IbcHost {
    /// Why an intent receive fails, if it does: as a receive, but no proof
    /// is consulted at all.
    pub open spec fn spec_intent_recv_err(
        s: IbcHost,
        now: Timestamp,
        caller: Seq<char>,
        ps: Seq<Packet>,
    ) -> Option<ContractError> {
        if !s.is_relayer(caller) {
            Some(ContractError::Unauthorized)
        } else if spec_recv_checks_err(s, now, ps) is Some {
            spec_recv_checks_err(s, now, ps)
        } else {
            None
        }
    }

    /// Receives packets on a market maker's own responsibility: exactly as
    /// a proven receive, except that no membership proof is consulted. The
    /// timeout check still applies.
    #[verifier::rlimit(100)]
    pub fn intent_recv_packets(&mut self, env: &Env, caller: &String, msg: MsgIntentPacketRecv) -> (r:
        Result<Vec<Event>, ContractError>)
        requires
            old(self).wf(),
            msg.packets@.len() == msg.market_maker_msgs@.len(),
            msg.packets@.len() >= 1,
        ensures
            final(self).wf(),
            match r {
                Ok(evs) => {
                    &&& Self::spec_intent_recv_err(
                        *old(self),
                        env.block_time,
                        caller@,
                        msg.packets@,
                    ) is None
                    &&& if spec_all_received(old(self).commitments@, msg.packets@) {
                        *final(self) == *old(self) && evs@.len() == 0
                    } else {
                        let fresh = spec_fresh_receipts(old(self).commitments@, msg.packets@);
                        &&& final(self).commitments@ == spec_apply_receipts(
                            old(self).commitments@,
                            msg.packets@,
                        )
                        &&& IbcHost::same_except_commitments(*final(self), *old(self))
                        &&& evs@.len() == fresh.len()
                        &&& forall|j: int|
                            0 <= j < evs@.len() ==> (#[trigger] evs@[j]
                                matches Event::IntentPacketRecv {
                                channel_id,
                                packet_hash,
                                market_maker,
                                ..
                            } && channel_id == fresh[j].0 && packet_hash@ == fresh[j].1
                                && market_maker@ == msg.market_maker@)
                    }
                },
                Err(e) => {
                    &&& Some(e) == Self::spec_intent_recv_err(
                        *old(self),
                        env.block_time,
                        caller@,
                        msg.packets@,
                    )
                    &&& *final(self) == *old(self)
                },
            },
    {
        if !self.check_relayer(caller) {
            return Err(ContractError::Unauthorized);
        }
        let ghost ps = msg.packets@;
        let now = env.block_time;
        let n = msg.packets.len();
        proof {
            assert(ps.skip(0) =~= ps);
            assert(ps.subrange(0, 0).len() == 0);
        }
        let mut i: usize = 0;
        let mut all_received = true;
        while i < n
            invariant
                old(self).wf(),
                *self == *old(self),
                self.is_relayer(caller@),
                now == env.block_time,
                n == msg.packets@.len(),
                i <= n,
                ps == msg.packets@,
                spec_recv_checks_err(*self, now, ps) == spec_recv_checks_err(
                    *self,
                    now,
                    ps.skip(i as int),
                ),
                all_received == spec_all_received(self.commitments@, ps.subrange(0, i as int)),
            decreases n - i,
        {
            let p = &msg.packets[i];
            let dst = p.destination_channel_id;
            proof {
                assert(ps.skip(i as int).len() == n - i);
                assert(ps.skip(i as int)[0] == ps[i as int]);
            }
            if dst < 1 || self.channels.len() < dst as usize {
                return Err(ContractError::InvalidChannelState);
            }
            if self.channels[(dst - 1) as usize].state != ChannelState::Open {
                return Err(ContractError::InvalidChannelState);
            }
            if now >= p.timeout_timestamp {
                return Err(ContractError::ReceivedTimedOutPacketTimestamp {
                    now,
                    timeout: p.timeout_timestamp,
                });
            }
            let h = packet_hash(p);
            let rkey = hash_key(PACKET_RECEIPT_TAG, &h);
            if !self.commitments.contains(&rkey) {
                all_received = false;
            }
            proof {
                assert(ps.skip(i as int).drop_first() =~= ps.skip(i + 1));
                let m = self.commitments@;
                let sub1 = ps.subrange(0, i + 1);
                let sub0 = ps.subrange(0, i as int);
                assert(sub1[i as int] == ps[i as int]);
                if spec_all_received(m, sub0) && m.contains_key(
                    spec_packet_receipt_key(spec_packet_hash(ps[i as int])),
                ) {
                    assert forall|j: int| 0 <= j < sub1.len() implies m.contains_key(
                        spec_packet_receipt_key(spec_packet_hash(#[trigger] sub1[j])),
                    ) by {
                        if j < i {
                            assert(sub1[j] == sub0[j]);
                        } else {
                            assert(sub1[j] == ps[i as int]);
                        }
                    }
                }
                if spec_all_received(m, sub1) {
                    assert forall|j: int| 0 <= j < sub0.len() implies m.contains_key(
                        spec_packet_receipt_key(spec_packet_hash(#[trigger] sub0[j])),
                    ) by {
                        assert(sub0[j] == sub1[j]);
                    }
                    assert(sub1[i as int] == ps[i as int]);
                    assert(m.contains_key(
                        spec_packet_receipt_key(spec_packet_hash(ps[i as int])),
                    ));
                }
            }
            i = i + 1;
        }
        proof {
            assert(ps.skip(n as int).len() == 0);
            assert(ps.subrange(0, n as int) =~= ps);
        }
        if all_received {
            return Ok(Vec::new());
        }
        let ghost m0 = self.commitments@;
        let mut evs: Vec<Event> = Vec::new();
        let mut i: usize = 0;
        while i < n
            invariant
                n == msg.packets@.len(),
                n == msg.market_maker_msgs@.len(),
                ps == msg.packets@,
                i <= n,
                self.commitments.wf(),
                acks_have_receipts_map(self.commitments@),
                presence_values_magic(self.commitments@),
                presence_values_magic(m0),
                self.commitments@ == spec_apply_receipts(m0, ps.subrange(0, i as int)),
                self.relayers == old(self).relayers,
                self.relayers_admin == old(self).relayers_admin,
                self.registered_types == old(self).registered_types,
                self.clients == old(self).clients,
                self.connections == old(self).connections,
                self.channels == old(self).channels,
                self.channel_owners == old(self).channel_owners,
                evs@.len() == spec_fresh_receipts(m0, ps.subrange(0, i as int)).len(),
                forall|j: int|
                    0 <= j < evs@.len() ==> (#[trigger] evs@[j]
                        matches Event::IntentPacketRecv {
                        channel_id,
                        packet_hash,
                        market_maker,
                        ..
                    } && channel_id == spec_fresh_receipts(m0, ps.subrange(0, i as int))[j].0
                        && packet_hash@ == spec_fresh_receipts(m0, ps.subrange(0, i as int))[j].1
                        && market_maker@ == msg.market_maker@),
            decreases n - i,
        {
            let p = &msg.packets[i];
            let h = packet_hash(p);
            let rkey = hash_key(PACKET_RECEIPT_TAG, &h);
            let ghost mcur = self.commitments@;
            let ghost rkeyv = rkey@;
            proof {
                assert(ps.subrange(0, i + 1) =~= ps.subrange(0, i as int).push(ps[i as int]));
                lemma_apply_snoc(m0, ps.subrange(0, i as int), ps[i as int]);
                lemma_fresh_snoc(m0, ps.subrange(0, i as int), ps[i as int]);
            }
            if !self.commitments.contains(&rkey) {
                let magic = commitment_magic();
                self.commitments.write(rkey, magic);
                proof {
                    lemma_ahr_insert_other(mcur, rkeyv, spec_commitment_magic());
                    lemma_pvm_insert_magic(mcur, rkeyv);
                }
                evs.push(Event::IntentPacketRecv {
                    channel_id: p.destination_channel_id,
                    packet_hash: h,
                    market_maker: msg.market_maker.clone(),
                    market_maker_msg: copy_bytes(&msg.market_maker_msgs[i]),
                });
            } else {
                proof {
                    assert(mcur.contains_key(rkeyv));
                    assert(rkeyv.len() >= 1 && rkeyv[0] == PACKET_RECEIPT_TAG);
                    assert(mcur[rkeyv] == spec_commitment_magic());
                    assert(mcur.insert(rkeyv, spec_commitment_magic()) =~= mcur);
                }
            }
            i = i + 1;
        }
        proof {
            assert(ps.subrange(0, n as int) =~= ps);
        }
        Ok(evs)
    }
}

impl IbcHost {
    /// Why an acknowledgement settlement fails, if it does.
    pub open spec fn spec_ack_err(
        s: IbcHost,
        caller: Seq<char>,
        ps: Seq<Packet>,
    ) -> Option<ContractError> {
        if !s.is_relayer(caller) {
            Some(ContractError::Unauthorized)
        } else if !s.channel_open(ps[0].source_channel_id) {
            Some(ContractError::InvalidChannelState)
        } else if !spec_all_committed(s.commitments@, ps) {
            Some(ContractError::PacketCommitmentNotFound)
        } else if !s.channel_client(ps[0].source_channel_id).membership_ok {
            Some(ContractError::ProofVerificationFailed)
        } else {
            None
        }
    }

    /// Settles sent packets against acknowledgements proven on the
    /// counterparty: every packet must still have a live commitment — a
    /// tampered or never-sent packet has none — and on success every
    /// commitment is deleted, one event per packet.
    #[verifier::rlimit(100)]
    pub fn acknowledge_packets(&mut self, caller: &String, msg: MsgPacketAcknowledgement) -> (r:
        Result<Vec<Event>, ContractError>)
        requires
            old(self).wf(),
            msg.packets@.len() == msg.acknowledgements@.len(),
            msg.packets@.len() >= 1,
        ensures
            final(self).wf(),
            match r {
                Ok(evs) => {
                    &&& Self::spec_ack_err(*old(self), caller@, msg.packets@) is None
                    &&& final(self).commitments@ == spec_remove_commitments(
                        old(self).commitments@,
                        msg.packets@,
                    )
                    &&& IbcHost::same_except_commitments(*final(self), *old(self))
                    &&& evs@.len() == msg.packets@.len()
                    &&& forall|i: int|
                        0 <= i < evs@.len() ==> (#[trigger] evs@[i] matches Event::PacketAck {
                            channel_id,
                            packet_hash,
                            acknowledgement,
                        } && channel_id == msg.packets@[i].source_channel_id && packet_hash@
                            == spec_packet_hash(msg.packets@[i]) && acknowledgement@
                            == msg.acknowledgements@[i]@)
                },
                Err(e) => {
                    &&& Some(e) == Self::spec_ack_err(*old(self), caller@, msg.packets@)
                    &&& *final(self) == *old(self)
                },
            },
    {
        if !self.check_relayer(caller) {
            return Err(ContractError::Unauthorized);
        }
        let ghost ps = msg.packets@;
        let first_src = msg.packets[0].source_channel_id;
        if first_src < 1 || self.channels.len() < first_src as usize {
            return Err(ContractError::InvalidChannelState);
        }
        if self.channels[(first_src - 1) as usize].state != ChannelState::Open {
            return Err(ContractError::InvalidChannelState);
        }
        let n = msg.packets.len();
        let mut i: usize = 0;
        while i < n
            invariant
                old(self).wf(),
                *self == *old(self),
                self.is_relayer(caller@),
                self.channel_open(msg.packets@[0].source_channel_id),
                n == msg.packets@.len(),
                i <= n,
                ps == msg.packets@,
                forall|j: int|
                    0 <= j < i ==> self.commitments@.contains_key(
                        spec_packet_commitment_key(spec_packet_hash(#[trigger] ps[j])),
                    ),
            decreases n - i,
        {
            let p = &msg.packets[i];
            let h = packet_hash(p);
            let ckey = hash_key(PACKET_COMMITMENT_TAG, &h);
            if !self.commitments.contains(&ckey) {
                proof {
                    assert(!spec_all_committed(self.commitments@, ps));
                }
                return Err(ContractError::PacketCommitmentNotFound);
            }
            i = i + 1;
        }
        proof {
            assert(spec_all_committed(self.commitments@, ps));
        }
        let conn_id = self.channels[(first_src - 1) as usize].connection_id;
        let client_id = self.connections[(conn_id - 1) as usize].client_id;
        let membership = {
            let batch_hash = compute_batch_hash(&msg.packets);
            let key = hash_key(BATCH_RECEIPTS_TAG, &batch_hash);
            let mut ack_commitments: Vec<Vec<u8>> = Vec::new();
            let mut k: usize = 0;
            while k < n
                invariant
                    n == msg.acknowledgements@.len(),
                    k <= n,
                decreases n - k,
            {
                ack_commitments.push(ack_commitment(&msg.acknowledgements[k]));
                k = k + 1;
            }
            let value = crate::hashing::keccak256(&concat_hashes(&ack_commitments));
            self.clients[(client_id - 1) as usize].client.verify_membership(
                msg.proof_height,
                &key,
                &msg.proof,
                &value,
            )
        };
        if !membership {
            return Err(ContractError::ProofVerificationFailed);
        }
        let ghost m0 = self.commitments@;
        let mut evs: Vec<Event> = Vec::new();
        let mut i: usize = 0;
        while i < n
            invariant
                n == msg.packets@.len(),
                n == msg.acknowledgements@.len(),
                ps == msg.packets@,
                i <= n,
                self.commitments.wf(),
                acks_have_receipts_map(self.commitments@),
                presence_values_magic(self.commitments@),
                self.commitments@ == spec_remove_commitments(m0, ps.subrange(0, i as int)),
                self.relayers == old(self).relayers,
                self.relayers_admin == old(self).relayers_admin,
                self.registered_types == old(self).registered_types,
                self.clients == old(self).clients,
                self.connections == old(self).connections,
                self.channels == old(self).channels,
                self.channel_owners == old(self).channel_owners,
                evs@.len() == i,
                forall|j: int|
                    0 <= j < i ==> (#[trigger] evs@[j] matches Event::PacketAck {
                        channel_id,
                        packet_hash,
                        acknowledgement,
                    } && channel_id == ps[j].source_channel_id && packet_hash@
                        == spec_packet_hash(ps[j]) && acknowledgement@
                        == msg.acknowledgements@[j]@),
            decreases n - i,
        {
            let p = &msg.packets[i];
            let h = packet_hash(p);
            let ckey = hash_key(PACKET_COMMITMENT_TAG, &h);
            let ghost mcur = self.commitments@;
            let ghost ckeyv = ckey@;
            self.commitments.delete(&ckey);
            proof {
                lemma_ahr_remove_other(mcur, ckeyv);
                lemma_pvm_remove(mcur, ckeyv);
                assert(ps.subrange(0, i + 1) =~= ps.subrange(0, i as int).push(ps[i as int]));
                lemma_remove_snoc(m0, ps.subrange(0, i as int), ps[i as int]);
            }
            evs.push(Event::PacketAck {
                channel_id: p.source_channel_id,
                packet_hash: h,
                acknowledgement: copy_bytes(&msg.acknowledgements[i]),
            });
            i = i + 1;
        }
        proof {
            assert(ps.subrange(0, n as int) =~= ps);
        }
        Ok(evs)
    }

    /// Why a timeout settlement fails, if it does.
    pub open spec fn spec_timeout_err(
        s: IbcHost,
        caller: Seq<char>,
        msg: MsgPacketTimeout,
    ) -> Option<ContractError> {
        let h = spec_packet_hash(msg.packet);
        let src = msg.packet.source_channel_id;
        if !s.is_relayer(caller) {
            Some(ContractError::Unauthorized)
        } else if !s.channel_open(src) {
            Some(ContractError::InvalidChannelState)
        } else if !s.commitments@.contains_key(spec_packet_commitment_key(h)) {
            Some(ContractError::PacketCommitmentNotFound)
        } else if s.channel_client(src).timestamp < msg.packet.timeout_timestamp {
            Some(ContractError::TimeoutTimestampNotReached)
        } else if !s.channel_client(src).non_membership_ok {
            Some(ContractError::ProofVerificationFailed)
        } else {
            None
        }
    }

    /// Settles a sent packet as timed out: the client must attest a
    /// counterparty time at or past the packet's timeout and the absence
    /// of a receipt there; the commitment is then deleted.
    #[verifier::rlimit(100)]
    pub fn timeout_packet(&mut self, caller: &String, msg: MsgPacketTimeout) -> (r: Result<
        Vec<Event>,
        ContractError,
    >)
        requires
            old(self).wf(),
        ensures
            final(self).wf(),
            match r {
                Ok(evs) => ({
                    let h = spec_packet_hash(msg.packet);
                    &&& Self::spec_timeout_err(*old(self), caller@, msg) is None
                    &&& old(self).channel_client(msg.packet.source_channel_id).timestamp
                        >= msg.packet.timeout_timestamp
                    &&& final(self).commitments@ == old(self).commitments@.remove(
                        spec_packet_commitment_key(h),
                    )
                    &&& IbcHost::same_except_commitments(*final(self), *old(self))
                    &&& evs@.len() == 1
                    &&& evs@[0] matches Event::PacketTimeout { channel_id, packet_hash }
                        && channel_id == msg.packet.source_channel_id && packet_hash@ == h
                }),
                Err(e) => {
                    &&& Some(e) == Self::spec_timeout_err(*old(self), caller@, msg)
                    &&& *final(self) == *old(self)
                },
            },
    {
        if !self.check_relayer(caller) {
            return Err(ContractError::Unauthorized);
        }
        let src = msg.packet.source_channel_id;
        if src < 1 || self.channels.len() < src as usize {
            return Err(ContractError::InvalidChannelState);
        }
        if self.channels[(src - 1) as usize].state != ChannelState::Open {
            return Err(ContractError::InvalidChannelState);
        }
        let h = packet_hash(&msg.packet);
        let ckey = hash_key(PACKET_COMMITMENT_TAG, &h);
        if !self.commitments.contains(&ckey) {
            return Err(ContractError::PacketCommitmentNotFound);
        }
        let conn_id = self.channels[(src - 1) as usize].connection_id;
        let client_id = self.connections[(conn_id - 1) as usize].client_id;
        let counterparty_time = self.clients[(client_id - 1) as usize].client.get_timestamp(
            msg.proof_height,
        );
        if counterparty_time < msg.packet.timeout_timestamp {
            return Err(ContractError::TimeoutTimestampNotReached);
        }
        let receipt_key = hash_key(PACKET_RECEIPT_TAG, &h);
        let non_membership = self.clients[(client_id - 1) as usize].client.verify_non_membership(
            msg.proof_height,
            &receipt_key,
            &msg.proof,
        );
        if !non_membership {
            return Err(ContractError::ProofVerificationFailed);
        }
        let ghost mcur = self.commitments@;
        let ghost ckeyv = ckey@;
        self.commitments.delete(&ckey);
        proof {
            lemma_ahr_remove_other(mcur, ckeyv);
            lemma_pvm_remove(mcur, ckeyv);
        }
        let mut evs: Vec<Event> = Vec::new();
        evs.push(Event::PacketTimeout { channel_id: src, packet_hash: h });
        Ok(evs)
    }

    /// Why a batch-send commitment fails, if it does.
    pub open spec fn spec_batch_send_err(s: IbcHost, ps: Seq<Packet>) -> Option<ContractError> {
        if !spec_all_committed(s.commitments@, ps) {
            Some(ContractError::PacketCommitmentNotFound)
        } else {
            None
        }
    }

    /// Commits to an ordered batch of already-sent packets under one hash,
    /// so the counterparty can verify them with a single proof.
    #[verifier::rlimit(100)]
    pub fn batch_send(&mut self, msg: MsgBatchSend) -> (r: Result<Vec<Event>, ContractError>)
        requires
            old(self).wf(),
            msg.packets@.len() >= 1,
        ensures
            final(self).wf(),
            match r {
                Ok(evs) => ({
                    let bh = spec_batch_hash(spec_packet_hashes(msg.packets@));
                    &&& Self::spec_batch_send_err(*old(self), msg.packets@) is None
                    &&& final(self).commitments@ == old(self).commitments@.insert(
                        spec_batch_packets_key(bh),
                        spec_commitment_magic(),
                    )
                    &&& IbcHost::same_except_commitments(*final(self), *old(self))
                    &&& evs@.len() == 1
                    &&& evs@[0] matches Event::BatchSend { channel_id, batch_hash } && channel_id
                        == msg.packets@[0].source_channel_id && batch_hash@ == bh
                }),
                Err(e) => {
                    &&& Some(e) == Self::spec_batch_send_err(*old(self), msg.packets@)
                    &&& *final(self) == *old(self)
                },
            },
    {
        let ghost ps = msg.packets@;
        let n = msg.packets.len();
        let mut i: usize = 0;
        while i < n
            invariant
                old(self).wf(),
                *self == *old(self),
                n == msg.packets@.len(),
                i <= n,
                ps == msg.packets@,
                forall|j: int|
                    0 <= j < i ==> self.commitments@.contains_key(
                        spec_packet_commitment_key(spec_packet_hash(#[trigger] ps[j])),
                    ),
            decreases n - i,
        {
            let p = &msg.packets[i];
            let h = packet_hash(p);
            let ckey = hash_key(PACKET_COMMITMENT_TAG, &h);
            if !self.commitments.contains(&ckey) {
                proof {
                    assert(!spec_all_committed(self.commitments@, ps));
                }
                return Err(ContractError::PacketCommitmentNotFound);
            }
            i = i + 1;
        }
        proof {
            assert(spec_all_committed(self.commitments@, ps));
        }
        let batch_hash = compute_batch_hash(&msg.packets);
        let key = hash_key(BATCH_PACKETS_TAG, &batch_hash);
        let value = commitment_magic();
        let ghost mcur = self.commitments@;
        let ghost keyv = key@;
        self.commitments.write(key, value);
        proof {
            lemma_ahr_insert_other(mcur, keyv, spec_commitment_magic());
            lemma_pvm_insert_magic(mcur, keyv);
        }
        let mut evs: Vec<Event> = Vec::new();
        evs.push(Event::BatchSend {
            channel_id: msg.packets[0].source_channel_id,
            batch_hash,
        });
        Ok(evs)
    }

    /// Why a batch-acks commitment fails, if it does.
    pub open spec fn spec_batch_acks_err(s: IbcHost, ps: Seq<Packet>) -> Option<ContractError> {
        if !spec_all_acked(s.commitments@, ps) {
            Some(ContractError::PacketCommitmentNotFound)
        } else {
            None
        }
    }

    /// The acknowledgement commitments stored for a list of packets, in
    /// submission order.
    pub open spec fn spec_stored_acks(m: Map<Seq<u8>, Seq<u8>>, ps: Seq<Packet>) -> Seq<Seq<u8>> {
        ps.map_values(|p: Packet| m[spec_packet_ack_key(spec_packet_hash(p))])
    }

    /// Commits to the written acknowledgements of a batch of received
    /// packets under the batch's hash. Every packet must carry the same
    /// channel pair and have its acknowledgement written; a mutated packet
    /// has none.
    #[verifier::rlimit(100)]
    pub fn batch_acks(&mut self, msg: MsgBatchAcks) -> (r: Result<Vec<Event>, ContractError>)
        requires
            old(self).wf(),
            msg.packets@.len() >= 1,
            msg.packets@.len() == msg.acks@.len(),
            forall|i: int|
                0 <= i < msg.packets@.len() ==> (#[trigger] msg.packets@[i]).source_channel_id
                    == msg.packets@[0].source_channel_id && msg.packets@[i].destination_channel_id
                    == msg.packets@[0].destination_channel_id,
        ensures
            final(self).wf(),
            match r {
                Ok(evs) => ({
                    let bh = spec_batch_hash(spec_packet_hashes(msg.packets@));
                    let value = keccak_of(spec_concat_hashes(Self::spec_stored_acks(
                        old(self).commitments@,
                        msg.packets@,
                    )));
                    &&& Self::spec_batch_acks_err(*old(self), msg.packets@) is None
                    &&& final(self).commitments@ == old(self).commitments@.insert(
                        spec_batch_receipts_key(bh),
                        value,
                    )
                    &&& IbcHost::same_except_commitments(*final(self), *old(self))
                    &&& evs@.len() == 1
                    &&& evs@[0] matches Event::BatchAcks { channel_id, batch_hash } && channel_id
                        == msg.packets@[0].destination_channel_id && batch_hash@ == bh
                }),
                Err(e) => {
                    &&& Some(e) == Self::spec_batch_acks_err(*old(self), msg.packets@)
                    &&& *final(self) == *old(self)
                },
            },
    {
        let ghost ps = msg.packets@;
        let n = msg.packets.len();
        let mut stored: Vec<Vec<u8>> = Vec::new();
        let mut i: usize = 0;
        while i < n
            invariant
                old(self).wf(),
                *self == *old(self),
                n == msg.packets@.len(),
                i <= n,
                ps == msg.packets@,
                stored@.len() == i,
                forall|j: int|
                    0 <= j < i ==> self.commitments@.contains_key(
                        spec_packet_ack_key(spec_packet_hash(#[trigger] ps[j])),
                    ),
                forall|j: int|
                    0 <= j < i ==> (#[trigger] stored@[j])@ == self.commitments@[
                        spec_packet_ack_key(spec_packet_hash(ps[j]))],
            decreases n - i,
        {
            let p = &msg.packets[i];
            let h = packet_hash(p);
            let akey = hash_key(PACKET_ACK_TAG, &h);
            match self.commitments.read(&akey) {
                Some(v) => {
                    let copied = copy_bytes(v);
                    stored.push(copied);
                },
                None => {
                    proof {
                        assert(!spec_all_acked(self.commitments@, ps));
                    }
                    return Err(ContractError::PacketCommitmentNotFound);
                },
            }
            i = i + 1;
        }
        proof {
            assert(spec_all_acked(self.commitments@, ps));
            assert(stored@.map_values(|v: Vec<u8>| v@) =~= Self::spec_stored_acks(
                self.commitments@,
                ps,
            ));
        }
        let batch_hash = compute_batch_hash(&msg.packets);
        let key = hash_key(BATCH_RECEIPTS_TAG, &batch_hash);
        let value = crate::hashing::keccak256(&concat_hashes(&stored));
        let ghost mcur = self.commitments@;
        let ghost keyv = key@;
        let ghost valuev = value@;
        self.commitments.write(key, value);
        proof {
            lemma_ahr_insert_other(mcur, keyv, valuev);
            lemma_pvm_insert_other(mcur, keyv, valuev);
        }
        let mut evs: Vec<Event> = Vec::new();
        evs.push(Event::BatchAcks {
            channel_id: msg.packets[0].destination_channel_id,
            batch_hash,
        });
        Ok(evs)
    }
}

/// The destination channel and hash of each packet a receive freshly
/// records, in order: a packet already received, or repeated earlier in
/// the same batch, contributes nothing.
pub open spec fn spec_fresh_receipts(m: Map<Seq<u8>, Seq<u8>>, ps: Seq<Packet>) -> Seq<
    (u32, Seq<u8>),
>
    decreases ps.len(),
{
    if ps.len() == 0 {
        Seq::empty()
    } else {
        let k0 = spec_packet_receipt_key(spec_packet_hash(ps[0]));
        if m.contains_key(k0) {
            spec_fresh_receipts(m, ps.drop_first())
        } else {
            seq![(ps[0].destination_channel_id, spec_packet_hash(ps[0]))] + spec_fresh_receipts(
                m.insert(k0, spec_commitment_magic()),
                ps.drop_first(),
            )
        }
    }
}

/// One more packet at the end of the batch: it contributes an entry
/// exactly when its receipt is absent after the receipts of the packets
/// before it were applied.
pub proof fn lemma_fresh_snoc(m: Map<Seq<u8>, Seq<u8>>, ps: Seq<Packet>, p: Packet)
    requires
        presence_values_magic(m),
    ensures
        spec_fresh_receipts(m, ps.push(p)) == spec_fresh_receipts(m, ps) + (
        if spec_apply_receipts(m, ps).contains_key(
            spec_packet_receipt_key(spec_packet_hash(p)),
        ) {
            Seq::<(u32, Seq<u8>)>::empty()
        } else {
            seq![(p.destination_channel_id, spec_packet_hash(p))]
        }),
    decreases ps.len(),
{
    let kp = spec_packet_receipt_key(spec_packet_hash(p));
    if ps.len() == 0 {
        assert(ps.push(p)[0] == p);
        assert(ps.push(p).drop_first().len() == 0);
        assert(spec_apply_receipts(m, ps) == m);
        assert(spec_fresh_receipts(m, ps.push(p).drop_first()) =~= Seq::<(u32, Seq<u8>)>::empty());
        assert(spec_fresh_receipts(
            m.insert(kp, spec_commitment_magic()),
            ps.push(p).drop_first(),
        ) =~= Seq::<(u32, Seq<u8>)>::empty());
        assert(spec_fresh_receipts(m, ps) =~= Seq::<(u32, Seq<u8>)>::empty());
        if m.contains_key(kp) {
            assert(spec_fresh_receipts(m, ps.push(p)) =~= spec_fresh_receipts(m, ps)
                + Seq::<(u32, Seq<u8>)>::empty());
        } else {
            assert(spec_fresh_receipts(m, ps.push(p)) =~= spec_fresh_receipts(m, ps) + seq![
                (p.destination_channel_id, spec_packet_hash(p)),
            ]);
        }
    } else {
        let k0 = spec_packet_receipt_key(spec_packet_hash(ps[0]));
        let q = ps.drop_first();
        assert(ps.push(p)[0] == ps[0]);
        assert(ps.push(p).drop_first() =~= q.push(p));
        if m.contains_key(k0) {
            assert(m[k0] == spec_commitment_magic());
            assert(m.insert(k0, spec_commitment_magic()) =~= m);
            assert(spec_apply_receipts(m, ps) == spec_apply_receipts(
                m.insert(k0, spec_commitment_magic()),
                q,
            ));
            lemma_fresh_snoc(m, q, p);
            assert(spec_fresh_receipts(m, ps.push(p)) == spec_fresh_receipts(m, q.push(p)));
            assert(spec_fresh_receipts(m, ps) == spec_fresh_receipts(m, q));
            assert(spec_apply_receipts(m, q) =~= spec_apply_receipts(m, ps));
        } else {
            let m1 = m.insert(k0, spec_commitment_magic());
            lemma_pvm_insert_magic(m, k0);
            lemma_fresh_snoc(m1, q, p);
            assert(spec_apply_receipts(m, ps) == spec_apply_receipts(m1, q));
            assert(spec_fresh_receipts(m, ps.push(p)) =~= seq![
                (ps[0].destination_channel_id, spec_packet_hash(ps[0])),
            ] + spec_fresh_receipts(m1, q.push(p)));
            assert(spec_fresh_receipts(m, ps) =~= seq![
                (ps[0].destination_channel_id, spec_packet_hash(ps[0])),
            ] + spec_fresh_receipts(m1, q));
            assert(spec_fresh_receipts(m, ps.push(p)) =~= spec_fresh_receipts(m, ps) + (
            if spec_apply_receipts(m1, q).contains_key(kp) {
                Seq::<(u32, Seq<u8>)>::empty()
            } else {
                seq![(p.destination_channel_id, spec_packet_hash(p))]
            }));
        }
    }
}

} // verus!
