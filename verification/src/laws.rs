//! The protocol's universal guarantees, proved once over the contracts of
//! the engine's entrypoints.

use vstd::prelude::*;

use crate::hashing::{spec_commitment_magic, spec_packet_hash};
use crate::host::IbcHost;
use crate::keys::{
    spec_packet_ack_key, spec_packet_commitment_key, spec_packet_receipt_key, PACKET_ACK_TAG,
    PACKET_RECEIPT_TAG,
};
use crate::msgs::{MsgPacketTimeout, MsgSendPacket, MsgWriteAcknowledgement};
use crate::packet::{lemma_apply_receipts, spec_all_received, spec_apply_receipts, spec_is_receipt_of};
use crate::types::{ContractError, Packet};

verus! {

/// Idempotent receive: after a successful receive writes the receipts of a
/// batch, every packet of that batch counts as received. By the contract
/// of `recv_packets`, a second receive of the same packets therefore takes
/// its already-received branch: it returns `Ok`, changes nothing and emits
/// nothing.
pub proof fn lemma_receive_idempotent(m: Map<Seq<u8>, Seq<u8>>, ps: Seq<Packet>)
    ensures
        spec_all_received(spec_apply_receipts(m, ps), ps),
{
    lemma_apply_receipts(m, ps);
    let m1 = spec_apply_receipts(m, ps);
    assert forall|i: int| 0 <= i < ps.len() implies m1.contains_key(
        spec_packet_receipt_key(spec_packet_hash(#[trigger] ps[i])),
    ) by {
        assert(spec_is_receipt_of(spec_packet_receipt_key(spec_packet_hash(ps[i])), ps));
    }
}

/// Idempotent send: after a successful send writes a packet's commitment,
/// the commitment stands. By the contract of `send_packet`, a second send
/// with identical fields therefore takes its no-op branch: one commitment
/// and one event exist in total, both from the first call.
pub proof fn lemma_send_idempotent(m: Map<Seq<u8>, Seq<u8>>, p: Packet)
    ensures
        m.insert(
            spec_packet_commitment_key(spec_packet_hash(p)),
            spec_commitment_magic(),
        ).contains_key(spec_packet_commitment_key(spec_packet_hash(p))),
{
}

/// No acknowledgement without receipt: in every well-formed state, a
/// written acknowledgement for a packet hash is preceded by a receipt for
/// the same hash. Receipts are never cleared, so the receipt was set at or
/// before the acknowledgement.
pub proof fn lemma_no_ack_without_receipt(s: IbcHost, h: Seq<u8>)
    requires
        s.wf(),
        s.commitments@.contains_key(spec_packet_ack_key(h)),
    ensures
        s.commitments@.contains_key(spec_packet_receipt_key(h)),
{
    let k = spec_packet_ack_key(h);
    assert(k[0] == PACKET_ACK_TAG);
    assert(k.skip(1) =~= h);
    assert(s.commitments@.contains_key(seq![PACKET_RECEIPT_TAG] + k.skip(1)));
    assert(seq![PACKET_RECEIPT_TAG] + k.skip(1) =~= spec_packet_receipt_key(h));
}

/// No double acknowledgement: once an acknowledgement for a packet hash
/// stands, no `WriteAcknowledgement` for that packet can succeed again,
/// whoever calls it. At most one write succeeds per packet hash.
pub proof fn lemma_no_double_ack(s: IbcHost, caller: Seq<char>, msg: MsgWriteAcknowledgement)
    requires
        s.commitments@.contains_key(spec_packet_ack_key(spec_packet_hash(msg.packet))),
    ensures
        IbcHost::spec_write_ack_err(s, caller, msg) is Some,
{
}

/// Tamper resistance, as far as it is provable: an acknowledgement
/// settlement succeeds only when every submitted packet's hash still has a
/// live commitment. A packet altered in any field hashes differently, so
/// its commitment lookup misses and the whole settlement fails with
/// `PacketCommitmentNotFound`; that distinct hashes never collide is the
/// digest's cryptographic guarantee, outside what is provable here.
pub proof fn lemma_ack_requires_commitment(s: IbcHost, caller: Seq<char>, ps: Seq<Packet>)
    requires
        ps.len() >= 1,
        s.is_relayer(caller),
        s.channel_open(ps[0].source_channel_id),
        !crate::packet::spec_all_committed(s.commitments@, ps),
    ensures
        IbcHost::spec_ack_err(s, caller, ps) == Some(ContractError::PacketCommitmentNotFound),
{
}

/// Authorization of send: on a live channel, a send whose caller is not
/// the owning port fails with `Unauthorized`; by the contract of
/// `send_packet` the state is then untouched.
pub proof fn lemma_send_unauthorized(s: IbcHost, caller: Seq<char>, msg: MsgSendPacket)
    requires
        msg.timeout_timestamp != 0,
        s.channel_open(msg.source_channel_id),
        s.owner_at(msg.source_channel_id) != caller,
    ensures
        IbcHost::spec_send_err(s, caller, msg) == Some(ContractError::Unauthorized),
{
}

/// Authorization of write-acknowledgement: a write whose caller is not the
/// owning port of the destination channel fails with `Unauthorized`; by
/// the contract of `write_acknowledgement` the state is then untouched.
pub proof fn lemma_write_ack_unauthorized(
    s: IbcHost,
    caller: Seq<char>,
    msg: MsgWriteAcknowledgement,
)
    requires
        s.channel_open(msg.packet.destination_channel_id),
        s.owner_at(msg.packet.destination_channel_id) != caller,
    ensures
        IbcHost::spec_write_ack_err(s, caller, msg) == Some(ContractError::Unauthorized),
{
}

/// Timeout monotonicity: a timeout can only succeed when the client
/// attests a counterparty timestamp at or past the packet's timeout.
pub proof fn lemma_timeout_monotonic(s: IbcHost, caller: Seq<char>, msg: MsgPacketTimeout)
    requires
        IbcHost::spec_timeout_err(s, caller, msg) is None,
    ensures
        s.channel_client(msg.packet.source_channel_id).timestamp >= msg.packet.timeout_timestamp,
{
}

} // verus!
