use sha3::Digest;

use ibc_union::client::FixedClient;
use ibc_union::hashing::{ack_commitment, keccak256, packet_hash};
use ibc_union::host::IbcHost;
use ibc_union::msgs::{
    ExecuteMsg, InitMsg, MsgBatchSend, MsgChannelOpenAck, MsgChannelOpenInit,
    MsgConnectionOpenConfirm, MsgConnectionOpenInit, MsgConnectionOpenTry, MsgCreateClient,
    MsgMisbehaviour, MsgPacketAcknowledgement, MsgPacketRecv, MsgPacketTimeout,
    MsgRegisterClient, MsgSendPacket, MsgUpdateClient, MsgWriteAcknowledgement,
};
use ibc_union::sort::{lex_le, sort_bytes};
use ibc_union::types::{
    ChannelState, ConnectionState, ContractError, Env, Event, Packet, Status,
};

const SENDER: &str = "sender";
const RELAYER: &str = "relayer";

fn env_at(block_time: u64) -> Env {
    Env { block_time }
}

fn addr(s: &str) -> String {
    s.to_string()
}

fn client(timestamp: u64, membership_ok: bool) -> FixedClient {
    FixedClient {
        latest_height: 1,
        timestamp,
        membership_ok,
        non_membership_ok: true,
        frozen: false,
        counterparty_chain_id: "testchain".to_string(),
    }
}

/// A host with a full handshake done: client 1, connection 1, open channel
/// 1 owned by the sender, counterparty channel 1.
fn host_with_channel(timestamp: u64, membership_ok: bool) -> IbcHost {
    let mut h = IbcHost::init(InitMsg {
        relayers_admin: None,
        relayers: vec![addr(SENDER)],
    });
    let e = env_at(1000);
    h.execute(
        &e,
        &addr(SENDER),
        ExecuteMsg::RegisterClient(MsgRegisterClient {
            client_type: "fixed".to_string(),
        }),
    )
    .expect("register");
    h.execute(
        &e,
        &addr(SENDER),
        ExecuteMsg::CreateClient(MsgCreateClient {
            client_type: "fixed".to_string(),
            client: client(timestamp, membership_ok),
        }),
    )
    .expect("create");
    h.execute(
        &e,
        &addr(SENDER),
        ExecuteMsg::ConnectionOpenTry(MsgConnectionOpenTry {
            client_id: 1,
            counterparty_client_id: 2,
            counterparty_connection_id: 1,
            proof_init: vec![],
            proof_height: 1,
        }),
    )
    .expect("conn try");
    h.execute(
        &e,
        &addr(SENDER),
        ExecuteMsg::ConnectionOpenConfirm(MsgConnectionOpenConfirm {
            connection_id: 1,
            proof_ack: vec![],
            proof_height: 1,
        }),
    )
    .expect("conn confirm");
    h.execute(
        &e,
        &addr(SENDER),
        ExecuteMsg::ChannelOpenInit(MsgChannelOpenInit {
            port_id: addr(SENDER),
            counterparty_port_id: vec![9],
            connection_id: 1,
            version: "v1".to_string(),
            relayer: addr(RELAYER),
        }),
    )
    .expect("chan init");
    h.execute(
        &e,
        &addr(SENDER),
        ExecuteMsg::ChannelOpenAck(MsgChannelOpenAck {
            channel_id: 1,
            counterparty_version: "v1".to_string(),
            counterparty_channel_id: 1,
            proof_try: vec![],
            proof_height: 1,
            relayer: addr(RELAYER),
        }),
    )
    .expect("chan ack");
    h
}

fn sent_packet(data: Vec<u8>, timeout: u64) -> Packet {
    Packet {
        source_channel_id: 1,
        destination_channel_id: 1,
        data,
        timeout_timestamp: timeout,
    }
}

#[test]
fn send_twice_keeps_one_commitment_and_one_event() {
    let mut h = host_with_channel(50, true);
    let e = env_at(1000);
    let msg = MsgSendPacket {
        source_channel_id: 1,
        timeout_timestamp: 5000,
        data: vec![7, 8],
    };
    let evs = h
        .execute(&e, &addr(SENDER), ExecuteMsg::PacketSend(msg))
        .expect("first send");
    assert_eq!(evs.len(), 1);
    let h1 = packet_hash(&sent_packet(vec![7, 8], 5000));
    assert!(h.has_packet_commitment(&h1));
    let msg = MsgSendPacket {
        source_channel_id: 1,
        timeout_timestamp: 5000,
        data: vec![7, 8],
    };
    let evs = h
        .execute(&e, &addr(SENDER), ExecuteMsg::PacketSend(msg))
        .expect("second send is a no-op");
    assert_eq!(evs.len(), 0);
    assert!(h.has_packet_commitment(&h1));
}

#[test]
fn recv_twice_is_a_silent_no_op() {
    let mut h = host_with_channel(50, true);
    let e = env_at(1000);
    let p = sent_packet(vec![1], 5000);
    let recv = |data: Vec<u8>| MsgPacketRecv {
        packets: vec![Packet {
            source_channel_id: 1,
            destination_channel_id: 1,
            data,
            timeout_timestamp: 5000,
        }],
        relayer_msgs: vec![vec![]],
        relayer: addr(RELAYER),
        proof: vec![],
        proof_height: 1,
    };
    let evs = h
        .execute(&e, &addr(SENDER), ExecuteMsg::PacketRecv(recv(vec![1])))
        .expect("first recv");
    assert_eq!(evs.len(), 1);
    let hash = packet_hash(&p);
    assert!(h.has_packet_receipt(&hash));
    let evs = h
        .execute(&e, &addr(SENDER), ExecuteMsg::PacketRecv(recv(vec![1])))
        .expect("second recv is a no-op");
    assert_eq!(evs.len(), 0);
    assert!(h.has_packet_receipt(&hash));
}

#[test]
fn duplicate_packets_in_one_batch_yield_one_receipt() {
    let mut h = host_with_channel(50, true);
    let e = env_at(1000);
    let p = |data: Vec<u8>| Packet {
        source_channel_id: 1,
        destination_channel_id: 1,
        data,
        timeout_timestamp: 5000,
    };
    let msg = MsgPacketRecv {
        packets: vec![p(vec![4]), p(vec![4])],
        relayer_msgs: vec![vec![], vec![]],
        relayer: addr(RELAYER),
        proof: vec![],
        proof_height: 1,
    };
    let evs = h
        .execute(&e, &addr(SENDER), ExecuteMsg::PacketRecv(msg))
        .expect("recv");
    assert_eq!(evs.len(), 1);
}

#[test]
fn acknowledgement_implies_receipt() {
    let mut h = host_with_channel(50, true);
    let e = env_at(1000);
    let msg = MsgPacketRecv {
        packets: vec![sent_packet(vec![5], 5000)],
        relayer_msgs: vec![vec![]],
        relayer: addr(RELAYER),
        proof: vec![],
        proof_height: 1,
    };
    h.execute(&e, &addr(SENDER), ExecuteMsg::PacketRecv(msg))
        .expect("recv");
    let msg = MsgWriteAcknowledgement {
        packet: sent_packet(vec![5], 5000),
        acknowledgement: vec![0xAA],
    };
    h.execute(&e, &addr(SENDER), ExecuteMsg::WriteAcknowledgement(msg))
        .expect("write ack");
    let hash = packet_hash(&sent_packet(vec![5], 5000));
    assert!(h.get_packet_acknowledgement(&hash).is_some());
    assert!(h.has_packet_receipt(&hash));
}

#[test]
fn ack_deletes_exactly_the_commitment() {
    let mut h = host_with_channel(50, true);
    let e = env_at(1000);
    let msg = MsgSendPacket {
        source_channel_id: 1,
        timeout_timestamp: 5000,
        data: vec![1, 2],
    };
    h.execute(&e, &addr(SENDER), ExecuteMsg::PacketSend(msg))
        .expect("send");
    let hash = packet_hash(&sent_packet(vec![1, 2], 5000));
    assert!(h.has_packet_commitment(&hash));
    let msg = MsgPacketAcknowledgement {
        packets: vec![sent_packet(vec![1, 2], 5000)],
        acknowledgements: vec![vec![1]],
        proof: vec![],
        proof_height: 1,
        relayer: addr(RELAYER),
    };
    let evs = h
        .execute(&e, &addr(SENDER), ExecuteMsg::PacketAck(msg))
        .expect("ack");
    assert_eq!(evs.len(), 1);
    assert!(!h.has_packet_commitment(&hash));
}

#[test]
fn timeout_deletes_exactly_the_commitment() {
    let mut h = host_with_channel(100_000, true);
    let e = env_at(1000);
    let msg = MsgSendPacket {
        source_channel_id: 1,
        timeout_timestamp: 64,
        data: vec![9],
    };
    h.execute(&e, &addr(SENDER), ExecuteMsg::PacketSend(msg))
        .expect("send");
    let hash = packet_hash(&sent_packet(vec![9], 64));
    let msg = MsgPacketTimeout {
        packet: sent_packet(vec![9], 64),
        proof: vec![],
        proof_height: 3,
        relayer: addr(RELAYER),
    };
    h.execute(&e, &addr(SENDER), ExecuteMsg::PacketTimeout(msg))
        .expect("timeout");
    assert!(!h.has_packet_commitment(&hash));
}

#[test]
fn timeout_succeeds_at_the_exact_boundary() {
    let mut h = host_with_channel(64, true);
    let e = env_at(1000);
    let msg = MsgSendPacket {
        source_channel_id: 1,
        timeout_timestamp: 64,
        data: vec![9],
    };
    h.execute(&e, &addr(SENDER), ExecuteMsg::PacketSend(msg))
        .expect("send");
    let msg = MsgPacketTimeout {
        packet: sent_packet(vec![9], 64),
        proof: vec![],
        proof_height: 3,
        relayer: addr(RELAYER),
    };
    assert!(h
        .execute(&e, &addr(SENDER), ExecuteMsg::PacketTimeout(msg))
        .is_ok());
}

#[test]
fn recv_fails_when_the_client_rejects_the_proof() {
    let mut h = host_with_channel(50, true);
    // The handshake is done; from now on the client rejects every proof.
    h.clients[0].client.membership_ok = false;
    let e = env_at(1000);
    let msg = MsgPacketRecv {
        packets: vec![sent_packet(vec![1], 5000)],
        relayer_msgs: vec![vec![]],
        relayer: addr(RELAYER),
        proof: vec![],
        proof_height: 1,
    };
    assert!(h
        .execute(&e, &addr(SENDER), ExecuteMsg::PacketRecv(msg))
        .is_err_and(|e| matches!(e, ContractError::ProofVerificationFailed)));
}

#[test]
fn recv_needs_an_allowlisted_caller() {
    let mut h = host_with_channel(50, true);
    let e = env_at(1000);
    let msg = MsgPacketRecv {
        packets: vec![sent_packet(vec![1], 5000)],
        relayer_msgs: vec![vec![]],
        relayer: addr(RELAYER),
        proof: vec![],
        proof_height: 1,
    };
    assert!(h
        .execute(&e, &addr("stranger"), ExecuteMsg::PacketRecv(msg))
        .is_err_and(|e| matches!(e, ContractError::Unauthorized)));
}

#[test]
fn create_client_of_unknown_type_fails() {
    let mut h = IbcHost::init(InitMsg {
        relayers_admin: None,
        relayers: vec![addr(SENDER)],
    });
    let r = h.execute(
        &env_at(1),
        &addr(SENDER),
        ExecuteMsg::CreateClient(MsgCreateClient {
            client_type: "unregistered".to_string(),
            client: client(1, true),
        }),
    );
    assert!(r.is_err_and(|e| matches!(e, ContractError::ClientNotFound)));
}

#[test]
fn channel_needs_an_open_connection() {
    let mut h = IbcHost::init(InitMsg {
        relayers_admin: None,
        relayers: vec![addr(SENDER)],
    });
    let r = h.execute(
        &env_at(1),
        &addr(SENDER),
        ExecuteMsg::ChannelOpenInit(MsgChannelOpenInit {
            port_id: addr(SENDER),
            counterparty_port_id: vec![1],
            connection_id: 5,
            version: "v1".to_string(),
            relayer: addr(RELAYER),
        }),
    );
    assert!(r.is_err_and(|e| matches!(e, ContractError::InvalidConnectionState)));
}

#[test]
fn connection_open_init_allocates_dense_ids() {
    let mut h = IbcHost::init(InitMsg {
        relayers_admin: None,
        relayers: vec![addr(SENDER)],
    });
    let e = env_at(1);
    h.execute(
        &e,
        &addr(SENDER),
        ExecuteMsg::RegisterClient(MsgRegisterClient {
            client_type: "fixed".to_string(),
        }),
    )
    .expect("register");
    h.execute(
        &e,
        &addr(SENDER),
        ExecuteMsg::CreateClient(MsgCreateClient {
            client_type: "fixed".to_string(),
            client: client(1, true),
        }),
    )
    .expect("create");
    let evs = h
        .execute(
            &e,
            &addr(SENDER),
            ExecuteMsg::ConnectionOpenInit(MsgConnectionOpenInit {
                client_id: 1,
                counterparty_client_id: 7,
            }),
        )
        .expect("conn init");
    assert!(matches!(
        evs[0],
        Event::ConnectionOpenInit {
            connection_id: 1,
            client_id: 1,
            counterparty_client_id: 7
        }
    ));
    let c = h.get_connection(1).expect("connection exists");
    assert!(matches!(c.state, ConnectionState::Init));
    assert_eq!(c.counterparty_connection_id, 0);
}

#[test]
fn handshake_stores_record_commitments() {
    let h = host_with_channel(50, true);
    // The connection record's commitment stands at its id-keyed path.
    let conn = *h.get_connection(1).expect("connection exists");
    let conn_key = ibc_union::keys::connection_key(1);
    assert_eq!(
        h.commitments.read(&conn_key).expect("connection committed"),
        &ibc_union::hashing::connection_commitment(&conn)
    );
    // The channel end's commitment stands at its id-keyed path.
    let chan = h.get_channel(1).expect("channel exists");
    let chan_key = ibc_union::keys::channel_key(1);
    assert_eq!(
        h.commitments.read(&chan_key).expect("channel committed"),
        &ibc_union::hashing::channel_end_commitment(
            ChannelState::Open,
            chan.counterparty_channel_id,
            &chan.counterparty_port_id,
        )
    );
}

#[test]
fn channel_record_is_queryable_after_handshake() {
    let h = host_with_channel(50, true);
    let c = h.get_channel(1).expect("channel exists");
    assert!(matches!(c.state, ChannelState::Open));
    assert_eq!(c.connection_id, 1);
    assert_eq!(c.counterparty_channel_id, 1);
    assert_eq!(c.counterparty_port_id, vec![9]);
    assert_eq!(c.version, "v1");
    assert!(h.get_channel(2).is_none());
}

#[test]
fn consensus_cache_is_never_overwritten() {
    let mut h = host_with_channel(50, true);
    let e = env_at(1);
    h.execute(
        &e,
        &addr(SENDER),
        ExecuteMsg::UpdateClient(MsgUpdateClient {
            client_id: 1,
            height: 5,
            timestamp: 10,
        }),
    )
    .expect("first update");
    assert_eq!(h.get_consensus_state(1, 5), Some(10));
    let evs = h
        .execute(
            &e,
            &addr(SENDER),
            ExecuteMsg::UpdateClient(MsgUpdateClient {
                client_id: 1,
                height: 5,
                timestamp: 999,
            }),
        )
        .expect("second update is a no-op");
    assert_eq!(evs.len(), 0);
    assert_eq!(h.get_consensus_state(1, 5), Some(10));
}

#[test]
fn misbehaviour_freezes_the_client() {
    let mut h = host_with_channel(50, true);
    assert_eq!(h.get_status(1), Some(Status::Active));
    h.execute(
        &env_at(1),
        &addr(SENDER),
        ExecuteMsg::Misbehaviour(MsgMisbehaviour { client_id: 1 }),
    )
    .expect("misbehaviour");
    assert_eq!(h.get_status(1), Some(Status::Frozen));
}

#[test]
fn batch_send_writes_a_batch_commitment() {
    let mut h = host_with_channel(50, true);
    let e = env_at(1000);
    for data in [vec![1], vec![2]] {
        let msg = MsgSendPacket {
            source_channel_id: 1,
            timeout_timestamp: 5000,
            data,
        };
        h.execute(&e, &addr(SENDER), ExecuteMsg::PacketSend(msg))
            .expect("send");
    }
    let msg = MsgBatchSend {
        packets: vec![sent_packet(vec![1], 5000), sent_packet(vec![2], 5000)],
    };
    let evs = h
        .execute(&e, &addr(SENDER), ExecuteMsg::BatchSend(msg))
        .expect("batch send");
    match &evs[0] {
        Event::BatchSend {
            channel_id,
            batch_hash,
        } => {
            assert_eq!(*channel_id, 1);
            // The stored value is the sentinel the counterparty verifies.
            assert_eq!(
                h.get_batch_packets(batch_hash).expect("batch committed"),
                &ibc_union::hashing::commitment_magic()
            );
        }
        other => panic!("unexpected event: {:?}", event_name(other)),
    }
}

fn event_name(e: &Event) -> &'static str {
    match e {
        Event::ClientRegistered { .. } => "client_registered",
        Event::ClientCreated { .. } => "client_created",
        Event::ClientUpdated { .. } => "client_updated",
        Event::ConnectionOpenInit { .. } => "connection_open_init",
        Event::ConnectionOpenTry { .. } => "connection_open_try",
        Event::ConnectionOpenAck { .. } => "connection_open_ack",
        Event::ConnectionOpenConfirm { .. } => "connection_open_confirm",
        Event::ChannelOpenInit { .. } => "channel_open_init",
        Event::ChannelOpenTry { .. } => "channel_open_try",
        Event::ChannelOpenAck { .. } => "channel_open_ack",
        Event::ChannelOpenConfirm { .. } => "channel_open_confirm",
        Event::PacketSend { .. } => "packet_send",
        Event::PacketRecv { .. } => "packet_recv",
        Event::IntentPacketRecv { .. } => "intent_packet_recv",
        Event::WriteAck { .. } => "write_ack",
        Event::PacketAck { .. } => "packet_ack",
        Event::PacketTimeout { .. } => "packet_timeout",
        Event::BatchSend { .. } => "batch_send",
        Event::BatchAcks { .. } => "batch_acks",
    }
}

#[test]
fn send_event_carries_the_packet_hash() {
    let mut h = host_with_channel(50, true);
    let e = env_at(1000);
    let msg = MsgSendPacket {
        source_channel_id: 1,
        timeout_timestamp: 5000,
        data: vec![0xAB],
    };
    let evs = h
        .execute(&e, &addr(SENDER), ExecuteMsg::PacketSend(msg))
        .expect("send");
    match &evs[0] {
        Event::PacketSend {
            channel_id,
            packet_hash,
            packet,
        } => {
            assert_eq!(*channel_id, 1);
            assert_eq!(*packet_hash, packet_hash_of(packet));
        }
        other => panic!("unexpected event: {:?}", event_name(other)),
    }
}

fn packet_hash_of(p: &Packet) -> Vec<u8> {
    packet_hash(p)
}

#[test]
fn packet_hash_is_the_keccak_of_the_canonical_encoding() {
    let p = Packet {
        source_channel_id: 1,
        destination_channel_id: 2,
        data: vec![0xAB],
        timeout_timestamp: 7,
    };
    let mut encoding: Vec<u8> = Vec::new();
    encoding.push(0x50);
    encoding.extend_from_slice(&1u32.to_be_bytes());
    encoding.extend_from_slice(&2u32.to_be_bytes());
    encoding.extend_from_slice(&1u64.to_be_bytes());
    encoding.push(0xAB);
    encoding.extend_from_slice(&0u64.to_be_bytes());
    encoding.extend_from_slice(&7u64.to_be_bytes());
    let expected = sha3::Keccak256::digest(&encoding).to_vec();
    assert_eq!(packet_hash(&p), expected);
}

#[test]
fn keccak_matches_the_reference_vector() {
    // Keccak-256 of the empty string.
    let expected: Vec<u8> = vec![
        0xc5, 0xd2, 0x46, 0x01, 0x86, 0xf7, 0x23, 0x3c, 0x92, 0x7e, 0x7d, 0xb2, 0xdc, 0xc7, 0x03,
        0xc0, 0xe5, 0x00, 0xb6, 0x53, 0xca, 0x82, 0x27, 0x3b, 0x7b, 0xfa, 0xd8, 0x04, 0x5d, 0x85,
        0xa4, 0x70,
    ];
    assert_eq!(keccak256(&Vec::new()), expected);
}

#[test]
fn ack_commitment_is_the_tagged_digest() {
    let ack = vec![1u8, 2, 3];
    let mut expected = sha3::Keccak256::digest(&ack).to_vec();
    expected[0] = 0x02;
    assert_eq!(ack_commitment(&ack), expected);
}

#[test]
fn sort_bytes_orders_lexicographically() {
    let sorted = sort_bytes(vec![vec![2, 1], vec![1, 9, 9], vec![2], vec![1, 9]]);
    assert_eq!(sorted, vec![vec![1, 9], vec![1, 9, 9], vec![2], vec![2, 1]]);
    assert!(lex_le(&vec![1, 2], &vec![1, 2]));
    assert!(lex_le(&vec![1, 2], &vec![1, 2, 0]));
    assert!(!lex_le(&vec![2], &vec![1, 255]));
}

#[test]
fn send_accepts_empty_data() {
    let mut h = host_with_channel(50, true);
    let e = env_at(1000);
    let msg = MsgSendPacket {
        source_channel_id: 1,
        timeout_timestamp: 5000,
        data: vec![],
    };
    assert!(h
        .execute(&e, &addr(SENDER), ExecuteMsg::PacketSend(msg))
        .is_ok());
}
