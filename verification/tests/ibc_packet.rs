use ibc_union::client::FixedClient;
use ibc_union::host::IbcHost;
use ibc_union::msgs::{
    ExecuteMsg, InitMsg, MsgBatchAcks, MsgBatchSend, MsgChannelOpenAck, MsgChannelOpenInit,
    MsgConnectionOpenConfirm, MsgConnectionOpenTry, MsgCreateClient, MsgIntentPacketRecv,
    MsgPacketAcknowledgement, MsgPacketRecv, MsgPacketTimeout, MsgRegisterClient, MsgSendPacket,
    MsgWriteAcknowledgement,
};
use ibc_union::types::{ContractError, Env, Event, Packet};

const SENDER: &str = "sender";
const RELAYER: &str = "relayer";
const VERSION: &str = "ucs01";

fn mock_addr(s: &str) -> String {
    s.to_string()
}

fn mock_env() -> Env {
    Env {
        block_time: 1_577_000_000_000_000_000,
    }
}

fn init() -> IbcHost {
    IbcHost::init(InitMsg {
        relayers_admin: None,
        relayers: vec![mock_addr(SENDER)],
    })
}

fn test_client(timestamp: u64) -> FixedClient {
    FixedClient {
        latest_height: 1,
        timestamp,
        membership_ok: true,
        non_membership_ok: true,
        frozen: false,
        counterparty_chain_id: "testchain".to_string(),
    }
}

fn register_client(h: &mut IbcHost) -> Result<Vec<Event>, ContractError> {
    h.execute(
        &mock_env(),
        &mock_addr(SENDER),
        ExecuteMsg::RegisterClient(MsgRegisterClient {
            client_type: "cometbls".to_string(),
        }),
    )
}

fn create_client(h: &mut IbcHost, timestamp: u64) -> Result<Vec<Event>, ContractError> {
    h.execute(
        &mock_env(),
        &mock_addr(SENDER),
        ExecuteMsg::CreateClient(MsgCreateClient {
            client_type: "cometbls".to_string(),
            client: test_client(timestamp),
        }),
    )
}

fn connection_open_try(h: &mut IbcHost) -> Result<Vec<Event>, ContractError> {
    h.execute(
        &mock_env(),
        &mock_addr(SENDER),
        ExecuteMsg::ConnectionOpenTry(MsgConnectionOpenTry {
            client_id: 1,
            counterparty_client_id: 2,
            counterparty_connection_id: 1,
            proof_init: vec![1, 2, 3],
            proof_height: 1,
        }),
    )
}

fn connection_open_confirm(h: &mut IbcHost) -> Result<Vec<Event>, ContractError> {
    h.execute(
        &mock_env(),
        &mock_addr(SENDER),
        ExecuteMsg::ConnectionOpenConfirm(MsgConnectionOpenConfirm {
            connection_id: 1,
            proof_ack: vec![1, 2, 3],
            proof_height: 1,
        }),
    )
}

fn channel_open_init(h: &mut IbcHost) -> Result<Vec<Event>, ContractError> {
    h.execute(
        &mock_env(),
        &mock_addr(SENDER),
        ExecuteMsg::ChannelOpenInit(MsgChannelOpenInit {
            port_id: mock_addr(SENDER),
            counterparty_port_id: vec![1],
            connection_id: 1,
            version: VERSION.to_string(),
            relayer: mock_addr(RELAYER),
        }),
    )
}

fn channel_open_ack(h: &mut IbcHost) -> Result<Vec<Event>, ContractError> {
    h.execute(
        &mock_env(),
        &mock_addr(SENDER),
        ExecuteMsg::ChannelOpenAck(MsgChannelOpenAck {
            channel_id: 1,
            counterparty_version: VERSION.to_string(),
            counterparty_channel_id: 1,
            proof_try: vec![1, 2, 3],
            proof_height: 1,
            relayer: mock_addr(RELAYER),
        }),
    )
}

/// Full handshake: client 1, connection 1, channel 1 (open, owned by the
/// sender).
fn setup(h: &mut IbcHost, timestamp: u64) {
    register_client(h).expect("register client ok");
    create_client(h, timestamp).expect("create client ok");
    connection_open_try(h).expect("connection open try is ok");
    connection_open_confirm(h).expect("connection open confirm is ok");
    channel_open_init(h).expect("channel open init is ok");
    channel_open_ack(h).expect("channel open ack is ok");
}

/// Opens a second channel (id 2) owned by `owner`, with counterparty
/// channel 1.
fn open_second_channel(h: &mut IbcHost, env: &Env, owner: &str) {
    h.execute(
        env,
        &mock_addr(owner),
        ExecuteMsg::ChannelOpenInit(MsgChannelOpenInit {
            port_id: mock_addr(owner),
            counterparty_port_id: vec![1],
            connection_id: 1,
            version: VERSION.to_string(),
            relayer: mock_addr(RELAYER),
        }),
    )
    .expect("channel open init is okay");
    h.execute(
        env,
        &mock_addr(owner),
        ExecuteMsg::ChannelOpenAck(MsgChannelOpenAck {
            channel_id: 2,
            counterparty_version: VERSION.to_string(),
            counterparty_channel_id: 1,
            proof_try: vec![1, 2, 3],
            proof_height: 1,
            relayer: mock_addr(RELAYER),
        }),
    )
    .expect("channel open ack is ok");
}

#[test]
fn send_packet_ok() {
    let mut h = init();
    setup(&mut h, 100000);
    let msg = MsgSendPacket {
        source_channel_id: 1,
        timeout_timestamp: 1000000,
        data: vec![0, 1, 2],
    };
    assert!(h
        .execute(&mock_env(), &mock_addr(SENDER), ExecuteMsg::PacketSend(msg))
        .is_ok())
}

#[test]
fn send_packet_missing_timeout() {
    let mut h = init();
    setup(&mut h, 100000);
    let msg = MsgSendPacket {
        source_channel_id: 1,
        timeout_timestamp: 0,
        data: vec![0, 1, 2],
    };
    assert!(h
        .execute(&mock_env(), &mock_addr(SENDER), ExecuteMsg::PacketSend(msg))
        .is_err_and(|err| matches!(err, ContractError::TimeoutMustBeSet)))
}

#[test]
fn send_packet_channel_does_not_exist() {
    let mut h = init();
    setup(&mut h, 100000);
    let msg = MsgSendPacket {
        source_channel_id: 3,
        timeout_timestamp: 1000000,
        data: vec![0, 1, 2],
    };
    assert!(h
        .execute(&mock_env(), &mock_addr(SENDER), ExecuteMsg::PacketSend(msg))
        .is_err_and(|err| matches!(err, ContractError::InvalidChannelState)))
}

#[test]
fn send_packet_module_is_not_channel_owner() {
    let mut h = init();
    setup(&mut h, 100000);
    let msg = MsgSendPacket {
        source_channel_id: 1,
        timeout_timestamp: 1000000,
        data: vec![0, 1, 2],
    };
    assert!(h
        .execute(
            &mock_env(),
            &mock_addr("not module"),
            ExecuteMsg::PacketSend(msg)
        )
        .is_err_and(|err| matches!(err, ContractError::Unauthorized)))
}

#[test]
fn recv_packet_ok() {
    let mut h = init();
    setup(&mut h, 100000);
    let msg = MsgPacketRecv {
        packets: vec![Packet {
            source_channel_id: 2,
            destination_channel_id: 1,
            data: vec![1, 2, 3],
            timeout_timestamp: 2000000000000000000,
        }],
        relayer_msgs: vec![vec![1]],
        relayer: mock_addr(RELAYER),
        proof: vec![1, 2, 3],
        proof_height: 1,
    };
    assert!(h
        .execute(&mock_env(), &mock_addr(SENDER), ExecuteMsg::PacketRecv(msg))
        .is_ok())
}

#[test]
fn recv_packet_invalid_channel_state() {
    let mut h = init();
    setup(&mut h, 100000);
    let msg = MsgPacketRecv {
        packets: vec![Packet {
            source_channel_id: 2,
            destination_channel_id: 5,
            data: vec![1, 2, 3],
            timeout_timestamp: 2000000000000000000,
        }],
        relayer_msgs: vec![vec![1]],
        relayer: mock_addr(RELAYER),
        proof: vec![1, 2, 3],
        proof_height: 1,
    };
    assert!(h
        .execute(&mock_env(), &mock_addr(SENDER), ExecuteMsg::PacketRecv(msg))
        .is_err_and(|err| matches!(err, ContractError::InvalidChannelState)))
}

#[test]
fn recv_packet_timeout_timestamp() {
    let mut h = init();
    setup(&mut h, 100000);
    let env = Env { block_time: 128 };
    let timeout_timestamp = 64;
    let msg = MsgPacketRecv {
        packets: vec![Packet {
            source_channel_id: 2,
            destination_channel_id: 1,
            data: vec![1, 2, 3],
            timeout_timestamp,
        }],
        relayer_msgs: vec![vec![1]],
        relayer: mock_addr(RELAYER),
        proof: vec![1, 2, 3],
        proof_height: 1,
    };
    assert!(h
        .execute(&env, &mock_addr(SENDER), ExecuteMsg::PacketRecv(msg))
        .is_err_and(|err| matches!(
            err,
            ContractError::ReceivedTimedOutPacketTimestamp { .. }
        )))
}

#[test]
fn recv_intent_packet_ok() {
    let mut h = init();
    setup(&mut h, 100000);
    let msg = MsgIntentPacketRecv {
        packets: vec![Packet {
            source_channel_id: 2,
            destination_channel_id: 1,
            data: vec![1, 2, 3],
            timeout_timestamp: 2000000000000000000,
        }],
        market_maker_msgs: vec![vec![1, 2, 3]],
        market_maker: mock_addr("marketmaker"),
        empty_proof: vec![],
    };
    assert!(h
        .execute(
            &mock_env(),
            &mock_addr(SENDER),
            ExecuteMsg::IntentPacketRecv(msg)
        )
        .is_ok())
}

#[test]
fn recv_intent_packet_timeout_timestamp() {
    let mut h = init();
    setup(&mut h, 100000);
    let msg = MsgIntentPacketRecv {
        packets: vec![Packet {
            source_channel_id: 2,
            destination_channel_id: 1,
            data: vec![1, 2, 3],
            timeout_timestamp: 100,
        }],
        market_maker_msgs: vec![vec![1, 2, 3]],
        market_maker: mock_addr("marketmaker"),
        empty_proof: vec![],
    };
    assert!(h
        .execute(
            &mock_env(),
            &mock_addr(SENDER),
            ExecuteMsg::IntentPacketRecv(msg)
        )
        .is_err_and(|err| matches!(
            err,
            ContractError::ReceivedTimedOutPacketTimestamp { .. }
        )))
}

#[test]
fn acknowledge_packet_ok() {
    let mut h = init();
    setup(&mut h, 100000);
    open_second_channel(&mut h, &mock_env(), SENDER);
    let msg = MsgSendPacket {
        source_channel_id: 1,
        timeout_timestamp: 2000000000000000000,
        data: vec![1, 2, 3],
    };
    h.execute(&mock_env(), &mock_addr(SENDER), ExecuteMsg::PacketSend(msg))
        .expect("send packet ok");
    let msg = MsgPacketAcknowledgement {
        packets: vec![Packet {
            source_channel_id: 1,
            destination_channel_id: 1,
            data: vec![1, 2, 3],
            timeout_timestamp: 2000000000000000000,
        }],
        acknowledgements: vec![vec![1, 2, 3]],
        proof: vec![1],
        proof_height: 1,
        relayer: mock_addr(RELAYER),
    };
    assert!(h
        .execute(&mock_env(), &mock_addr(SENDER), ExecuteMsg::PacketAck(msg))
        .is_ok())
}

#[test]
fn acknowledge_packet_tampered() {
    let mut h = init();
    setup(&mut h, 100000);
    open_second_channel(&mut h, &mock_env(), SENDER);
    let msg = MsgSendPacket {
        source_channel_id: 1,
        timeout_timestamp: 2000000000000000000,
        data: vec![1, 2, 3],
    };
    h.execute(&mock_env(), &mock_addr(SENDER), ExecuteMsg::PacketSend(msg))
        .expect("send packet ok");
    let msg = MsgPacketAcknowledgement {
        packets: vec![Packet {
            source_channel_id: 1,
            destination_channel_id: 1,
            data: vec![4, 1, 2, 3],
            timeout_timestamp: 2000000000000000000,
        }],
        acknowledgements: vec![vec![1, 2, 3]],
        proof: vec![1],
        proof_height: 1,
        relayer: mock_addr(RELAYER),
    };
    assert!(h
        .execute(&mock_env(), &mock_addr(SENDER), ExecuteMsg::PacketAck(msg))
        .is_err_and(|err| matches!(err, ContractError::PacketCommitmentNotFound)))
}

#[test]
fn acknowledge_packet_not_sent() {
    let mut h = init();
    setup(&mut h, 100000);
    open_second_channel(&mut h, &mock_env(), SENDER);
    let msg = MsgPacketAcknowledgement {
        packets: vec![Packet {
            source_channel_id: 1,
            destination_channel_id: 1,
            data: vec![1, 2, 3],
            timeout_timestamp: 2000000000000000000,
        }],
        acknowledgements: vec![vec![1, 2, 3]],
        proof: vec![1],
        proof_height: 1,
        relayer: mock_addr(RELAYER),
    };
    assert!(h
        .execute(&mock_env(), &mock_addr(SENDER), ExecuteMsg::PacketAck(msg))
        .is_err_and(|err| matches!(err, ContractError::PacketCommitmentNotFound)))
}

#[test]
fn timeout_packet_timestamp_ok() {
    let mut h = init();
    let env = Env { block_time: 128 };
    let timeout_timestamp = 64;
    setup(&mut h, 100000);
    let msg = MsgSendPacket {
        source_channel_id: 1,
        timeout_timestamp,
        data: vec![1, 2, 3],
    };
    h.execute(&env, &mock_addr(SENDER), ExecuteMsg::PacketSend(msg))
        .expect("send packet ok");
    let msg = MsgPacketTimeout {
        packet: Packet {
            source_channel_id: 1,
            destination_channel_id: 1,
            data: vec![1, 2, 3],
            timeout_timestamp,
        },
        proof: vec![1],
        proof_height: 11,
        relayer: mock_addr(RELAYER),
    };
    assert!(h
        .execute(&env, &mock_addr(SENDER), ExecuteMsg::PacketTimeout(msg))
        .is_ok())
}

#[test]
fn timeout_packet_timestamp_timestamp_not_reached() {
    let mut h = init();
    let env = Env { block_time: 128 };
    let timeout_timestamp = 248;
    setup(&mut h, 128);
    let msg = MsgSendPacket {
        source_channel_id: 1,
        timeout_timestamp,
        data: vec![1, 2, 3],
    };
    h.execute(&env, &mock_addr(SENDER), ExecuteMsg::PacketSend(msg))
        .expect("send packet ok");
    let msg = MsgPacketTimeout {
        packet: Packet {
            source_channel_id: 1,
            destination_channel_id: 1,
            data: vec![1, 2, 3],
            timeout_timestamp,
        },
        proof: vec![1],
        proof_height: 11,
        relayer: mock_addr(RELAYER),
    };
    assert!(h
        .execute(&env, &mock_addr(SENDER), ExecuteMsg::PacketTimeout(msg))
        .is_err_and(|err| matches!(err, ContractError::TimeoutTimestampNotReached)))
}

#[test]
fn write_acknowledgement_ok() {
    let mut h = init();
    let env = Env { block_time: 128 };
    let timeout_timestamp = 248;
    setup(&mut h, 100000);
    open_second_channel(&mut h, &env, SENDER);
    let msg = MsgPacketRecv {
        packets: vec![Packet {
            source_channel_id: 1,
            destination_channel_id: 2,
            data: vec![1, 2, 3],
            timeout_timestamp,
        }],
        relayer_msgs: vec![vec![1]],
        relayer: mock_addr(RELAYER),
        proof: vec![1, 2, 3],
        proof_height: 1,
    };
    h.execute(&env, &mock_addr(SENDER), ExecuteMsg::PacketRecv(msg))
        .expect("recv packet ok");
    let msg = MsgWriteAcknowledgement {
        packet: Packet {
            source_channel_id: 1,
            destination_channel_id: 2,
            data: vec![1, 2, 3],
            timeout_timestamp,
        },
        acknowledgement: vec![1],
    };
    assert!(h
        .execute(
            &env,
            &mock_addr(SENDER),
            ExecuteMsg::WriteAcknowledgement(msg)
        )
        .is_ok())
}

#[test]
fn write_acknowledgement_module_is_not_channel_owner() {
    let mut h = init();
    let env = Env { block_time: 128 };
    let timeout_timestamp = 248;
    setup(&mut h, 100000);
    open_second_channel(&mut h, &env, "malicious");
    let msg = MsgPacketRecv {
        packets: vec![Packet {
            source_channel_id: 1,
            destination_channel_id: 2,
            data: vec![1, 2, 3],
            timeout_timestamp,
        }],
        relayer_msgs: vec![vec![1]],
        relayer: mock_addr(RELAYER),
        proof: vec![1, 2, 3],
        proof_height: 1,
    };
    h.execute(&env, &mock_addr(SENDER), ExecuteMsg::PacketRecv(msg))
        .expect("recv packet ok");
    let msg = MsgWriteAcknowledgement {
        packet: Packet {
            source_channel_id: 1,
            destination_channel_id: 2,
            data: vec![1, 2, 3],
            timeout_timestamp,
        },
        acknowledgement: vec![1],
    };
    assert!(h
        .execute(
            &env,
            &mock_addr(SENDER),
            ExecuteMsg::WriteAcknowledgement(msg)
        )
        .is_err_and(|err| matches!(err, ContractError::Unauthorized)))
}

#[test]
fn write_acknowledgement_packet_not_received() {
    let mut h = init();
    setup(&mut h, 100000);
    open_second_channel(&mut h, &mock_env(), SENDER);
    let msg = MsgWriteAcknowledgement {
        packet: Packet {
            source_channel_id: 1,
            destination_channel_id: 2,
            data: vec![1, 2, 3],
            timeout_timestamp: 2000000000000000000,
        },
        acknowledgement: vec![1],
    };
    assert!(h
        .execute(
            &mock_env(),
            &mock_addr(SENDER),
            ExecuteMsg::WriteAcknowledgement(msg)
        )
        .is_err_and(|err| matches!(err, ContractError::PacketNotReceived)))
}

#[test]
fn write_acknowledgement_already_exists() {
    let mut h = init();
    let env = Env { block_time: 128 };
    let timeout_timestamp = 248;
    setup(&mut h, 100000);
    open_second_channel(&mut h, &env, SENDER);
    let msg = MsgPacketRecv {
        packets: vec![Packet {
            source_channel_id: 1,
            destination_channel_id: 2,
            data: vec![1, 2, 3],
            timeout_timestamp,
        }],
        relayer_msgs: vec![vec![1]],
        relayer: mock_addr(RELAYER),
        proof: vec![1, 2, 3],
        proof_height: 1,
    };
    h.execute(&env, &mock_addr(SENDER), ExecuteMsg::PacketRecv(msg))
        .expect("recv packet ok");
    let msg = MsgWriteAcknowledgement {
        packet: Packet {
            source_channel_id: 1,
            destination_channel_id: 2,
            data: vec![1, 2, 3],
            timeout_timestamp,
        },
        acknowledgement: vec![1],
    };
    assert!(h
        .execute(
            &env,
            &mock_addr(SENDER),
            ExecuteMsg::WriteAcknowledgement(msg)
        )
        .is_ok());
    let msg = MsgWriteAcknowledgement {
        packet: Packet {
            source_channel_id: 1,
            destination_channel_id: 2,
            data: vec![1, 2, 3],
            timeout_timestamp,
        },
        acknowledgement: vec![1],
    };
    assert!(h
        .execute(
            &env,
            &mock_addr(SENDER),
            ExecuteMsg::WriteAcknowledgement(msg)
        )
        .is_err_and(|err| matches!(err, ContractError::AlreadyAcknowledged)))
}

#[test]
fn batch_send_ok() {
    let mut h = init();
    let env = Env { block_time: 128 };
    let timeout_timestamp = 248;
    setup(&mut h, 100000);
    open_second_channel(&mut h, &env, SENDER);
    let msg = MsgSendPacket {
        source_channel_id: 2,
        timeout_timestamp,
        data: vec![1, 2, 3],
    };
    h.execute(&env, &mock_addr(SENDER), ExecuteMsg::PacketSend(msg))
        .expect("send packet is ok");
    let msg = MsgSendPacket {
        source_channel_id: 2,
        timeout_timestamp,
        data: vec![4, 5, 6],
    };
    h.execute(&env, &mock_addr(SENDER), ExecuteMsg::PacketSend(msg))
        .expect("send packet is ok");
    let msg = MsgBatchSend {
        packets: vec![
            Packet {
                source_channel_id: 2,
                destination_channel_id: 1,
                data: vec![4, 5, 6],
                timeout_timestamp,
            },
            Packet {
                source_channel_id: 2,
                destination_channel_id: 1,
                data: vec![1, 2, 3],
                timeout_timestamp,
            },
        ],
    };
    assert!(h
        .execute(&env, &mock_addr(SENDER), ExecuteMsg::BatchSend(msg))
        .is_ok())
}

#[test]
fn batch_send_packet_not_sent() {
    let mut h = init();
    setup(&mut h, 100000);
    open_second_channel(&mut h, &mock_env(), SENDER);
    let msg = MsgBatchSend {
        packets: vec![
            Packet {
                source_channel_id: 2,
                destination_channel_id: 1,
                data: vec![4, 5, 6],
                timeout_timestamp: 0,
            },
            Packet {
                source_channel_id: 2,
                destination_channel_id: 1,
                data: vec![1, 2, 3],
                timeout_timestamp: 0,
            },
        ],
    };
    assert!(h
        .execute(&mock_env(), &mock_addr(SENDER), ExecuteMsg::BatchSend(msg))
        .is_err_and(|err| matches!(err, ContractError::PacketCommitmentNotFound)))
}

#[test]
fn batch_acks_ok() {
    let mut h = init();
    let env = Env { block_time: 128 };
    let timeout_timestamp = 248;
    setup(&mut h, 100000);
    open_second_channel(&mut h, &env, SENDER);
    for data in [vec![1, 2, 3], vec![3, 4, 5]] {
        let msg = MsgPacketRecv {
            packets: vec![Packet {
                source_channel_id: 1,
                destination_channel_id: 2,
                data: data.clone(),
                timeout_timestamp,
            }],
            relayer_msgs: vec![vec![1]],
            relayer: mock_addr(RELAYER),
            proof: vec![1, 2, 3],
            proof_height: 1,
        };
        h.execute(&env, &mock_addr(SENDER), ExecuteMsg::PacketRecv(msg))
            .expect("recv packet ok");
        let msg = MsgWriteAcknowledgement {
            packet: Packet {
                source_channel_id: 1,
                destination_channel_id: 2,
                data,
                timeout_timestamp,
            },
            acknowledgement: vec![1],
        };
        h.execute(
            &env,
            &mock_addr(SENDER),
            ExecuteMsg::WriteAcknowledgement(msg),
        )
        .expect("write ack is ok");
    }
    let msg = MsgBatchAcks {
        packets: vec![
            Packet {
                source_channel_id: 1,
                destination_channel_id: 2,
                data: vec![1, 2, 3],
                timeout_timestamp,
            },
            Packet {
                source_channel_id: 1,
                destination_channel_id: 2,
                data: vec![3, 4, 5],
                timeout_timestamp,
            },
        ],
        acks: vec![vec![1], vec![1]],
    };
    assert!(h
        .execute(&env, &mock_addr(SENDER), ExecuteMsg::BatchAcks(msg))
        .is_ok())
}

#[test]
fn batch_acks_packet_not_received() {
    let mut h = init();
    setup(&mut h, 100000);
    open_second_channel(&mut h, &mock_env(), SENDER);
    let msg = MsgBatchAcks {
        packets: vec![
            Packet {
                source_channel_id: 1,
                destination_channel_id: 2,
                data: vec![1, 2, 3],
                timeout_timestamp: 0,
            },
            Packet {
                source_channel_id: 1,
                destination_channel_id: 2,
                data: vec![3, 4, 5],
                timeout_timestamp: 0,
            },
        ],
        acks: vec![vec![1], vec![1]],
    };
    assert!(h
        .execute(&mock_env(), &mock_addr(SENDER), ExecuteMsg::BatchAcks(msg))
        .is_err_and(|err| matches!(err, ContractError::PacketCommitmentNotFound)))
}

#[test]
fn batch_acks_tampered_packet() {
    let mut h = init();
    let env = Env { block_time: 128 };
    let timeout_timestamp = 248;
    setup(&mut h, 100000);
    open_second_channel(&mut h, &env, SENDER);
    for data in [vec![1, 2, 3], vec![3, 4, 5]] {
        let msg = MsgPacketRecv {
            packets: vec![Packet {
                source_channel_id: 1,
                destination_channel_id: 2,
                data: data.clone(),
                timeout_timestamp,
            }],
            relayer_msgs: vec![vec![1]],
            relayer: mock_addr(RELAYER),
            proof: vec![1, 2, 3],
            proof_height: 1,
        };
        h.execute(&env, &mock_addr(SENDER), ExecuteMsg::PacketRecv(msg))
            .expect("recv packet ok");
        let msg = MsgWriteAcknowledgement {
            packet: Packet {
                source_channel_id: 1,
                destination_channel_id: 2,
                data,
                timeout_timestamp,
            },
            acknowledgement: vec![1],
        };
        h.execute(
            &env,
            &mock_addr(SENDER),
            ExecuteMsg::WriteAcknowledgement(msg),
        )
        .expect("write ack is ok");
    }
    let msg = MsgBatchAcks {
        packets: vec![
            Packet {
                source_channel_id: 1,
                destination_channel_id: 2,
                data: vec![10, 20, 30],
                timeout_timestamp,
            },
            Packet {
                source_channel_id: 1,
                destination_channel_id: 2,
                data: vec![30, 40, 50],
                timeout_timestamp: 0,
            },
        ],
        acks: vec![vec![1], vec![1]],
    };
    assert!(h
        .execute(&env, &mock_addr(SENDER), ExecuteMsg::BatchAcks(msg))
        .is_err_and(|err| matches!(err, ContractError::PacketCommitmentNotFound)))
}
