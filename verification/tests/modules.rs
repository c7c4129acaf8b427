use ibc_union::bob::{BobClientState, BobClientStateV1, BobClientStateV2, BobHeader, BobLightClient};
use ibc_union::cometbls::{
    check_header, is_client_expired, update_state, CometblsClientState, CometblsConsensusState,
    CometblsError, CometblsHeader, CometblsLightClient,
};
use ibc_union::cosmos::{
    client_info_from_type, extract_batch_entries, extract_sent_packet, make_height,
    parse_chain_revision, IbcEvent, QueryError,
};
use ibc_union::lens::{BlockHeader, Decoder, IndexerError, SupportedBlockEvent, TmFetcherClient};
use ibc_union::sui::{
    client_info, convert_channel, convert_connection, decode_sui_connection, SuiChannel,
    SuiConnection,
};
use ibc_union::types::{ChannelState, ConnectionState, Status};

fn cometbls_client() -> CometblsClientState {
    CometblsClientState {
        chain_id: "union-1".to_string(),
        trusting_period: 1_000_000,
        max_clock_drift: 1_000,
        frozen_height: 0,
        latest_height: 10,
        contract_address: vec![0xAA; 32],
    }
}

fn trusted_state() -> CometblsConsensusState {
    CometblsConsensusState {
        timestamp: 500_000,
        app_hash: vec![1; 32],
        next_validators_hash: vec![2; 32],
    }
}

fn header() -> CometblsHeader {
    CometblsHeader {
        signed_height: 12,
        signed_time: 600_000,
        signed_app_hash: vec![3; 32],
        signed_validators_hash: vec![2; 32],
        signed_next_validators_hash: vec![4; 32],
        trusted_height: 10,
    }
}

#[test]
fn cometbls_header_is_admitted() {
    assert!(check_header(&cometbls_client(), &trusted_state(), &header(), 700_000, true).is_ok());
}

#[test]
fn cometbls_header_must_advance_the_height() {
    let mut h = header();
    h.signed_height = 10;
    assert!(matches!(
        check_header(&cometbls_client(), &trusted_state(), &h, 700_000, true),
        Err(CometblsError::SignedHeaderHeightMustBeMoreRecent {
            signed_height: 10,
            trusted_height: 10
        })
    ));
}

#[test]
fn cometbls_header_must_advance_the_time() {
    let mut h = header();
    h.signed_time = 500_000;
    assert!(matches!(
        check_header(&cometbls_client(), &trusted_state(), &h, 700_000, true),
        Err(CometblsError::SignedHeaderTimestampMustBeMoreRecent { .. })
    ));
}

#[test]
fn cometbls_header_expires_with_the_trusting_period() {
    // now is past trusted.timestamp + trusting_period = 1_500_000.
    assert!(matches!(
        check_header(&cometbls_client(), &trusted_state(), &header(), 2_000_000, true),
        Err(CometblsError::HeaderExpired {
            trusted_timestamp: 500_000
        })
    ));
}

#[test]
fn cometbls_clock_drift_overflow_is_an_error() {
    let mut cs = cometbls_client();
    cs.max_clock_drift = u64::MAX;
    assert!(matches!(
        check_header(&cs, &trusted_state(), &header(), 700_000, true),
        Err(CometblsError::MathOverflow)
    ));
}

#[test]
fn cometbls_header_must_respect_clock_drift() {
    let mut h = header();
    h.signed_time = 800_000;
    // now + max_clock_drift = 701_000 <= signed time.
    assert!(matches!(
        check_header(&cometbls_client(), &trusted_state(), &h, 700_000, true),
        Err(CometblsError::SignedHeaderCannotExceedMaxClockDrift { .. })
    ));
}

#[test]
fn cometbls_adjacent_header_must_carry_trusted_validators() {
    let mut h = header();
    h.signed_height = 11;
    h.signed_validators_hash = vec![9; 32];
    assert!(matches!(
        check_header(&cometbls_client(), &trusted_state(), &h, 700_000, true),
        Err(CometblsError::InvalidValidatorsHash)
    ));
}

#[test]
fn cometbls_rejected_proof_rejects_the_header() {
    assert!(matches!(
        check_header(&cometbls_client(), &trusted_state(), &header(), 700_000, false),
        Err(CometblsError::InvalidZkp)
    ));
}

#[test]
fn cometbls_update_advances_the_latest_height() {
    let up = update_state(&cometbls_client(), &header());
    assert_eq!(up.height, 12);
    assert_eq!(up.consensus_state.timestamp, 600_000);
    assert_eq!(up.consensus_state.app_hash, vec![3; 32]);
    assert_eq!(up.consensus_state.next_validators_hash, vec![4; 32]);
    let ncs = up.client_state.expect("latest height advanced");
    assert_eq!(ncs.latest_height, 12);
}

#[test]
fn cometbls_update_below_latest_keeps_the_client_state() {
    let mut cs = cometbls_client();
    cs.latest_height = 20;
    let up = update_state(&cs, &header());
    assert!(up.client_state.is_none());
}

#[test]
fn cometbls_noop_update_returns_the_existing_state() {
    let existing = CometblsConsensusState {
        timestamp: 42,
        app_hash: vec![7; 32],
        next_validators_hash: vec![8; 32],
    };
    let up = CometblsLightClient::verify_header(
        &cometbls_client(),
        &trusted_state(),
        Some(&existing),
        &header(),
        700_000,
        false,
    )
    .expect("a cached height is a no-op, whatever the proof verdict");
    assert_eq!(up.height, 12);
    assert_eq!(up.consensus_state.timestamp, 42);
    assert!(up.client_state.is_none());
}

#[test]
fn cometbls_misbehaviour_freezes_on_conflicting_headers() {
    let mut b = header();
    b.signed_app_hash = vec![9; 32];
    let frozen = CometblsLightClient::misbehaviour(
        &cometbls_client(),
        &trusted_state(),
        &trusted_state(),
        &header(),
        &b,
        700_000,
        true,
        true,
    )
    .expect("conflicting headers at one height are misbehaviour");
    assert_eq!(frozen.frozen_height, 1);
}

#[test]
fn cometbls_misbehaviour_keeps_the_rest_of_the_client_state() {
    let mut b = header();
    b.signed_app_hash = vec![9; 32];
    let cs = cometbls_client();
    let frozen = CometblsLightClient::misbehaviour(
        &cs,
        &trusted_state(),
        &trusted_state(),
        &header(),
        &b,
        700_000,
        true,
        true,
    )
    .expect("conflicting headers freeze");
    assert_eq!(frozen.chain_id, cs.chain_id);
    assert_eq!(frozen.trusting_period, cs.trusting_period);
    assert_eq!(frozen.max_clock_drift, cs.max_clock_drift);
    assert_eq!(frozen.latest_height, cs.latest_height);
    assert_eq!(frozen.contract_address, cs.contract_address);
}

#[test]
fn cometbls_one_header_under_two_anchors_is_no_misbehaviour() {
    // The same signed header reported against two different trusted
    // heights contradicts nothing: only the signed content counts.
    let mut b = header();
    b.trusted_height = 9;
    assert!(matches!(
        CometblsLightClient::misbehaviour(
            &cometbls_client(),
            &trusted_state(),
            &trusted_state(),
            &header(),
            &b,
            700_000,
            true,
            true,
        ),
        Err(CometblsError::MisbehaviourNotFound)
    ));
}

#[test]
fn cometbls_misbehaviour_needs_a_contradiction() {
    assert!(matches!(
        CometblsLightClient::misbehaviour(
            &cometbls_client(),
            &trusted_state(),
            &trusted_state(),
            &header(),
            &header(),
            700_000,
            true,
            true,
        ),
        Err(CometblsError::MisbehaviourNotFound)
    ));
}

#[test]
fn cometbls_status_reports_the_lifecycle() {
    let cs = cometbls_client();
    let latest = trusted_state();
    assert_eq!(
        CometblsLightClient::status(&cs, Some(&latest), 700_000),
        Status::Active
    );
    assert_eq!(
        CometblsLightClient::status(&cs, Some(&latest), 2_000_000),
        Status::Expired
    );
    assert_eq!(CometblsLightClient::status(&cs, None, 700_000), Status::Expired);
    let mut frozen = cometbls_client();
    frozen.frozen_height = 1;
    assert_eq!(
        CometblsLightClient::status(&frozen, Some(&latest), 700_000),
        Status::Frozen
    );
}

#[test]
fn cometbls_membership_key_lays_out_the_store_path() {
    let key = CometblsLightClient::membership_key(&vec![0xAA, 0xBB], &vec![0x01, 0x02]);
    let mut expected = vec![0x03, 0xAA, 0xBB];
    expected.extend_from_slice(&1u64.to_be_bytes());
    expected.extend_from_slice(&[0x01, 0x02]);
    assert_eq!(key, expected);
}

#[test]
fn cometbls_expiry_treats_overflow_as_expired() {
    assert!(is_client_expired(u64::MAX, 1, 0));
    assert!(!is_client_expired(100, 50, 120));
    assert!(is_client_expired(100, 50, 151));
}

#[test]
fn bob_latest_height_reads_either_layout() {
    let v1 = BobClientState::V1(BobClientStateV1 {
        chain_id: "bob-1".to_string(),
        latest_height: 5,
    });
    let v2 = BobClientState::V2(BobClientStateV2 {
        chain_id: "bob-1".to_string(),
        latest_height: 9,
        l1_client_id: 3,
    });
    assert_eq!(BobLightClient::get_latest_height(&v1), 5);
    assert_eq!(BobLightClient::get_latest_height(&v2), 9);
    assert_eq!(BobLightClient::get_counterparty_chain_id(&v2), "bob-1");
    assert_eq!(BobLightClient::status(&v1), Status::Active);
}

#[test]
fn bob_update_scales_seconds_and_advances() {
    let cs = BobClientStateV2 {
        chain_id: "bob-1".to_string(),
        latest_height: 100,
        l1_client_id: 3,
    };
    let h = BobHeader {
        l1_height: 50,
        l2_number: 120,
        l2_timestamp: 7,
        l2_state_root: vec![1; 32],
        l2_storage_root: vec![2; 32],
    };
    let up = BobLightClient::update_from_header(&cs, &h);
    assert_eq!(up.height, 120);
    assert_eq!(up.consensus_state.timestamp, 7_000_000_000);
    assert_eq!(up.consensus_state.state_root, vec![1; 32]);
    assert_eq!(up.consensus_state.ibc_storage_root, vec![2; 32]);
    assert_eq!(up.client_state.expect("advanced").latest_height, 120);
    let h_old = BobHeader {
        l1_height: 50,
        l2_number: 90,
        l2_timestamp: 7,
        l2_state_root: vec![1; 32],
        l2_storage_root: vec![2; 32],
    };
    assert!(BobLightClient::update_from_header(&cs, &h_old)
        .client_state
        .is_none());
}

#[test]
fn lens_mapping_carries_every_attribute() {
    let log = Decoder {
        header: Some(BlockHeader {
            height: 11,
            time: 22,
        }),
        client_id: Some(1),
        l1_client_id: Some(2),
        l2_client_id: Some(3),
        l2_chain_id: Some("l2-chain".to_string()),
    };
    let evs = TmFetcherClient.to_create_lens_client(&log).expect("mapped");
    assert_eq!(evs.len(), 1);
    let SupportedBlockEvent::CreateLensClient { inner } = &evs[0];
    assert_eq!(inner.header.height, 11);
    assert_eq!(inner.client_id, 1);
    assert_eq!(inner.l1_client_id, 2);
    assert_eq!(inner.l2_client_id, 3);
    assert_eq!(inner.l2_chain_id, "l2-chain");
}

#[test]
fn lens_mapping_names_the_first_missing_attribute() {
    let log = Decoder {
        header: Some(BlockHeader { height: 1, time: 2 }),
        client_id: Some(1),
        l1_client_id: None,
        l2_client_id: None,
        l2_chain_id: None,
    };
    assert!(matches!(
        TmFetcherClient.to_create_lens_client(&log),
        Err(IndexerError::MissingL1ClientId)
    ));
}

#[test]
fn chain_revision_parses_the_suffix() {
    assert_eq!(parse_chain_revision(&b"union-testnet-8".to_vec()).ok(), Some(8));
    assert_eq!(parse_chain_revision(&b"123".to_vec()).ok(), Some(123));
    assert!(parse_chain_revision(&b"union-".to_vec()).is_err());
    assert!(parse_chain_revision(&b"union-abc".to_vec()).is_err());
    assert!(parse_chain_revision(&b"chain-99999999999999999999".to_vec()).is_err());
    let err = parse_chain_revision(&b"union-x".to_vec()).expect_err("not numeric");
    assert_eq!(err.found, b"union-x".to_vec());
}

#[test]
fn make_height_carries_both_parts() {
    let h = make_height(3, 77);
    assert_eq!(h.revision, 3);
    assert_eq!(h.height, 77);
}

#[test]
fn extract_sent_packet_reads_the_first_matching_event() {
    let contract = b"contract".to_vec();
    let events = vec![
        (
            b"other".to_vec(),
            IbcEvent::WasmBatchSend {
                channel_id: 1,
                packet_hash: vec![1],
                batch_hash: vec![2],
            },
        ),
        (
            contract.clone(),
            IbcEvent::WasmPacketSend {
                packet_source_channel_id: 4,
                packet_destination_channel_id: 5,
                packet_data: vec![7, 8],
                packet_timeout_height: 0,
                packet_timeout_timestamp: 99,
                channel_id: 4,
                packet_hash: vec![3],
            },
        ),
    ];
    let p = extract_sent_packet(1, &events, &contract).expect("packet found");
    assert_eq!(p.source_channel_id, 4);
    assert_eq!(p.destination_channel_id, 5);
    assert_eq!(p.data, vec![7, 8]);
    assert_eq!(p.timeout_timestamp, 99);
    assert!(matches!(
        extract_sent_packet(2, &events, &contract),
        Err(QueryError::UnexpectedEventCount { found: 2 })
    ));
    assert!(matches!(
        extract_sent_packet(1, &events, &b"nobody".to_vec()),
        Err(QueryError::SendEventNotFound)
    ));
}

#[test]
fn extract_batch_entries_keeps_contract_events_in_order() {
    let contract = b"contract".to_vec();
    let events = vec![
        (
            contract.clone(),
            IbcEvent::WasmBatchSend {
                channel_id: 1,
                packet_hash: vec![0xAA],
                batch_hash: vec![2],
            },
        ),
        (
            b"other".to_vec(),
            IbcEvent::WasmBatchSend {
                channel_id: 9,
                packet_hash: vec![0xFF],
                batch_hash: vec![2],
            },
        ),
        (
            contract.clone(),
            IbcEvent::WasmBatchSend {
                channel_id: 1,
                packet_hash: vec![0xBB],
                batch_hash: vec![2],
            },
        ),
    ];
    let entries = extract_batch_entries(2, &events, &contract).expect("entries");
    assert_eq!(entries, vec![(1, vec![0xAA]), (1, vec![0xBB])]);
    assert!(matches!(
        extract_batch_entries(1, &events, &contract),
        Err(QueryError::UnexpectedEventCount { found: 1 })
    ));
}

#[test]
fn client_info_wraps_the_type_tag() {
    let info = client_info_from_type(Some("cometbls".to_string())).expect("info");
    assert_eq!(info.client_type, "cometbls");
    assert_eq!(info.ibc_interface, "ibc-cosmwasm");
    assert!(matches!(
        client_info_from_type(None),
        Err(QueryError::ClientTypeNotFound)
    ));
}

#[test]
fn sui_client_info_names_the_move_interface() {
    let info = client_info();
    assert_eq!(info.client_type, "cometbls");
    assert_eq!(info.ibc_interface, "ibc-move/aptos");
}

#[test]
fn sui_connection_converts_states_and_sentinels() {
    let c = convert_connection(SuiConnection {
        state: 2,
        client_id: 4,
        counterparty_client_id: 9,
        counterparty_connection_id: 0,
    });
    assert!(matches!(c.state, ConnectionState::TryOpen));
    assert_eq!(c.client_id, 4);
    assert_eq!(c.counterparty_client_id, 9);
    assert_eq!(c.counterparty_connection_id, 0);
}

#[test]
fn sui_channel_converts_states_and_carries_fields() {
    let c = convert_channel(SuiChannel {
        state: 4,
        connection_id: 2,
        counterparty_channel_id: 0,
        counterparty_port_id: vec![1, 2],
        version: "v9".to_string(),
    });
    assert!(matches!(c.state, ChannelState::Closed));
    assert_eq!(c.connection_id, 2);
    assert_eq!(c.counterparty_channel_id, 0);
    assert_eq!(c.counterparty_port_id, vec![1, 2]);
    assert_eq!(c.version, "v9");
}

#[test]
fn sui_connection_decodes_little_endian_records() {
    let mut bytes = vec![3u8];
    bytes.extend_from_slice(&7u32.to_le_bytes());
    bytes.extend_from_slice(&8u32.to_le_bytes());
    bytes.extend_from_slice(&0x01020304u32.to_le_bytes());
    let c = decode_sui_connection(&bytes).expect("decoded");
    assert_eq!(c.state, 3);
    assert_eq!(c.client_id, 7);
    assert_eq!(c.counterparty_client_id, 8);
    assert_eq!(c.counterparty_connection_id, 0x01020304);
    assert!(decode_sui_connection(&vec![1, 2, 3]).is_none());
}
