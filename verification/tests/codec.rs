use nanonode::amount::Amount;
use nanonode::auth::PrivateKey;
use nanonode::builders::{new_send_block, new_state_block};
use nanonode::blocks::{BlockEnum, BlockType};
use nanonode::channel::EndpointV6;
use nanonode::hashes::Hash256;
use nanonode::messages::{
    AccountInfoAckPayload, TelemetryAckPayload, AscPullReqBlocks, AscPullReqAccountInfo, AscPullReqType,
    BulkPullAccountFlags, BulkPullAccountPayload, BulkPullPayload, FrontierReqPayload,
    HandshakeQuery, HandshakeResponse, MessageEnum, MessageHeader, MessageType, ProtocolInfo,
    RootHashPair,
};
use nanonode::stream::MemoryStream;
use nanonode::work::{generate_work, work_value, WorkThresholds};

fn sample_state_block(tag: u64) -> BlockEnum {
    let key = PrivateKey::from(1000 + tag);
    new_state_block(
        key.public_key(),
        Hash256::from_u64(tag),
        Hash256::from_u64(tag + 1),
        Amount::raw(tag as u128 * 7),
        Hash256::from_u64(tag + 2),
        &key,
        tag + 3,
    )
}

fn serialize_and_deserialize(original: &MessageEnum) -> MessageEnum {
    let mut stream = MemoryStream::new();
    original.serialize(&mut stream);
    let out = MessageEnum::deserialize(&mut stream).unwrap();
    assert!(stream.at_end());
    out
}

#[test]
fn serialize_header() {
    let original = MessageEnum::ack_blocks(&ProtocolInfo::dev_network(), 0, vec![]);
    let mut stream = MemoryStream::new();
    original.serialize(&mut stream);
    let header = MessageHeader::deserialize(&mut stream).unwrap();
    assert_eq!(header.message_type, MessageType::AscPullAck);
}

#[test]
fn serialize_blocks() {
    let original = MessageEnum::ack_blocks(
        &ProtocolInfo::dev_network(),
        7,
        vec![sample_state_block(10), sample_state_block(20)],
    );
    let message_out = serialize_and_deserialize(&original);
    assert_eq!(message_out.payload, original.payload);
}

#[test]
fn serialize_account_info() {
    let original = MessageEnum::ack_accounts(
        &ProtocolInfo::dev_network(),
        7,
        AccountInfoAckPayload {
            account: Hash256::from_u64(1),
            account_open: Hash256::from_u64(2),
            account_head: Hash256::from_u64(3),
            account_block_count: 4,
            account_conf_frontier: Hash256::from_u64(5),
            account_conf_height: 6,
        },
    );
    let message_out = serialize_and_deserialize(&original);
    assert_eq!(message_out.payload, original.payload);
}

#[test]
fn serialize_block() {
    let block = sample_state_block(30);
    let confirm_req1 = MessageEnum::new_confirm_req_with_block(&ProtocolInfo::default(), block);
    let confirm_req2 = serialize_and_deserialize(&confirm_req1);
    assert_eq!(confirm_req1, confirm_req2);
}

#[test]
fn serialze_roots_hashes() {
    let roots_hashes = vec![RootHashPair {
        hash: Hash256::from_u64(1),
        root: Hash256::from_u64(2),
    }];
    let confirm_req1 =
        MessageEnum::new_confirm_req_with_roots_hashes(&ProtocolInfo::default(), roots_hashes);
    let confirm_req2 = serialize_and_deserialize(&confirm_req1);
    assert_eq!(confirm_req1, confirm_req2);
}

#[test]
fn serialze_many_roots_hashes() {
    let roots_hashes: Vec<RootHashPair> = (0..7)
        .map(|i| RootHashPair {
            hash: Hash256::from_u64(i),
            root: Hash256::from_u64(i + 1),
        })
        .collect();
    let confirm_req1 =
        MessageEnum::new_confirm_req_with_roots_hashes(&ProtocolInfo::default(), roots_hashes);
    let confirm_req2 = serialize_and_deserialize(&confirm_req1);
    assert_eq!(confirm_req1, confirm_req2);
}

#[test]
fn keepalive_round_trip() {
    let peers: Vec<EndpointV6> = (0..8)
        .map(|i| EndpointV6 {
            ip_hi: i + 1,
            ip_lo: i * 3,
            port: 7075 + i as u16,
        })
        .collect();
    let original = MessageEnum::new_keepalive(&ProtocolInfo::dev_network(), peers);
    let out = serialize_and_deserialize(&original);
    assert_eq!(original, out);
}

#[test]
fn publish_round_trip() {
    let key = PrivateKey::from(77);
    let block = new_send_block(
        Hash256::from_u64(5),
        Hash256::from_u64(6),
        Amount::raw(123),
        &key,
        9,
    );
    assert_eq!(block.block_type(), BlockType::LegacySend);
    let original = MessageEnum::new_publish(&ProtocolInfo::dev_network(), block);
    let out = serialize_and_deserialize(&original);
    assert_eq!(original, out);
}

#[test]
fn node_id_handshake_round_trip() {
    let query = Some(HandshakeQuery {
        cookie: Hash256::from_u64(42),
    });
    let key = PrivateKey::from(88);
    let signature = nanonode::auth::sign_hash(&key, &Hash256::from_u64(42));
    let response = Some(HandshakeResponse {
        node_id: key.public_key(),
        signature,
    });
    let original =
        MessageEnum::new_node_id_handshake(&ProtocolInfo::dev_network(), query, response);
    let out = serialize_and_deserialize(&original);
    assert_eq!(original, out);

    let query_only =
        MessageEnum::new_node_id_handshake(&ProtocolInfo::dev_network(), query, None);
    let out2 = serialize_and_deserialize(&query_only);
    assert_eq!(query_only, out2);
}

#[test]
fn bulk_pull_account_round_trip() {
    let original = MessageEnum::new_bulk_pull_account(
        &ProtocolInfo::dev_network(),
        BulkPullAccountPayload {
            account: Hash256::from_u64(11),
            minimum_amount: Amount::raw(500),
            flags: BulkPullAccountFlags::PendingHashAndAmount,
        },
    );
    let out = serialize_and_deserialize(&original);
    assert_eq!(original, out);
}

#[test]
fn frontier_req_round_trip() {
    let original = MessageEnum::new_frontier_req(
        &ProtocolInfo::dev_network(),
        FrontierReqPayload {
            start: Hash256::from_u64(3),
            age: 120,
            count: 1000,
        },
    );
    let out = serialize_and_deserialize(&original);
    assert_eq!(original, out);
}

#[test]
fn empty_payload_round_trips() {
    let telemetry = MessageEnum::new_telemetry_req(&ProtocolInfo::dev_network());
    assert_eq!(telemetry, serialize_and_deserialize(&telemetry));
    let bulk_push = MessageEnum::new_bulk_push(&ProtocolInfo::dev_network());
    assert_eq!(bulk_push, serialize_and_deserialize(&bulk_push));
}

#[test]
fn header_wire_layout() {
    // 8 bytes: network id big-endian, three versions, type byte,
    // extensions little-endian
    let mut stream = MemoryStream::new();
    let message = MessageEnum::new_telemetry_req(&ProtocolInfo::dev_network());
    message.serialize(&mut stream);
    let bytes = stream.to_vec();
    assert_eq!(bytes.len(), 8);
    assert_eq!(bytes[0], 0x52);
    assert_eq!(bytes[1], 0x41);
    assert_eq!(bytes[2], 19);
    assert_eq!(bytes[3], 19);
    assert_eq!(bytes[4], 18);
    assert_eq!(bytes[5], 12);
    assert_eq!(bytes[6], 0);
    assert_eq!(bytes[7], 0);
}

#[test]
fn block_wire_sizes_are_exact() {
    let key = PrivateKey::from(3);
    let send = new_send_block(
        Hash256::from_u64(1),
        Hash256::from_u64(2),
        Amount::raw(9),
        &key,
        4,
    );
    let mut stream = MemoryStream::new();
    send.serialize_body(&mut stream);
    assert_eq!(stream.bytes_written(), 152);

    let state = sample_state_block(50);
    let mut stream2 = MemoryStream::new();
    state.serialize_body(&mut stream2);
    assert_eq!(stream2.bytes_written(), 216);
}

#[test]
fn deserialize_rejects_a_short_frame() {
    let mut stream = MemoryStream::new();
    stream.write_u8(0x52);
    stream.write_u8(0x41);
    assert!(MessageEnum::deserialize(&mut stream).is_none());
}

#[test]
fn deserialize_rejects_an_unknown_type() {
    let mut stream = MemoryStream::new();
    // header with type byte 9, which no message uses
    stream.write_u16_be(0x5241);
    stream.write_u8(19);
    stream.write_u8(19);
    stream.write_u8(18);
    stream.write_u8(9);
    stream.write_u16_le(0);
    assert!(MessageEnum::deserialize(&mut stream).is_none());
}

#[test]
fn signature_validates_for_the_signer_only() {
    let key = PrivateKey::from(5);
    let hash = Hash256::from_u64(77);
    let signature = nanonode::auth::sign_hash(&key, &hash);
    assert!(nanonode::auth::validate_signature(
        &key.public_key(),
        &hash,
        &signature
    ));
    assert!(!nanonode::auth::validate_signature(
        &PrivateKey::from(6).public_key(),
        &hash,
        &signature
    ));
    assert!(!nanonode::auth::validate_signature(
        &key.public_key(),
        &Hash256::from_u64(78),
        &signature
    ));
}

#[test]
fn generated_work_meets_the_threshold() {
    let thresholds = WorkThresholds::publish_dev();
    let root = Hash256::from_u64(9);
    let nonce = generate_work(&root, thresholds.epoch_2);
    assert!(work_value(&root, nonce) >= thresholds.epoch_2);
}

#[test]
fn confirm_ack_round_trip() {
    let key = PrivateKey::from(44);
    let signature = nanonode::auth::sign_hash(&key, &Hash256::from_u64(1));
    let hashes = vec![
        Hash256::from_u64(21),
        Hash256::from_u64(22),
        Hash256::from_u64(23),
    ];
    let original = MessageEnum::new_confirm_ack(
        &ProtocolInfo::dev_network(),
        key.public_key(),
        signature,
        987,
        hashes,
    );
    let out = serialize_and_deserialize(&original);
    assert_eq!(original, out);
}

#[test]
fn bulk_pull_round_trip() {
    let original = MessageEnum::new_bulk_pull(
        &ProtocolInfo::dev_network(),
        BulkPullPayload {
            start: Hash256::from_u64(31),
            end: Hash256::from_u64(32),
            count: 64,
        },
    );
    let out = serialize_and_deserialize(&original);
    assert_eq!(original, out);
}

#[test]
fn asc_pull_req_round_trip() {
    let blocks = MessageEnum::new_asc_pull_req(
        &ProtocolInfo::dev_network(),
        5,
        AscPullReqType::Blocks(AscPullReqBlocks {
            start: Hash256::from_u64(41),
            count: 16,
        }),
    );
    assert_eq!(blocks, serialize_and_deserialize(&blocks));
    let info = MessageEnum::new_asc_pull_req(
        &ProtocolInfo::dev_network(),
        6,
        AscPullReqType::AccountInfo(AscPullReqAccountInfo {
            target: Hash256::from_u64(42),
        }),
    );
    assert_eq!(info, serialize_and_deserialize(&info));
}

#[test]
fn telemetry_ack_round_trip() {
    let key = PrivateKey::from(61);
    let original = MessageEnum::new_telemetry_ack(
        &ProtocolInfo::dev_network(),
        TelemetryAckPayload {
            node_id: key.public_key(),
            signature: nanonode::auth::sign_hash(&key, &Hash256::from_u64(1)),
            block_count: 100,
            cemented_count: 90,
            unchecked_count: 5,
            account_count: 40,
            bandwidth_cap: 1_000_000,
            uptime: 3600,
            peer_count: 12,
            protocol_version: 19,
            genesis_block: Hash256::from_u64(2),
            major_version: 27,
            minor_version: 1,
            patch_version: 0,
            pre_release_version: 0,
            maker: 0,
            timestamp: 1_700_000,
            active_difficulty: 0x8000_0000_0000_0000,
        },
    );
    let out = serialize_and_deserialize(&original);
    assert_eq!(original, out);
}

#[test]
fn confirm_req_rejects_an_all_zero_pair() {
    // header: confirm-req, block type bits = not-a-block, count = 1
    let mut stream = MemoryStream::new();
    stream.write_u16_be(0x5241);
    stream.write_u8(19);
    stream.write_u8(19);
    stream.write_u8(18);
    stream.write_u8(4);
    stream.write_u16_le(0x1100);
    for _ in 0..64 {
        stream.write_u8(0);
    }
    assert!(MessageEnum::deserialize(&mut stream).is_none());
}

#[test]
fn generated_work_is_maximal() {
    let root = Hash256::from_u64(12);
    let nonce = generate_work(&root, 0);
    assert_eq!(work_value(&root, nonce), u64::MAX);
}
