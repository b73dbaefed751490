use cuber::Client;
use cuber::Decodable;
use cuber::DecodeError;
use cuber::Encodable;
use cuber::ReceivedPacket;
use cuber::SendError;
use cuber::client::ClientState;
use cuber::client_bound::ClientBoundPacket;
use cuber::client_bound::LoginSuccess;
use cuber::client_bound::SetHeldItem;
use cuber::common::Difficulty;
use cuber::common::Feature;
use cuber::common::GameMode;
use cuber::common::PlayerAbilitiesFlags;
use cuber::common::State;
use cuber::common::SynchronizePlayerPositionFlags;
use cuber::frame_plain_no_compression;
use cuber::packet::EntityId;
use cuber::packet::FeatureFlags;
use cuber::packet::PacketBuilder;
use cuber::packet::PacketParser;
use cuber::primitive::array::Array;
use cuber::primitive::BoolConditional;
use cuber::primitive::Identifier;
use cuber::primitive::NbtBlob;
use cuber::primitive::Uuid;
use cuber::primitive::VarInt;
use cuber::server_bound::Handshaking;
use cuber::server_bound::HandshakeNextState;
use cuber::server_bound::Login;
use cuber::server_bound::PacketCluster;
use cuber::common::SkyLightArray;
use cuber::common::InChunkOffset;

fn handshake_body() -> Vec<u8> {
    let mut body: Vec<u8> = Vec::new();
    VarInt(0).encode(&mut body);
    VarInt(763).encode(&mut body);
    String::from("localhost").encode(&mut body);
    25565_u16.encode(&mut body);
    VarInt(2).encode(&mut body);
    body
}

#[test]
fn handshake_happy_path() {
    let frame = ReceivedPacket::new(handshake_body());
    let packet = frame.as_handshaking().unwrap().unwrap_handshake();
    assert_eq!(packet.protocol_version, VarInt(763));
    assert_eq!(packet.server_address, String::from("localhost"));
    assert_eq!(packet.server_port, 25565);
    assert_eq!(packet.next_state, HandshakeNextState::Login);
}

#[test]
fn handshake_with_trailing_byte_fails() {
    let mut body = handshake_body();
    body.push(0);
    let frame = ReceivedPacket::new(body);
    let (err, _rest) = frame.as_handshaking().unwrap_err();
    assert_eq!(err, DecodeError::TrailingBytes);
}

#[test]
fn unknown_packet_id_names_id_and_phase() {
    let frame = ReceivedPacket::new(vec![0x63]);
    let (err, _rest) = frame.as_login().unwrap_err();
    assert_eq!(err, DecodeError::UnknownPacketId(0x63, State::Login));
}

#[test]
fn login_start_round_trip() {
    let uuid = Uuid { value: 0x00112233445566778899aabbccddeeff };
    let mut body: Vec<u8> = Vec::new();
    VarInt(0).encode(&mut body);
    String::from("Alice").encode(&mut body);
    BoolConditional(Some(uuid)).encode(&mut body);

    let frame = ReceivedPacket::new(body);
    let ls = frame.as_login().unwrap().assume_login_start().unwrap();
    assert_eq!(ls.name, String::from("Alice"));
    assert_eq!(ls.uuid, BoolConditional(Some(uuid)));

    let mut client = Client::new();
    client.set_state(State::Login);
    let success = LoginSuccess {
        uuid,
        user_name: ls.name,
        property: Array::from_vec(vec![]),
    };
    let built = client.send_packet(&success).unwrap();
    let mut expected: Vec<u8> = vec![0x02];
    expected.extend_from_slice(&[
        0x00, 0x11, 0x22, 0x33, 0x44, 0x55, 0x66, 0x77, 0x88, 0x99, 0xaa, 0xbb, 0xcc, 0xdd, 0xee,
        0xff,
    ]);
    expected.extend_from_slice(&[5, b'A', b'l', b'i', b'c', b'e']);
    expected.push(0);
    assert_eq!(built.bytes(), &expected);
}

#[test]
fn send_typed_succeeds_exactly_in_legal_phase() {
    let mut client = Client::new();
    let packet = SetHeldItem { slot: 0 };
    assert_eq!(
        client.send_packet(&packet).unwrap_err(),
        SendError::PhaseMismatch(State::Handshaking, State::Play)
    );
    client.set_state(State::Login);
    assert!(client.send_packet(&packet).is_err());
    client.set_state(State::Play);
    let built = client.send_packet(&packet).unwrap();
    assert_eq!(built.bytes(), &vec![0x4d, 0x00]);
}

#[test]
fn framing_prefixes_body_length() {
    let client = Client::new();
    let packet = SetHeldItem { slot: 9 };
    let built = packet.to_packet();
    let framed = client.send_built_packet(&built);
    assert_eq!(framed, vec![2, 0x4d, 9]);
    let framed_again = frame_plain_no_compression(&built);
    assert_eq!(framed_again, vec![2, 0x4d, 9]);
}

#[test]
fn client_starts_in_handshaking_with_transforms_disabled() {
    let client = Client::new();
    assert_eq!(client.state(), State::Handshaking);
    assert_eq!(client.compression(), cuber::common::Compression::Disabled);
    assert_eq!(client.encryption(), cuber::common::Encryption::Disabled);
}

#[test]
fn status_ping_parses() {
    let mut body: Vec<u8> = Vec::new();
    VarInt(1).encode(&mut body);
    0x1122334455667788_i64.encode(&mut body);
    let frame = ReceivedPacket::new(body);
    let ping = frame.as_status().unwrap().assume_ping_request().unwrap();
    assert_eq!(ping.payload, 0x1122334455667788);
}

#[test]
fn game_mode_and_difficulty_round_trip() {
    let mut buf: Vec<u8> = Vec::new();
    GameMode::Undefined.encode(&mut buf);
    GameMode::Creative.encode(&mut buf);
    Difficulty::Peaceful.encode(&mut buf);
    Difficulty::Other(9).encode(&mut buf);
    assert_eq!(buf, vec![0xff, 1, 0, 9]);

    let mut frame = ReceivedPacket::new(buf);
    assert_eq!(GameMode::decode(&mut frame).unwrap(), GameMode::Undefined);
    assert_eq!(GameMode::decode(&mut frame).unwrap(), GameMode::Creative);
    assert_eq!(Difficulty::decode(&mut frame).unwrap(), Difficulty::Peaceful);
    assert_eq!(Difficulty::decode(&mut frame).unwrap(), Difficulty::Other(9));

    let mut bad = ReceivedPacket::new(vec![7]);
    assert_eq!(GameMode::decode(&mut bad), Err(DecodeError::InvalidGameMode(7)));
}

#[test]
fn flag_sets_reject_unknown_bits() {
    assert!(PlayerAbilitiesFlags::from_bits(0x0f).is_some());
    assert!(PlayerAbilitiesFlags::from_bits(0x10).is_none());
    assert!(SynchronizePlayerPositionFlags::from_bits(0x1f).is_some());
    assert!(SynchronizePlayerPositionFlags::from_bits(0x20).is_none());

    let mut frame = ReceivedPacket::new(vec![0x80]);
    assert_eq!(
        PlayerAbilitiesFlags::decode(&mut frame),
        Err(DecodeError::InvalidFlags(0x80))
    );
}

#[test]
fn feature_encodes_as_identifier_string() {
    let mut buf: Vec<u8> = Vec::new();
    Feature::Vanilla.encode(&mut buf);
    let mut expected: Vec<u8> = vec![17];
    expected.extend_from_slice(b"minecraft:vanilla");
    assert_eq!(buf, expected);

    let mut buf2: Vec<u8> = Vec::new();
    Feature::Other(Identifier::new(String::from("a:b"))).encode(&mut buf2);
    assert_eq!(buf2, vec![3, b'a', b':', b'b']);
}

#[test]
fn packet_parser_handles_handshake() {
    let mut parser = PacketParser::from_state_vec(ClientState::Handshaking, handshake_body());
    let (version, host, port) = parser.handle_handshake().unwrap();
    assert_eq!(version, 763);
    assert_eq!(host, String::from("localhost"));
    assert_eq!(port, 25565);
}

#[test]
fn packet_parser_handles_login_start() {
    let uuid = Uuid { value: 42 };
    let mut body: Vec<u8> = Vec::new();
    VarInt(0).encode(&mut body);
    String::from("Alice").encode(&mut body);
    BoolConditional(Some(uuid)).encode(&mut body);
    let mut parser = PacketParser::from_state_vec(ClientState::Login, body);
    let (name, got) = parser.handle_login_start().unwrap();
    assert_eq!(name, String::from("Alice"));
    assert_eq!(got, Some(uuid));
}

#[test]
fn packet_builder_login_success_bytes() {
    let mut builder = PacketBuilder::new();
    builder.write_login_success(Uuid { value: 1 }, String::from("Bob"), ());
    let bytes = builder.to_packet_bytes();
    let mut expected: Vec<u8> = Vec::new();
    // length 22: id byte + 16 uuid bytes + "Bob" string + empty property list
    expected.push(22);
    expected.push(0x02);
    expected.extend_from_slice(&[0; 15]);
    expected.push(1);
    expected.extend_from_slice(&[3, b'B', b'o', b'b']);
    expected.push(0);
    assert_eq!(bytes, expected);
}

#[test]
fn packet_builder_synchronize_player_position_bytes() {
    let mut builder = PacketBuilder::new();
    builder.write_synchronize_player_position();
    let bytes = builder.to_packet_bytes();
    let mut expected: Vec<u8> = Vec::new();
    expected.push(35);
    expected.push(0x3c);
    expected.extend_from_slice(&[0; 32]);
    expected.push(7);
    expected.push(0x55);
    assert_eq!(bytes, expected);
}

#[test]
fn packet_builder_feature_flags_bytes() {
    let mut builder = PacketBuilder::new();
    builder.write_feature_flags(&vec![FeatureFlags::Vanilla]);
    let bytes = builder.to_packet_bytes();
    let mut expected: Vec<u8> = vec![20, 0x6b, 1, 17];
    expected.extend_from_slice(b"minecraft:vanilla");
    assert_eq!(bytes, expected);
}

#[test]
fn packet_builder_chunk_data_uses_nbt_heightmap() {
    let mut builder = PacketBuilder::new();
    builder.write_chunk_data_update_light().unwrap();
    let bytes = builder.to_packet_bytes();
    let total = bytes.len();
    let mut frame = ReceivedPacket::new(bytes.clone());
    let (prefix_len, body_len) = cuber::primitive::leb128::read_var_int(&mut frame).unwrap();
    assert_eq!(prefix_len + body_len as usize, total);
    // the id byte, then chunk coordinates 0,0, then the compound tag
    assert_eq!(bytes[prefix_len], 0x24);
    assert_eq!(&bytes[prefix_len + 1..prefix_len + 9], &[0, 0, 0, 0, 0, 0, 0, 0]);
    assert_eq!(bytes[prefix_len + 9], 0x0a);
    // and the packet ends with the two empty light arrays
    assert_eq!(&bytes[total - 2..], &[0, 0]);
}

#[test]
fn packet_builder_login_play_embeds_codec() {
    let mut builder = PacketBuilder::new();
    let codec = NbtBlob::new(vec![0x0a, 0x00, 0x00, 0x00]);
    builder.write_login_play(EntityId { id: 0x11223344 }, &codec);
    let bytes = builder.to_packet_bytes();
    assert_eq!(bytes[1], 0x28);
    assert_eq!(&bytes[2..6], &[0x11, 0x22, 0x33, 0x44]);
}

#[test]
fn cluster_parse_reads_id_then_body() {
    let mut frame = ReceivedPacket::new(handshake_body());
    let parsed = Handshaking::parse(&mut frame).unwrap();
    assert_eq!(frame.remaining(), 0);
    let packet = parsed.unwrap_handshake();
    assert_eq!(packet.server_port, 25565);
}

#[test]
fn login_cluster_rejects_unknown_id() {
    let mut frame = ReceivedPacket::new(vec![0x05, 0x01]);
    assert_eq!(
        Login::parse(&mut frame).unwrap_err(),
        DecodeError::UnknownPacketId(5, State::Login)
    );
}

#[test]
fn sky_light_array_nibbles() {
    let mut bytes: Vec<u8> = Vec::new();
    // byte size prefix, then 2048 light bytes
    VarInt(2048).encode(&mut bytes);
    for i in 0..2048 {
        bytes.push((i % 256) as u8);
    }
    let mut frame = ReceivedPacket::new(bytes);
    let array = SkyLightArray::decode(&mut frame).unwrap();
    let (index, upper) = SkyLightArray::to_index(1, 0, 0);
    assert_eq!((index, upper), (0, true));
    assert_eq!(array.get(0, 0, 0), 0);
    assert_eq!(array.get(1, 0, 0), 0);
    assert_eq!(array.get(2, 0, 0), 1);
}

#[test]
fn in_chunk_offset_packs_nibbles() {
    let a = InChunkOffset::new(1, 2);
    assert_eq!(a.pack(), 0x12);
    let b = InChunkOffset::new(17, 18);
    assert_eq!(a, b);
}

#[test]
fn set_compression_flips_the_transform_seam() {
    let mut client = Client::new();
    assert_eq!(client.compression(), cuber::common::Compression::Disabled);
    client.set_compression(256);
    assert_eq!(client.compression(), cuber::common::Compression::Enabled);
}

#[test]
fn builder_bit_set_writes_count_and_words() {
    let mut builder = PacketBuilder::new();
    builder.set_packet_id(cuber::packet::packet_id::PacketId::Respawn);
    builder.write_bit_set(&vec![1, 2]);
    let bytes = builder.to_packet_bytes();
    assert_eq!(
        bytes,
        vec![18, 0x41, 2, 0, 0, 0, 0, 0, 0, 0, 1, 0, 0, 0, 0, 0, 0, 0, 2]
    );
}
