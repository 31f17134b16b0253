use bytes::Bytes;
use game_netcode::components::NetworkObjectType;
use game_netcode::message::{decode_message, deserialize, encode_message, serialize, DecodeError, Message};
use game_netcode::player::PlayerId;
use game_netcode::position::{default_spawn_point, initial_position, Position, ONE_BITS};

fn sample_position() -> Position {
    Position { x: 10.0f32.to_bits(), y: (-2.5f32).to_bits(), z: 0x0102_0304 }
}

fn every_variant() -> Vec<Message> {
    vec![
        Message::Spawn(PlayerId(7), sample_position(), NetworkObjectType::Player, 200),
        Message::Despawn(PlayerId(0), 255),
        Message::PlayerPosition(PlayerId(255), sample_position(), 0),
        Message::NetworkInput { w: true, s: false, a: true, d: false },
        Message::NetworkInput { w: false, s: true, a: false, d: true },
        Message::ServerAcknowledgement(PlayerId(42)),
        Message::ClientAcknowledgement(PlayerId(42)),
    ]
}

#[test]
fn round_trip_of_every_variant() {
    for message in every_variant() {
        assert_eq!(deserialize(serialize(message)), Ok(message));
    }
}

#[test]
fn round_trip_of_extreme_field_values() {
    let extreme = Position { x: u32::MAX, y: 0, z: f32::NAN.to_bits() };
    for id in [0u8, 1, 127, 128, 255] {
        let spawn = Message::Spawn(PlayerId(id), extreme, NetworkObjectType::Player, id);
        assert_eq!(deserialize(serialize(spawn)), Ok(spawn));
        let moved = Message::PlayerPosition(PlayerId(id), extreme, 255 - id);
        assert_eq!(deserialize(serialize(moved)), Ok(moved));
    }
}

#[test]
fn serialized_message_is_never_empty() {
    for message in every_variant() {
        assert!(serialize(message).len() > 0);
    }
}

#[test]
fn spawn_wire_form() {
    let message = Message::Spawn(PlayerId(7), sample_position(), NetworkObjectType::Player, 200);
    let expected: Vec<u8> = vec![
        0, 7, 0x41, 0x20, 0x00, 0x00, 0xC0, 0x20, 0x00, 0x00, 0x01, 0x02, 0x03, 0x04, 0, 200,
    ];
    assert_eq!(serialize(message).to_vec(), expected);
    assert_eq!(encode_message(message), expected);
}

#[test]
fn despawn_wire_form() {
    assert_eq!(serialize(Message::Despawn(PlayerId(3), 9)).to_vec(), vec![1u8, 3, 9]);
}

#[test]
fn player_position_wire_form() {
    let message = Message::PlayerPosition(PlayerId(5), default_spawn_point(), 6);
    let expected: Vec<u8> = vec![2, 5, 0, 0, 0, 0, 0x3F, 0x80, 0, 0, 0, 0, 0, 0, 6];
    assert_eq!(serialize(message).to_vec(), expected);
}

#[test]
fn network_input_wire_form() {
    let message = Message::NetworkInput { w: true, s: false, a: false, d: true };
    assert_eq!(serialize(message).to_vec(), vec![3u8, 1, 0, 0, 1]);
}

#[test]
fn acknowledgement_wire_forms() {
    assert_eq!(serialize(Message::ServerAcknowledgement(PlayerId(17))).to_vec(), vec![4u8, 17]);
    assert_eq!(serialize(Message::ClientAcknowledgement(PlayerId(17))).to_vec(), vec![5u8, 17]);
}

#[test]
fn named_positions() {
    assert_eq!(ONE_BITS, 1.0f32.to_bits());
    assert_eq!(
        default_spawn_point(),
        Position { x: 0.0f32.to_bits(), y: 1.0f32.to_bits(), z: 0.0f32.to_bits() }
    );
    assert_eq!(
        initial_position(),
        Position { x: 1.0f32.to_bits(), y: 1.0f32.to_bits(), z: 1.0f32.to_bits() }
    );
}

#[test]
fn empty_payload_does_not_decode() {
    assert_eq!(decode_message(&[]), Err(DecodeError::Truncated));
    assert_eq!(decode_message(Bytes::new().as_ref()), Err(DecodeError::Truncated));
}

#[test]
fn unknown_tag_is_reported() {
    assert_eq!(decode_message(&[6, 1]), Err(DecodeError::UnknownTag(6)));
    assert_eq!(decode_message(&[255]), Err(DecodeError::UnknownTag(255)));
}

#[test]
fn short_payload_is_truncated() {
    assert_eq!(decode_message(&[1, 3]), Err(DecodeError::Truncated));
    assert_eq!(decode_message(&[4]), Err(DecodeError::Truncated));
    let spawn = encode_message(Message::Spawn(
        PlayerId(7),
        sample_position(),
        NetworkObjectType::Player,
        1,
    ));
    assert_eq!(decode_message(&spawn[..15]), Err(DecodeError::Truncated));
}

#[test]
fn long_payload_has_trailing_bytes() {
    assert_eq!(decode_message(&[1, 3, 9, 0]), Err(DecodeError::TrailingBytes));
    assert_eq!(decode_message(&[5, 3, 9]), Err(DecodeError::TrailingBytes));
}

#[test]
fn unknown_object_type_is_reported() {
    let mut spawn = encode_message(Message::Spawn(
        PlayerId(7),
        sample_position(),
        NetworkObjectType::Player,
        1,
    ));
    spawn[14] = 3;
    assert_eq!(decode_message(&spawn), Err(DecodeError::UnknownObjectType(3)));
}

#[test]
fn invalid_flag_is_reported() {
    assert_eq!(decode_message(&[3, 1, 2, 0, 1]), Err(DecodeError::InvalidFlag(2)));
    assert_eq!(decode_message(&[3, 1, 0, 0, 9]), Err(DecodeError::InvalidFlag(9)));
    assert_eq!(decode_message(&[3, 7, 8, 0, 9]), Err(DecodeError::InvalidFlag(7)));
}

#[test]
fn deserialize_reads_the_bytes_it_is_given() {
    let bytes = Bytes::from(vec![1u8, 3, 9]);
    assert_eq!(deserialize(bytes), Ok(Message::Despawn(PlayerId(3), 9)));
}
