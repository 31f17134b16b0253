//! The protocol messages and their wire encoding.
//!
//! A datagram carries exactly one message: one byte that names the variant, then the
//! fields of the variant in the order of their declaration.  A player identity, an object
//! identifier, an object type and a flag take one byte each; a coordinate takes four bytes,
//! the highest first.  The empty payload is no message: it is the heartbeat.
use vstd::prelude::*;
use bytes::Bytes;
use crate::components::NetworkObjectType;
use crate::trusted::bytes_view;
use crate::player::PlayerId;
use crate::position::Position;

verus! {

/// What the peers say to each other.
#[derive(PartialEq, Eq, Debug, Copy, Clone, Structural)]
pub enum Message {
    /// An object of the given owner, type and identifier has appeared at a position.
    Spawn(PlayerId, Position, NetworkObjectType, u8),
    /// The object with the given identifier is gone.
    Despawn(PlayerId, u8),
    /// The object with the given identifier is now at a position.
    PlayerPosition(PlayerId, Position, u8),
    /// The movement keys that a player holds down.
    NetworkInput { w: bool, s: bool, a: bool, d: bool },
    /// The server tells a new client its identity.
    ServerAcknowledgement(PlayerId),
    /// The client confirms the identity that it was given.
    ClientAcknowledgement(PlayerId),
}

/// Why a payload is not the encoding of a message.
#[derive(PartialEq, Eq, Debug, Copy, Clone, Structural)]
pub enum DecodeError {
    /// The payload ends before the message does; the empty payload is of this kind.
    Truncated,
    /// Bytes follow the end of the message.
    TrailingBytes,
    /// The first byte names no variant.
    UnknownTag(u8),
    /// The byte that stands for an object type names none.
    UnknownObjectType(u8),
    /// A byte that stands for a flag is neither 0 nor 1.
    InvalidFlag(u8),
}

/// The first byte of a `Spawn`.
pub const TAG_SPAWN: u8 = 0;

/// The first byte of a `Despawn`.
pub const TAG_DESPAWN: u8 = 1;

/// The first byte of a `PlayerPosition`.
pub const TAG_PLAYER_POSITION: u8 = 2;

/// The first byte of a `NetworkInput`.
pub const TAG_NETWORK_INPUT: u8 = 3;

/// The first byte of a `ServerAcknowledgement`.
pub const TAG_SERVER_ACKNOWLEDGEMENT: u8 = 4;

/// The first byte of a `ClientAcknowledgement`; no variant has a higher one.
pub const TAG_CLIENT_ACKNOWLEDGEMENT: u8 = 5;

/// The byte that stands for `NetworkObjectType::Player`.
pub const TYPE_PLAYER: u8 = 0;

/// The four bytes of a 32-bit value, the highest first.
pub open spec fn u32_bytes(v: u32) -> Seq<u8> {
    seq![
        (v / 0x100_0000) as u8,
        ((v / 0x1_0000) % 0x100) as u8,
        ((v / 0x100) % 0x100) as u8,
        (v % 0x100) as u8,
    ]
}

/// The value whose four bytes, the highest first, start at `at`.
pub open spec fn u32_at(b: Seq<u8>, at: int) -> u32
    recommends
        0 <= at,
        at + 4 <= b.len(),
{
    (b[at] * 0x100_0000 + b[at + 1] * 0x1_0000 + b[at + 2] * 0x100 + b[at + 3]) as u32
}

/// The twelve bytes of a position: `x`, then `y`, then `z`.
pub open spec fn position_bytes(p: Position) -> Seq<u8> {
    u32_bytes(p.x) + u32_bytes(p.y) + u32_bytes(p.z)
}

/// The position whose twelve bytes start at `at`.
pub open spec fn position_at(b: Seq<u8>, at: int) -> Position
    recommends
        0 <= at,
        at + 12 <= b.len(),
{
    Position { x: u32_at(b, at), y: u32_at(b, at + 4), z: u32_at(b, at + 8) }
}

/// The byte of an object type.
pub open spec fn type_byte(t: NetworkObjectType) -> u8 {
    match t {
        NetworkObjectType::Player => TYPE_PLAYER,
    }
}

/// The byte of a flag.
pub open spec fn flag_byte(f: bool) -> u8 {
    if f {
        1
    } else {
        0
    }
}

/// Whether a byte stands for a flag.
pub open spec fn is_flag(b: u8) -> bool {
    b == 0 || b == 1
}

/// The wire form of a message.
pub open spec fn encode(m: Message) -> Seq<u8> {
    match m {
        Message::Spawn(owner, position, object_type, object_id) => seq![TAG_SPAWN, owner.0]
            + position_bytes(position) + seq![type_byte(object_type), object_id],
        Message::Despawn(owner, object_id) => seq![TAG_DESPAWN, owner.0, object_id],
        Message::PlayerPosition(owner, position, object_id) => seq![
            TAG_PLAYER_POSITION,
            owner.0,
        ] + position_bytes(position) + seq![object_id],
        Message::NetworkInput { w, s, a, d } => seq![
            TAG_NETWORK_INPUT,
            flag_byte(w),
            flag_byte(s),
            flag_byte(a),
            flag_byte(d),
        ],
        Message::ServerAcknowledgement(id) => seq![TAG_SERVER_ACKNOWLEDGEMENT, id.0],
        Message::ClientAcknowledgement(id) => seq![TAG_CLIENT_ACKNOWLEDGEMENT, id.0],
    }
}

/// How many bytes the message with a given first byte takes, that byte included.
pub open spec fn encoded_len(tag: u8) -> nat {
    if tag == TAG_SPAWN {
        16
    } else if tag == TAG_DESPAWN {
        3
    } else if tag == TAG_PLAYER_POSITION {
        15
    } else if tag == TAG_NETWORK_INPUT {
        5
    } else {
        2
    }
}

/// The first byte among the four flags of a keyboard message that is no flag, if any.
pub open spec fn first_bad_flag(b: Seq<u8>) -> Option<u8>
    recommends
        b.len() == 5,
{
    if !is_flag(b[1]) {
        Some(b[1])
    } else if !is_flag(b[2]) {
        Some(b[2])
    } else if !is_flag(b[3]) {
        Some(b[3])
    } else if !is_flag(b[4]) {
        Some(b[4])
    } else {
        None
    }
}

/// What a payload means: the message that it encodes, or the first fault found in it.
///
/// The faults are looked for in this order: no first byte, an unknown first byte, a wrong
/// length, and then the fields from left to right.
pub open spec fn decode(b: Seq<u8>) -> Result<Message, DecodeError> {
    if b.len() == 0 {
        Err(DecodeError::Truncated)
    } else if b[0] > TAG_CLIENT_ACKNOWLEDGEMENT {
        Err(DecodeError::UnknownTag(b[0]))
    } else if b.len() < encoded_len(b[0]) {
        Err(DecodeError::Truncated)
    } else if b.len() > encoded_len(b[0]) {
        Err(DecodeError::TrailingBytes)
    } else if b[0] == TAG_SPAWN {
        if b[14] != TYPE_PLAYER {
            Err(DecodeError::UnknownObjectType(b[14]))
        } else {
            Ok(Message::Spawn(PlayerId(b[1]), position_at(b, 2), NetworkObjectType::Player, b[15]))
        }
    } else if b[0] == TAG_DESPAWN {
        Ok(Message::Despawn(PlayerId(b[1]), b[2]))
    } else if b[0] == TAG_PLAYER_POSITION {
        Ok(Message::PlayerPosition(PlayerId(b[1]), position_at(b, 2), b[14]))
    } else if b[0] == TAG_NETWORK_INPUT {
        match first_bad_flag(b) {
            Some(bad) => Err(DecodeError::InvalidFlag(bad)),
            None => Ok(
                Message::NetworkInput { w: b[1] == 1, s: b[2] == 1, a: b[3] == 1, d: b[4] == 1 },
            ),
        }
    } else if b[0] == TAG_SERVER_ACKNOWLEDGEMENT {
        Ok(Message::ServerAcknowledgement(PlayerId(b[1])))
    } else {
        Ok(Message::ClientAcknowledgement(PlayerId(b[1])))
    }
}

/// Reading back the four bytes of a value gives the value.
pub proof fn lemma_u32_round_trip(v: u32, prefix: Seq<u8>, suffix: Seq<u8>)
    ensures
        u32_bytes(v).len() == 4,
        u32_at(prefix + u32_bytes(v) + suffix, prefix.len() as int) == v,
{
    let b = prefix + u32_bytes(v) + suffix;
    let at = prefix.len() as int;
    assert(b[at] == (v / 0x100_0000) as u8);
    assert(b[at + 1] == ((v / 0x1_0000) % 0x100) as u8);
    assert(b[at + 2] == ((v / 0x100) % 0x100) as u8);
    assert(b[at + 3] == (v % 0x100) as u8);
}

/// Writing out the value read at `at` gives the four bytes found there.
pub proof fn lemma_u32_bytes_of_read(b: Seq<u8>, at: int)
    requires
        0 <= at,
        at + 4 <= b.len(),
    ensures
        u32_bytes(u32_at(b, at)) == b.subrange(at, at + 4),
{
    assert(u32_bytes(u32_at(b, at)) =~= b.subrange(at, at + 4));
}

/// Round trip: every message is what its wire form decodes to.
pub proof fn lemma_decode_encode(m: Message)
    ensures
        decode(encode(m)) == Ok::<Message, DecodeError>(m),
        encode(m).len() > 0,
{
    let b = encode(m);
    match m {
        Message::Spawn(owner, position, object_type, object_id) => {
            let head = seq![TAG_SPAWN, owner.0];
            let tail = seq![type_byte(object_type), object_id];
            lemma_u32_round_trip(position.x, head, u32_bytes(position.y) + u32_bytes(position.z) + tail);
            lemma_u32_round_trip(position.y, head + u32_bytes(position.x), u32_bytes(position.z) + tail);
            lemma_u32_round_trip(position.z, head + u32_bytes(position.x) + u32_bytes(position.y), tail);
            assert(b =~= head + u32_bytes(position.x) + (u32_bytes(position.y) + u32_bytes(
                position.z,
            ) + tail));
            assert(b =~= head + u32_bytes(position.x) + u32_bytes(position.y) + (u32_bytes(
                position.z,
            ) + tail));
            assert(b =~= head + u32_bytes(position.x) + u32_bytes(position.y) + u32_bytes(
                position.z,
            ) + tail);
            assert(b.len() == 16);
            assert(b[0] == TAG_SPAWN && b[1] == owner.0);
            assert(b[14] == TYPE_PLAYER && b[15] == object_id);
        },
        Message::PlayerPosition(owner, position, object_id) => {
            let head = seq![TAG_PLAYER_POSITION, owner.0];
            let tail = seq![object_id];
            lemma_u32_round_trip(position.x, head, u32_bytes(position.y) + u32_bytes(position.z) + tail);
            lemma_u32_round_trip(position.y, head + u32_bytes(position.x), u32_bytes(position.z) + tail);
            lemma_u32_round_trip(position.z, head + u32_bytes(position.x) + u32_bytes(position.y), tail);
            assert(b =~= head + u32_bytes(position.x) + (u32_bytes(position.y) + u32_bytes(
                position.z,
            ) + tail));
            assert(b =~= head + u32_bytes(position.x) + u32_bytes(position.y) + (u32_bytes(
                position.z,
            ) + tail));
            assert(b =~= head + u32_bytes(position.x) + u32_bytes(position.y) + u32_bytes(
                position.z,
            ) + tail);
            assert(b.len() == 15);
            assert(b[0] == TAG_PLAYER_POSITION && b[1] == owner.0);
            assert(b[14] == object_id);
        },
        Message::Despawn(owner, object_id) => {},
        Message::NetworkInput { w, s, a, d } => {},
        Message::ServerAcknowledgement(id) => {},
        Message::ClientAcknowledgement(id) => {},
    }
}

/// The encoding is canonical: a payload that decodes to a message is the wire form of
/// that message, byte for byte.
pub proof fn lemma_encode_decode(b: Seq<u8>, m: Message)
    requires
        decode(b) == Ok::<Message, DecodeError>(m),
    ensures
        encode(m) == b,
{
    if b[0] == TAG_SPAWN || b[0] == TAG_PLAYER_POSITION {
        lemma_u32_bytes_of_read(b, 2);
        lemma_u32_bytes_of_read(b, 6);
        lemma_u32_bytes_of_read(b, 10);
    }
    assert(encode(m) =~= b);
}

/// Appends the four bytes of a value, the highest first.
fn put_u32(out: &mut Vec<u8>, v: u32)
    ensures
        final(out)@ == old(out)@ + u32_bytes(v),
{
    out.push((v / 0x100_0000) as u8);
    out.push(((v / 0x1_0000) % 0x100) as u8);
    out.push(((v / 0x100) % 0x100) as u8);
    out.push((v % 0x100) as u8);
    assert(out@ =~= old(out)@ + u32_bytes(v));
}

/// Appends the twelve bytes of a position.
fn put_position(out: &mut Vec<u8>, p: Position)
    ensures
        final(out)@ == old(out)@ + position_bytes(p),
{
    put_u32(out, p.x);
    put_u32(out, p.y);
    put_u32(out, p.z);
    assert(out@ =~= old(out)@ + position_bytes(p));
}

/// Reads the value whose four bytes start at `at`.
fn read_u32(data: &[u8], at: usize) -> (v: u32)
    requires
        at + 4 <= data.len(),
    ensures
        v == u32_at(data@, at as int),
{
    let b0: u32 = data[at] as u32;
    let b1: u32 = data[at + 1] as u32;
    let b2: u32 = data[at + 2] as u32;
    let b3: u32 = data[at + 3] as u32;
    b0 * 0x100_0000 + b1 * 0x1_0000 + b2 * 0x100 + b3
}

/// Reads the position whose twelve bytes start at `at`.
fn read_position(data: &[u8], at: usize) -> (p: Position)
    requires
        at + 12 <= data.len(),
    ensures
        p == position_at(data@, at as int),
{
    Position { x: read_u32(data, at), y: read_u32(data, at + 4), z: read_u32(data, at + 8) }
}

/// The byte of a flag.
fn flag_to_byte(f: bool) -> (b: u8)
    ensures
        b == flag_byte(f),
{
    if f {
        1
    } else {
        0
    }
}

/// The wire form of a message, as a vector.
pub fn encode_message(message: Message) -> (out: Vec<u8>)
    ensures
        out@ == encode(message),
{
    let mut out: Vec<u8> = Vec::new();
    match message {
        Message::Spawn(owner, position, object_type, object_id) => {
            out.push(TAG_SPAWN);
            out.push(owner.0);
            put_position(&mut out, position);
            match object_type {
                NetworkObjectType::Player => out.push(TYPE_PLAYER),
            }
            out.push(object_id);
        },
        Message::Despawn(owner, object_id) => {
            out.push(TAG_DESPAWN);
            out.push(owner.0);
            out.push(object_id);
        },
        Message::PlayerPosition(owner, position, object_id) => {
            out.push(TAG_PLAYER_POSITION);
            out.push(owner.0);
            put_position(&mut out, position);
            out.push(object_id);
        },
        Message::NetworkInput { w, s, a, d } => {
            out.push(TAG_NETWORK_INPUT);
            out.push(flag_to_byte(w));
            out.push(flag_to_byte(s));
            out.push(flag_to_byte(a));
            out.push(flag_to_byte(d));
        },
        Message::ServerAcknowledgement(id) => {
            out.push(TAG_SERVER_ACKNOWLEDGEMENT);
            out.push(id.0);
        },
        Message::ClientAcknowledgement(id) => {
            out.push(TAG_CLIENT_ACKNOWLEDGEMENT);
            out.push(id.0);
        },
    }
    assert(out@ =~= encode(message));
    out
}

/// What a payload means: the message that it encodes, or the first fault found in it.
pub fn decode_message(data: &[u8]) -> (r: Result<Message, DecodeError>)
    ensures
        r == decode(data@),
{
    let n = data.len();
    if n == 0 {
        return Err(DecodeError::Truncated);
    }
    let tag = data[0];
    if tag > TAG_CLIENT_ACKNOWLEDGEMENT {
        return Err(DecodeError::UnknownTag(tag));
    }
    let expected: usize = if tag == TAG_SPAWN {
        16
    } else if tag == TAG_DESPAWN {
        3
    } else if tag == TAG_PLAYER_POSITION {
        15
    } else if tag == TAG_NETWORK_INPUT {
        5
    } else {
        2
    };
    if n < expected {
        return Err(DecodeError::Truncated);
    }
    if n > expected {
        return Err(DecodeError::TrailingBytes);
    }
    if tag == TAG_SPAWN {
        if data[14] != TYPE_PLAYER {
            return Err(DecodeError::UnknownObjectType(data[14]));
        }
        Ok(
            Message::Spawn(
                PlayerId(data[1]),
                read_position(data, 2),
                NetworkObjectType::Player,
                data[15],
            ),
        )
    } else if tag == TAG_DESPAWN {
        Ok(Message::Despawn(PlayerId(data[1]), data[2]))
    } else if tag == TAG_PLAYER_POSITION {
        Ok(Message::PlayerPosition(PlayerId(data[1]), read_position(data, 2), data[14]))
    } else if tag == TAG_NETWORK_INPUT {
        if data[1] > 1 {
            return Err(DecodeError::InvalidFlag(data[1]));
        }
        if data[2] > 1 {
            return Err(DecodeError::InvalidFlag(data[2]));
        }
        if data[3] > 1 {
            return Err(DecodeError::InvalidFlag(data[3]));
        }
        if data[4] > 1 {
            return Err(DecodeError::InvalidFlag(data[4]));
        }
        Ok(
            Message::NetworkInput {
                w: data[1] == 1,
                s: data[2] == 1,
                a: data[3] == 1,
                d: data[4] == 1,
            },
        )
    } else if tag == TAG_SERVER_ACKNOWLEDGEMENT {
        Ok(Message::ServerAcknowledgement(PlayerId(data[1])))
    } else {
        Ok(Message::ClientAcknowledgement(PlayerId(data[1])))
    }
}

/// Puts a message into its wire form.
///
/// The payload is never empty, and decoding it gives the message back.
pub fn serialize(message: Message) -> (out: Bytes)
    ensures
        bytes_view(out) == encode(message),
        bytes_view(out).len() > 0,
        decode(bytes_view(out)) == Ok::<Message, DecodeError>(message),
{
    proof {
        lemma_decode_encode(message);
    }
    Bytes::from(encode_message(message))
}

/// Reads a message from the payload of a datagram.
///
/// The empty payload is the heartbeat and no business of the decoder: whoever reads
/// datagrams sets it aside before decoding, and the precondition holds them to it.  The
/// result is `Ok` exactly for the payloads that `serialize` produces, and then it is the
/// message that was serialized; every other payload gives the first fault found in it.
pub fn deserialize(bytes: Bytes) -> (r: Result<Message, DecodeError>)
    requires
        bytes_view(bytes).len() > 0,
    ensures
        r == decode(bytes_view(bytes)),
        r matches Ok(m) ==> encode(m) == bytes_view(bytes),
{
    let r = decode_message(bytes.as_ref());
    proof {
        if let Ok(m) = r {
            lemma_encode_decode(bytes_view(bytes), m);
        }
    }
    r
}

} // verus!
