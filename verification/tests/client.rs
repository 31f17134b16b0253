use game_netcode::address::SocketAddress;
use game_netcode::client::{
    client_connection_handler, despawn, listen_events, listen_game_events, spawn_network_facade_object,
    spawn_network_object,
};
use game_netcode::components::{
    NetworkEntity, NetworkObject, NetworkObjectType, NetworkTransform,
};
use game_netcode::entities::{spawn_player, spawn_player_facade, NetworkTransformBundle};
use game_netcode::events::NetworkEvent;
use game_netcode::handshake::{client_handshake, listen_handshake_events, ConnectionStatus};
use game_netcode::message::{deserialize, Message};
use game_netcode::player::PlayerId;
use game_netcode::position::Position;
use game_netcode::raw_message::RawMessage;
use game_netcode::send_input::send_player_input;
use game_netcode::send_player_position::sync_network_transforms;
use game_netcode::socket::SocketError;
use game_netcode::transport::Transport;

fn server() -> SocketAddress {
    SocketAddress::V4 { ip: 0x7F00_0001, port: 8080 }
}

fn at(x: f32, y: f32, z: f32) -> Position {
    Position { x: x.to_bits(), y: y.to_bits(), z: z.to_bits() }
}

fn drain(transport: &mut Transport) -> Vec<(SocketAddress, Message)> {
    transport
        .drain_messages_to_send(|_| true)
        .into_iter()
        .map(|m| (m.destination, deserialize(m.payload).unwrap()))
        .collect()
}

fn owned(id: u8, owner: u8, pos: Position) -> NetworkEntity {
    NetworkEntity {
        object: NetworkObject {
            id,
            owner: PlayerId(owner),
            object_type: NetworkObjectType::Player,
            is_owned: true,
        },
        transform: None,
        spawned_at: pos,
    }
}

fn facade(id: u8, owner: u8, spawned_at: Position, last_pos: Position) -> NetworkEntity {
    NetworkEntity {
        object: NetworkObject {
            id,
            owner: PlayerId(owner),
            object_type: NetworkObjectType::Player,
            is_owned: false,
        },
        transform: Some(NetworkTransform { last_pos }),
        spawned_at,
    }
}

struct Client {
    transport: Transport,
    id: PlayerId,
    entities: Vec<NetworkEntity>,
    status: ConnectionStatus,
}

fn fresh_client() -> Client {
    Client {
        transport: Transport::new(),
        id: PlayerId(0),
        entities: Vec::new(),
        status: ConnectionStatus::Initial,
    }
}

fn listen(client: &mut Client, messages: &[Message]) {
    listen_events(
        messages,
        server(),
        &mut client.transport,
        &mut client.id,
        &mut client.entities,
        &mut client.status,
    );
}

#[test]
fn client_stays_initial_and_ignores_everything_but_the_acknowledgement() {
    let mut client = fresh_client();
    let p = at(1.0, 2.0, 3.0);
    listen(
        &mut client,
        &[
            Message::Spawn(PlayerId(0), p, NetworkObjectType::Player, 1),
            Message::Spawn(PlayerId(5), p, NetworkObjectType::Player, 2),
            Message::PlayerPosition(PlayerId(5), p, 2),
            Message::Despawn(PlayerId(5), 2),
            Message::NetworkInput { w: true, s: true, a: true, d: true },
            Message::ClientAcknowledgement(PlayerId(9)),
        ],
    );
    listen(&mut client, &[]);
    assert_eq!(client.status, ConnectionStatus::Initial);
    assert_eq!(client.id, PlayerId(0));
    assert_eq!(client.entities, vec![]);
    assert_eq!(client.transport.len(), 0);
}

#[test]
fn handshake_completes_once_with_one_confirmation() {
    let mut client = fresh_client();
    let p = at(1.0, 2.0, 3.0);
    listen(
        &mut client,
        &[
            Message::Spawn(PlayerId(5), p, NetworkObjectType::Player, 2),
            Message::ServerAcknowledgement(PlayerId(7)),
        ],
    );
    assert_eq!(client.status, ConnectionStatus::Complete);
    assert_eq!(client.id, PlayerId(7));
    assert_eq!(client.entities, vec![]);
    assert_eq!(
        drain(&mut client.transport),
        vec![(server(), Message::ClientAcknowledgement(PlayerId(7)))]
    );

    listen(
        &mut client,
        &[Message::ServerAcknowledgement(PlayerId(8)), Message::ServerAcknowledgement(PlayerId(7))],
    );
    assert_eq!(client.status, ConnectionStatus::Complete);
    assert_eq!(client.id, PlayerId(7));
    assert_eq!(client.transport.len(), 0);
}

#[test]
fn second_acknowledgement_in_the_same_batch_is_not_answered() {
    let mut client = fresh_client();
    listen(
        &mut client,
        &[
            Message::ServerAcknowledgement(PlayerId(7)),
            Message::ServerAcknowledgement(PlayerId(8)),
        ],
    );
    assert_eq!(client.id, PlayerId(7));
    assert_eq!(
        drain(&mut client.transport),
        vec![(server(), Message::ClientAcknowledgement(PlayerId(7)))]
    );
}

#[test]
fn messages_after_the_acknowledgement_belong_to_the_game() {
    let mut client = fresh_client();
    let p = at(0.0, 1.0, 0.0);
    let q = at(1.0, 1.0, 1.0);
    listen(
        &mut client,
        &[
            Message::Spawn(PlayerId(7), p, NetworkObjectType::Player, 1),
            Message::ServerAcknowledgement(PlayerId(7)),
            Message::Spawn(PlayerId(5), q, NetworkObjectType::Player, 2),
            Message::Spawn(PlayerId(7), p, NetworkObjectType::Player, 3),
        ],
    );
    assert_eq!(client.entities, vec![facade(2, 5, q, q), owned(3, 7, p)]);
    assert_eq!(client.transport.len(), 1);
}

#[test]
fn listen_handshake_events_reads_up_to_the_acknowledgement() {
    let mut transport = Transport::new();
    let mut id = PlayerId(0);
    let mut status = ConnectionStatus::Initial;
    let quiet = [Message::Despawn(PlayerId(1), 1), Message::Despawn(PlayerId(1), 2)];
    let read = listen_handshake_events(&quiet, server(), &mut transport, &mut id, &mut status);
    assert_eq!(read, 2);
    assert_eq!((id, status, transport.len()), (PlayerId(0), ConnectionStatus::Initial, 0));

    let batch = [
        Message::Despawn(PlayerId(1), 1),
        Message::ServerAcknowledgement(PlayerId(3)),
        Message::ServerAcknowledgement(PlayerId(4)),
    ];
    let read = listen_handshake_events(&batch, server(), &mut transport, &mut id, &mut status);
    assert_eq!(read, 2);
    assert_eq!((id, status), (PlayerId(3), ConnectionStatus::Complete));
    assert_eq!(drain(&mut transport), vec![(server(), Message::ClientAcknowledgement(PlayerId(3)))]);
}

#[test]
fn client_handshake_stores_the_identity_and_confirms() {
    let mut transport = Transport::new();
    let mut id = PlayerId(0);
    let mut status = ConnectionStatus::Initial;
    client_handshake(&PlayerId(200), server(), &mut transport, &mut id, &mut status);
    assert_eq!(id, PlayerId(200));
    assert_eq!(status, ConnectionStatus::Complete);
    assert_eq!(
        drain(&mut transport),
        vec![(server(), Message::ClientAcknowledgement(PlayerId(200)))]
    );
}

#[test]
fn spawn_of_the_local_player_is_owned_and_of_others_a_facade() {
    let p = at(0.0, 1.0, 0.0);
    let q = at(4.0, 5.0, 6.0);
    let mut entities = Vec::new();
    listen_game_events(
        &[
            Message::Spawn(PlayerId(7), p, NetworkObjectType::Player, 1),
            Message::Spawn(PlayerId(5), q, NetworkObjectType::Player, 2),
        ],
        &PlayerId(7),
        &mut entities,
    );
    assert_eq!(entities, vec![owned(1, 7, p), facade(2, 5, q, q)]);
}

#[test]
fn spawn_functions_build_the_replicas() {
    let p = at(0.0, 1.0, 0.0);
    let mut entities = Vec::new();
    spawn_player(PlayerId(1), 10, p, &mut entities);
    spawn_player_facade(PlayerId(2), 20, p, &mut entities);
    spawn_network_object(&NetworkObjectType::Player, 30, PlayerId(3), p, &mut entities);
    spawn_network_facade_object(&NetworkObjectType::Player, 40, PlayerId(4), p, &mut entities);
    assert_eq!(
        entities,
        vec![owned(10, 1, p), facade(20, 2, p, p), owned(30, 3, p), facade(40, 4, p, p)]
    );
    let bundle = NetworkTransformBundle::new(9, PlayerId(8), NetworkObjectType::Player, p, true);
    assert_eq!(bundle.transform, NetworkTransform { last_pos: p });
    assert_eq!(bundle.object, owned(9, 8, p).object);
}

#[test]
fn reported_position_is_stored_with_the_facades_of_the_player() {
    let p = at(0.0, 0.0, 0.0);
    let target = at(10.0, 0.0, 0.0);
    let mut entities = vec![owned(1, 7, p), facade(2, 5, p, p), facade(3, 6, p, p), facade(4, 5, p, p)];
    listen_game_events(&[Message::PlayerPosition(PlayerId(5), target, 2)], &PlayerId(7), &mut entities);
    assert_eq!(
        entities,
        vec![owned(1, 7, p), facade(2, 5, p, target), facade(3, 6, p, p), facade(4, 5, p, target)]
    );
    NetworkTransform::update_last_pos(&PlayerId(7), &target, &mut entities);
    assert_eq!(entities[0], owned(1, 7, p));
    NetworkTransform::update_last_pos(&PlayerId(6), &target, &mut entities);
    assert_eq!(entities[2], facade(3, 6, p, target));
}

#[test]
fn despawn_removes_every_replica_with_the_identifier() {
    let p = at(0.0, 0.0, 0.0);
    let mut entities = vec![owned(2, 7, p), facade(2, 5, p, p), facade(3, 6, p, p), facade(2, 6, p, p)];
    listen_game_events(&[Message::Despawn(PlayerId(9), 2)], &PlayerId(7), &mut entities);
    assert_eq!(entities, vec![facade(3, 6, p, p)]);
    despawn(4, &mut entities);
    assert_eq!(entities, vec![facade(3, 6, p, p)]);
    despawn(3, &mut entities);
    assert_eq!(entities, vec![]);
}

#[test]
fn other_messages_change_no_replica() {
    let p = at(0.0, 0.0, 0.0);
    let mut entities = vec![owned(1, 7, p), facade(2, 5, p, p)];
    listen_game_events(
        &[
            Message::NetworkInput { w: true, s: false, a: false, d: false },
            Message::ServerAcknowledgement(PlayerId(1)),
            Message::ClientAcknowledgement(PlayerId(2)),
        ],
        &PlayerId(7),
        &mut entities,
    );
    assert_eq!(entities, vec![owned(1, 7, p), facade(2, 5, p, p)]);
}

#[test]
fn connection_handler_passes_the_messages_on() {
    let first = Message::ServerAcknowledgement(PlayerId(1));
    let second = Message::Despawn(PlayerId(2), 3);
    let events = vec![
        NetworkEvent::Connected(server()),
        NetworkEvent::RawMessage(server(), first),
        NetworkEvent::RecvError(SocketError::ConnectionReset),
        NetworkEvent::SendError(SocketError::WouldBlock, RawMessage::new(server(), &[1])),
        NetworkEvent::RawMessage(server(), second),
        NetworkEvent::Disconnected(server()),
    ];
    assert_eq!(client_connection_handler(&events), vec![first, second]);
    assert_eq!(client_connection_handler(&Vec::new()), vec![]);
}

#[test]
fn player_input_is_queued_for_the_server() {
    let mut transport = Transport::new();
    send_player_input(server(), true, false, false, true, &mut transport);
    assert_eq!(
        drain(&mut transport),
        vec![(server(), Message::NetworkInput { w: true, s: false, a: false, d: true })]
    );
}

#[test]
fn positions_are_reported_under_the_local_identity() {
    let p = at(1.0, 2.0, 3.0);
    let q = at(4.0, 5.0, 6.0);
    let objects = vec![(owned(1, 7, p).object, p), (facade(2, 5, q, q).object, q)];
    let mut transport = Transport::new();
    sync_network_transforms(server(), &mut transport, &objects, &PlayerId(7));
    assert_eq!(
        drain(&mut transport),
        vec![
            (server(), Message::PlayerPosition(PlayerId(7), p, 1)),
            (server(), Message::PlayerPosition(PlayerId(7), q, 2)),
        ]
    );
    sync_network_transforms(server(), &mut transport, &Vec::new(), &PlayerId(7));
    assert_eq!(transport.len(), 0);
}
