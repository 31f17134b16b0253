use game_netcode::address::SocketAddress;
use game_netcode::components::{NetworkObject, NetworkObjectType};
use game_netcode::events::NetworkEvent;
use game_netcode::handshake::server_handshake;
use game_netcode::message::{deserialize, serialize, Message};
use game_netcode::player::PlayerId;
use game_netcode::position::{default_spawn_point, initial_position, Position};
use game_netcode::raw_message::RawMessage;
use game_netcode::server::{
    broadcast_message, connection_handler, handle_event, player_joined, player_left, player_moved,
    NetworkGame, RegistryError,
};
use game_netcode::socket::SocketError;
use game_netcode::transport::Transport;

fn addr(port: u16) -> SocketAddress {
    SocketAddress::V4 { ip: 0x7F00_0001, port }
}

fn at(x: f32, y: f32, z: f32) -> Position {
    Position { x: x.to_bits(), y: y.to_bits(), z: z.to_bits() }
}

fn drain(transport: &mut Transport) -> Vec<(SocketAddress, Message)> {
    transport
        .drain_messages_to_send(|_| true)
        .into_iter()
        .map(|m| (m.destination, deserialize(m.payload).unwrap()))
        .collect()
}

fn player_object(id: u8, owner: u8) -> NetworkObject {
    NetworkObject {
        id,
        owner: PlayerId(owner),
        object_type: NetworkObjectType::Player,
        is_owned: false,
    }
}

#[test]
fn first_player_to_join_is_told_of_itself_only() {
    let mut game = NetworkGame::new();
    let mut transport = Transport::new();
    player_joined(&mut game, &mut transport, PlayerId(1), addr(10), 11);
    assert_eq!(
        drain(&mut transport),
        vec![(
            addr(10),
            Message::Spawn(PlayerId(1), default_spawn_point(), NetworkObjectType::Player, 11)
        )]
    );
    assert_eq!(game.players.addresses(), vec![addr(10)]);
    assert_eq!(game.objects.len(), 1);
    assert_eq!(game.objects.entry(0), (player_object(11, 1), initial_position()));
}

#[test]
fn full_state_sync_for_a_second_client() {
    let c1 = addr(10);
    let c2 = addr(20);
    let p = at(4.0, 5.0, 6.0);
    let mut game = NetworkGame::new();
    let mut transport = Transport::new();
    player_joined(&mut game, &mut transport, PlayerId(1), c1, 11);
    assert_eq!(player_moved(&mut game, &mut transport, PlayerId(1), p, 11), Ok(()));
    drain(&mut transport);

    player_joined(&mut game, &mut transport, PlayerId(2), c2, 22);
    let sent = drain(&mut transport);
    let for_c1 = Message::Spawn(PlayerId(2), initial_position(), NetworkObjectType::Player, 22);
    let of_c1 = Message::Spawn(PlayerId(1), p, NetworkObjectType::Player, 11);
    let for_c2 = Message::Spawn(PlayerId(2), default_spawn_point(), NetworkObjectType::Player, 22);
    assert_eq!(sent, vec![(c1, for_c1), (c2, of_c1), (c2, for_c2)]);
    assert_eq!(game.players.addresses(), vec![c1, c2]);
    assert_eq!(game.objects.len(), 2);
    assert_eq!(game.objects.entry(0), (player_object(11, 1), p));
    assert_eq!(game.objects.entry(1), (player_object(22, 2), initial_position()));
}

#[test]
fn full_state_sync_tells_of_every_object_in_order() {
    let mut game = NetworkGame::new();
    let mut transport = Transport::new();
    player_joined(&mut game, &mut transport, PlayerId(1), addr(10), 11);
    player_joined(&mut game, &mut transport, PlayerId(2), addr(20), 22);
    player_joined(&mut game, &mut transport, PlayerId(3), addr(30), 33);
    drain(&mut transport);
    player_joined(&mut game, &mut transport, PlayerId(4), addr(40), 44);
    let sent = drain(&mut transport);
    assert_eq!(sent.len(), 7);
    let announced = Message::Spawn(PlayerId(4), initial_position(), NetworkObjectType::Player, 44);
    assert_eq!(sent[0], (addr(10), announced));
    assert_eq!(sent[1], (addr(20), announced));
    assert_eq!(sent[2], (addr(30), announced));
    for (i, (id, owner)) in [(11u8, 1u8), (22, 2), (33, 3)].into_iter().enumerate() {
        let spawn =
            Message::Spawn(PlayerId(owner), initial_position(), NetworkObjectType::Player, id);
        assert_eq!(sent[3 + i], (addr(40), spawn));
    }
    assert_eq!(
        sent[6],
        (
            addr(40),
            Message::Spawn(PlayerId(4), default_spawn_point(), NetworkObjectType::Player, 44)
        )
    );
}

#[test]
fn position_is_relayed_to_everyone_but_the_sender() {
    let mut game = NetworkGame::new();
    let mut transport = Transport::new();
    player_joined(&mut game, &mut transport, PlayerId(1), addr(10), 11);
    player_joined(&mut game, &mut transport, PlayerId(2), addr(20), 22);
    player_joined(&mut game, &mut transport, PlayerId(3), addr(30), 33);
    drain(&mut transport);
    let p = at(1.5, 2.5, 3.5);
    assert_eq!(player_moved(&mut game, &mut transport, PlayerId(2), p, 22), Ok(()));
    let relayed = Message::PlayerPosition(PlayerId(2), p, 22);
    assert_eq!(drain(&mut transport), vec![(addr(10), relayed), (addr(30), relayed)]);
    assert_eq!(game.objects.entry(0).1, initial_position());
    assert_eq!(game.objects.entry(1), (player_object(22, 2), p));
    assert_eq!(game.objects.entry(2).1, initial_position());
}

#[test]
fn position_of_an_unknown_object_is_dropped() {
    let mut game = NetworkGame::new();
    let mut transport = Transport::new();
    player_joined(&mut game, &mut transport, PlayerId(1), addr(10), 11);
    player_joined(&mut game, &mut transport, PlayerId(2), addr(20), 22);
    drain(&mut transport);
    let r = player_moved(&mut game, &mut transport, PlayerId(1), at(9.0, 9.0, 9.0), 99);
    assert_eq!(r, Err(RegistryError::UnknownObjectReference(99)));
    assert_eq!(transport.len(), 0);
    assert_eq!(game.objects.entry(0).1, initial_position());
    assert_eq!(game.objects.entry(1).1, initial_position());
}

#[test]
fn despawn_propagation_for_two_owned_objects() {
    let mut game = NetworkGame::new();
    let mut transport = Transport::new();
    player_joined(&mut game, &mut transport, PlayerId(1), addr(10), 11);
    player_joined(&mut game, &mut transport, PlayerId(2), addr(20), 22);
    player_joined(&mut game, &mut transport, PlayerId(3), addr(30), 33);
    game.objects.insert(player_object(44, 2), at(0.0, 0.0, 0.0));
    drain(&mut transport);

    assert_eq!(player_left(&mut game, &mut transport, addr(20)), Ok(()));
    let sent = drain(&mut transport);
    let first = Message::Despawn(PlayerId(2), 22);
    let second = Message::Despawn(PlayerId(2), 44);
    assert_eq!(
        sent,
        vec![(addr(10), first), (addr(30), first), (addr(10), second), (addr(30), second)]
    );
    assert_eq!(sent.iter().filter(|(to, _)| *to == addr(10)).count(), 2);
    assert_eq!(sent.iter().filter(|(to, _)| *to == addr(30)).count(), 2);
    assert_eq!(sent.iter().filter(|(to, _)| *to == addr(20)).count(), 0);
    assert_eq!(game.players.addresses(), vec![addr(10), addr(30)]);
    assert_eq!(game.objects.len(), 2);
    assert_eq!(game.objects.entry(0).0, player_object(11, 1));
    assert_eq!(game.objects.entry(1).0, player_object(33, 3));
}

#[test]
fn last_player_leaves_without_a_message() {
    let mut game = NetworkGame::new();
    let mut transport = Transport::new();
    player_joined(&mut game, &mut transport, PlayerId(1), addr(10), 11);
    drain(&mut transport);
    assert_eq!(player_left(&mut game, &mut transport, addr(10)), Ok(()));
    assert_eq!(transport.len(), 0);
    assert_eq!(game.players.len(), 0);
    assert_eq!(game.objects.len(), 0);
}

#[test]
fn disconnect_of_an_unknown_peer_is_dropped() {
    let mut game = NetworkGame::new();
    let mut transport = Transport::new();
    player_joined(&mut game, &mut transport, PlayerId(1), addr(10), 11);
    drain(&mut transport);
    assert_eq!(
        player_left(&mut game, &mut transport, addr(77)),
        Err(RegistryError::UnknownPlayerReference(addr(77)))
    );
    assert_eq!(transport.len(), 0);
    assert_eq!(game.players.len(), 1);
    assert_eq!(game.objects.len(), 1);
}

#[test]
fn broadcast_goes_to_each_address_in_order() {
    let mut transport = Transport::new();
    let message = Message::Despawn(PlayerId(1), 2);
    broadcast_message(&mut transport, &vec![addr(3), addr(1), addr(3)], message);
    assert_eq!(
        drain(&mut transport),
        vec![(addr(3), message), (addr(1), message), (addr(3), message)]
    );
}

#[test]
fn server_handshake_offers_an_identity() {
    let mut transport = Transport::new();
    server_handshake(&addr(10), &mut transport);
    let sent = drain(&mut transport);
    assert_eq!(sent.len(), 1);
    assert_eq!(sent[0].0, addr(10));
    assert!(matches!(sent[0].1, Message::ServerAcknowledgement(_)));
}

#[test]
fn handle_event_uses_the_fresh_byte() {
    let mut game = NetworkGame::new();
    let mut transport = Transport::new();
    let connected = NetworkEvent::Connected(addr(10));
    assert_eq!(handle_event(&connected, 7, &mut transport, &mut game), Ok(()));
    assert_eq!(
        drain(&mut transport),
        vec![(addr(10), Message::ServerAcknowledgement(PlayerId(7)))]
    );
    assert_eq!(game.players.len(), 0);

    let confirmed = NetworkEvent::RawMessage(addr(10), Message::ClientAcknowledgement(PlayerId(7)));
    assert_eq!(handle_event(&confirmed, 99, &mut transport, &mut game), Ok(()));
    assert_eq!(
        drain(&mut transport),
        vec![(
            addr(10),
            Message::Spawn(PlayerId(7), default_spawn_point(), NetworkObjectType::Player, 99)
        )]
    );
    assert_eq!(game.objects.entry(0).0, player_object(99, 7));
}

#[test]
fn events_without_effect_on_the_registry() {
    let mut game = NetworkGame::new();
    let mut transport = Transport::new();
    player_joined(&mut game, &mut transport, PlayerId(1), addr(10), 11);
    drain(&mut transport);
    let failed = RawMessage::new(addr(10), &serialize(Message::Despawn(PlayerId(1), 11)));
    let events = vec![
        NetworkEvent::RecvError(SocketError::Other(std::io::ErrorKind::PermissionDenied)),
        NetworkEvent::SendError(SocketError::ConnectionReset, failed),
        NetworkEvent::RawMessage(
            addr(10),
            Message::NetworkInput { w: true, s: false, a: false, d: false },
        ),
        NetworkEvent::RawMessage(addr(10), Message::Despawn(PlayerId(1), 11)),
        NetworkEvent::RawMessage(addr(10), Message::ServerAcknowledgement(PlayerId(1))),
    ];
    assert_eq!(connection_handler(&events, &mut transport, &mut game), vec![]);
    assert_eq!(transport.len(), 0);
    assert_eq!(game.players.len(), 1);
    assert_eq!(game.objects.len(), 1);
}

#[test]
fn connection_handler_runs_a_whole_session() {
    let mut game = NetworkGame::new();
    let mut transport = Transport::new();
    let p = at(3.0, 0.0, -1.0);

    let faults = connection_handler(
        &vec![
            NetworkEvent::Connected(addr(10)),
            NetworkEvent::RawMessage(addr(10), Message::ClientAcknowledgement(PlayerId(1))),
        ],
        &mut transport,
        &mut game,
    );
    assert_eq!(faults, vec![]);
    let sent = drain(&mut transport);
    assert_eq!(sent.len(), 2);
    assert!(matches!(sent[0], (a, Message::ServerAcknowledgement(_)) if a == addr(10)));
    let first_object = match sent[1] {
        (a, Message::Spawn(PlayerId(1), at, NetworkObjectType::Player, id)) => {
            assert_eq!(a, addr(10));
            assert_eq!(at, default_spawn_point());
            id
        }
        other => panic!("unexpected {:?}", other),
    };
    assert_eq!(game.objects.entry(0), (player_object(first_object, 1), initial_position()));

    let faults = connection_handler(
        &vec![
            NetworkEvent::RawMessage(
                addr(10),
                Message::PlayerPosition(PlayerId(1), p, first_object),
            ),
            NetworkEvent::RawMessage(
                addr(10),
                Message::PlayerPosition(PlayerId(1), p, first_object.wrapping_add(1)),
            ),
            NetworkEvent::Disconnected(addr(99)),
            NetworkEvent::RawMessage(addr(20), Message::ClientAcknowledgement(PlayerId(2))),
        ],
        &mut transport,
        &mut game,
    );
    assert_eq!(
        faults,
        vec![
            RegistryError::UnknownObjectReference(first_object.wrapping_add(1)),
            RegistryError::UnknownPlayerReference(addr(99)),
        ]
    );
    let sent = drain(&mut transport);
    assert_eq!(sent.len(), 3);
    let second_object = match sent[0] {
        (a, Message::Spawn(PlayerId(2), at, NetworkObjectType::Player, id)) => {
            assert_eq!(a, addr(10));
            assert_eq!(at, initial_position());
            id
        }
        other => panic!("unexpected {:?}", other),
    };
    assert_eq!(
        sent[1],
        (addr(20), Message::Spawn(PlayerId(1), p, NetworkObjectType::Player, first_object))
    );
    assert_eq!(
        sent[2],
        (
            addr(20),
            Message::Spawn(
                PlayerId(2),
                default_spawn_point(),
                NetworkObjectType::Player,
                second_object
            )
        )
    );

    let faults = connection_handler(
        &vec![NetworkEvent::Disconnected(addr(10))],
        &mut transport,
        &mut game,
    );
    assert_eq!(faults, vec![]);
    assert_eq!(game.players.addresses(), vec![addr(20)]);
    let sent = drain(&mut transport);
    assert_eq!(sent, vec![(addr(20), Message::Despawn(PlayerId(1), first_object))]);
    assert_eq!(game.objects.len(), 1);
    assert_eq!(game.objects.entry(0).0, player_object(second_object, 2));
}

#[test]
fn players_that_share_an_address_leave_one_at_a_time() {
    let mut game = NetworkGame::new();
    let mut transport = Transport::new();
    player_joined(&mut game, &mut transport, PlayerId(1), addr(10), 11);
    player_joined(&mut game, &mut transport, PlayerId(2), addr(10), 22);
    player_joined(&mut game, &mut transport, PlayerId(3), addr(30), 33);
    drain(&mut transport);
    assert_eq!(player_left(&mut game, &mut transport, addr(10)), Ok(()));
    let gone = Message::Despawn(PlayerId(1), 11);
    assert_eq!(drain(&mut transport), vec![(addr(10), gone), (addr(30), gone)]);
    assert_eq!(game.players.addresses(), vec![addr(10), addr(30)]);
    assert_eq!(player_left(&mut game, &mut transport, addr(10)), Ok(()));
    assert_eq!(drain(&mut transport), vec![(addr(30), Message::Despawn(PlayerId(2), 22))]);
    assert_eq!(game.players.addresses(), vec![addr(30)]);
}
