//! The client's side of the game: what it does with the messages of the server.
//!
//! Until the handshake is complete the client reads nothing but the server's
//! acknowledgement.  From then on a `Spawn` creates a replica, a reported position is
//! stored with the replicas of the player concerned, and a `Despawn` removes the
//! replicas with the identifier given.
use vstd::prelude::*;
use crate::address::SocketAddress;
use crate::components::{entities_moved, NetworkEntity, NetworkObjectType, NetworkTransform};
use crate::entities::{owned_player, player_facade, spawn_player, spawn_player_facade};
use crate::events::NetworkEvent;
use crate::handshake::{
    datagram_of, first_acknowledgement, is_first_acknowledgement,
    lemma_first_acknowledgement_exists, listen_handshake_events, ConnectionStatus,
};
use crate::message::Message;
use crate::player::PlayerId;
use crate::position::Position;
use crate::raw_message::Datagram;
use crate::transport::Transport;

verus! {

/// The message that an event carries, if it carries one.
pub open spec fn message_of(event: NetworkEvent) -> Option<Message> {
    match event {
        NetworkEvent::RawMessage(_, message) => Some(message),
        _ => None,
    }
}

/// The messages that a sequence of events carries, in order.
pub open spec fn messages_of(events: Seq<NetworkEvent>) -> Seq<Message> {
    events.filter_map(|e: NetworkEvent| message_of(e))
}

/// The test that a replica does not have the identifier `object_id`.
pub open spec fn is_other_object(object_id: u8) -> spec_fn(NetworkEntity) -> bool {
    |e: NetworkEntity| e.object.id != object_id
}

/// The replica that a `Spawn` creates on a client whose player is `local_player_id`.
pub open spec fn spawned(
    local_player_id: PlayerId,
    id: PlayerId,
    pos: Position,
    object_type: NetworkObjectType,
    object_id: u8,
) -> NetworkEntity {
    match object_type {
        NetworkObjectType::Player => if id == local_player_id {
            owned_player(id, object_id, pos)
        } else {
            player_facade(id, object_id, pos)
        },
    }
}

/// The replicas after one message of the game.
pub open spec fn game_step(
    entities: Seq<NetworkEntity>,
    local_player_id: PlayerId,
    message: Message,
) -> Seq<NetworkEntity> {
    match message {
        Message::Spawn(id, pos, object_type, object_id) => entities.push(
            spawned(local_player_id, id, pos, object_type, object_id),
        ),
        Message::PlayerPosition(received_player_id, pos, _) => entities_moved(
            entities,
            received_player_id,
            pos,
        ),
        Message::Despawn(_, object_id) => entities.filter(is_other_object(object_id)),
        _ => entities,
    }
}

/// The replicas after a batch of messages of the game, handled in order.
pub open spec fn game_run(
    entities: Seq<NetworkEntity>,
    local_player_id: PlayerId,
    messages: Seq<Message>,
) -> Seq<NetworkEntity>
    decreases messages.len(),
{
    if messages.len() == 0 {
        entities
    } else {
        game_step(
            game_run(entities, local_player_id, messages.drop_last()),
            local_player_id,
            messages.last(),
        )
    }
}

/// The model of a client: how far the handshake has got, the identity of its player,
/// the datagrams that wait to be sent, and the replicas.
pub struct ClientModel {
    pub status: ConnectionStatus,
    pub local_player_id: PlayerId,
    pub outbound: Seq<Datagram>,
    pub entities: Seq<NetworkEntity>,
}

/// The client after one message, with the server at `server`.
///
/// Before the handshake is complete only the server's acknowledgement has an effect:
/// the client takes the identity, completes the handshake and confirms.  After that the
/// message is one of the game.
pub open spec fn client_step(m: ClientModel, server: SocketAddress, message: Message) -> ClientModel {
    match m.status {
        ConnectionStatus::Initial => match message {
            Message::ServerAcknowledgement(id) => ClientModel {
                status: ConnectionStatus::Complete,
                local_player_id: id,
                outbound: m.outbound.push(datagram_of(server, Message::ClientAcknowledgement(id))),
                entities: m.entities,
            },
            _ => m,
        },
        ConnectionStatus::Complete => ClientModel {
            status: m.status,
            local_player_id: m.local_player_id,
            outbound: m.outbound,
            entities: game_step(m.entities, m.local_player_id, message),
        },
    }
}

/// The client after a batch of messages, handled in order.
pub open spec fn client_run(m: ClientModel, server: SocketAddress, messages: Seq<Message>) -> ClientModel
    decreases messages.len(),
{
    if messages.len() == 0 {
        m
    } else {
        client_step(client_run(m, server, messages.drop_last()), server, messages.last())
    }
}

/// Handling two batches one after the other is handling them as one.
pub proof fn lemma_client_run_concat(
    m: ClientModel,
    server: SocketAddress,
    first: Seq<Message>,
    second: Seq<Message>,
)
    ensures
        client_run(client_run(m, server, first), server, second) == client_run(
            m,
            server,
            first + second,
        ),
    decreases second.len(),
{
    if second.len() == 0 {
        assert(first + second =~= first);
    } else {
        lemma_client_run_concat(m, server, first, second.drop_last());
        assert((first + second).drop_last() =~= first + second.drop_last());
        assert((first + second).last() == second.last());
    }
}

/// A client whose handshake is complete stays so, sends nothing on account of the
/// messages that it reads, keeps its identity, and handles each message as one of the
/// game.
pub proof fn lemma_client_run_complete(m: ClientModel, server: SocketAddress, messages: Seq<Message>)
    requires
        m.status == ConnectionStatus::Complete,
    ensures
        client_run(m, server, messages) == (ClientModel {
            status: ConnectionStatus::Complete,
            local_player_id: m.local_player_id,
            outbound: m.outbound,
            entities: game_run(m.entities, m.local_player_id, messages),
        }),
    decreases messages.len(),
{
    if messages.len() > 0 {
        lemma_client_run_complete(m, server, messages.drop_last());
    }
}

/// A client that waits for its identity is left as it is by messages among which there
/// is no acknowledgement of the server.
pub proof fn lemma_client_run_waiting(m: ClientModel, server: SocketAddress, messages: Seq<Message>)
    requires
        m.status == ConnectionStatus::Initial,
        forall|i: int| 0 <= i < messages.len() ==> !(#[trigger] messages[i] is ServerAcknowledgement),
    ensures
        client_run(m, server, messages) == m,
    decreases messages.len(),
{
    if messages.len() > 0 {
        lemma_client_run_waiting(m, server, messages.drop_last());
        assert(!(messages[messages.len() - 1] is ServerAcknowledgement));
    }
}

/// Handshake completion.  A client that waits for its identity stays as it is, and sends
/// nothing, for as long as no acknowledgement of the server is among the messages.  With
/// the first acknowledgement it takes the identity assigned, completes the handshake and
/// queues one confirmation for the server; every message after that one is handled as a
/// message of the game, so the handshake is not repeated and nothing more is sent.
pub proof fn lemma_handshake_completion(m: ClientModel, server: SocketAddress, messages: Seq<Message>)
    requires
        m.status == ConnectionStatus::Initial,
    ensures
        ({
            let k = first_acknowledgement(messages);
            let after = client_run(m, server, messages);
            &&& is_first_acknowledgement(messages, k)
            &&& k == messages.len() ==> after == m
            &&& k < messages.len() ==> (messages[k] matches Message::ServerAcknowledgement(id)
                && after == (ClientModel {
                status: ConnectionStatus::Complete,
                local_player_id: id,
                outbound: m.outbound.push(datagram_of(server, Message::ClientAcknowledgement(id))),
                entities: game_run(m.entities, id, messages.skip(k + 1)),
            }))
        }),
{
    lemma_first_acknowledgement_exists(messages);
    let k = first_acknowledgement(messages);
    lemma_client_run_waiting(m, server, messages.take(k));
    if k == messages.len() {
        assert(messages.take(k) =~= messages);
    } else {
        let acknowledged = client_step(m, server, messages[k]);
        let head = messages.take(k + 1);
        let tail = messages.skip(k + 1);
        assert(head.drop_last() =~= messages.take(k));
        assert(head.last() == messages[k]);
        assert(client_run(m, server, head) == acknowledged);
        assert(head + tail =~= messages);
        lemma_client_run_concat(m, server, head, tail);
        lemma_client_run_complete(acknowledged, server, tail);
    }
}

/// Spawns the object `object_id` of the local player `id`.
pub fn spawn_network_object(
    object_type: &NetworkObjectType,
    object_id: u8,
    id: PlayerId,
    pos: Position,
    commands: &mut Vec<NetworkEntity>,
)
    ensures
        final(commands)@ == old(commands)@.push(spawned(id, id, pos, *object_type, object_id)),
{
    match object_type {
        NetworkObjectType::Player => {
            spawn_player(id, object_id, pos, commands);
        },
    }
}

/// Spawns the stand-in for the object `object_id` of another player `id`.
pub fn spawn_network_facade_object(
    object_type: &NetworkObjectType,
    object_id: u8,
    id: PlayerId,
    pos: Position,
    commands: &mut Vec<NetworkEntity>,
)
    ensures
        final(commands)@ == old(commands)@.push(
            match *object_type {
                NetworkObjectType::Player => player_facade(id, object_id, pos),
            },
        ),
{
    match object_type {
        NetworkObjectType::Player => {
            spawn_player_facade(id, object_id, pos, commands);
        },
    }
}

/// Removes every replica with the identifier `object_id`, whoever owns it.
pub fn despawn(object_id: u8, entities: &mut Vec<NetworkEntity>)
    ensures
        final(entities)@ == old(entities)@.filter(is_other_object(object_id)),
{
    let mut kept: Vec<NetworkEntity> = Vec::new();
    let mut i: usize = 0;
    while i < entities.len()
        invariant
            i <= entities@.len(),
            entities@ == old(entities)@,
            kept@ == entities@.take(i as int).filter(is_other_object(object_id)),
        decreases entities@.len() - i,
    {
        if entities[i].object.id != object_id {
            kept.push(entities[i]);
        }
        proof {
            let seen = entities@.take(i as int);
            assert(entities@.take(i + 1) =~= seen.push(entities@[i as int]));
            seen.lemma_filter_push(entities@[i as int], is_other_object(object_id));
        }
        i += 1;
    }
    assert(entities@.take(i as int) =~= entities@);
    *entities = kept;
}

/// Handles a batch of messages of the game, in order.
pub fn listen_game_events(
    messages: &[Message],
    local_player_id: &PlayerId,
    entities: &mut Vec<NetworkEntity>,
)
    ensures
        final(entities)@ == game_run(old(entities)@, *local_player_id, messages@),
{
    let mut i: usize = 0;
    while i < messages.len()
        invariant
            i <= messages@.len(),
            entities@ == game_run(old(entities)@, *local_player_id, messages@.take(i as int)),
        decreases messages@.len() - i,
    {
        proof {
            let next = messages@.take(i + 1);
            assert(next.drop_last() =~= messages@.take(i as int));
            assert(next.last() == messages@[i as int]);
        }
        match messages[i] {
            Message::Spawn(id, pos, object_type, object_id) => {
                if id == *local_player_id {
                    spawn_network_object(&object_type, object_id, id, pos, entities);
                } else {
                    spawn_network_facade_object(&object_type, object_id, id, pos, entities);
                }
            },
            Message::PlayerPosition(received_player_id, pos, _object_id) => {
                NetworkTransform::update_last_pos(&received_player_id, &pos, entities);
            },
            Message::Despawn(_, object_id) => {
                despawn(object_id, entities);
            },
            _ => (),
        }
        i += 1;
    }
    assert(messages@.take(i as int) =~= messages@);
}

/// Handles the messages of a tick, in order.
///
/// While the handshake is not complete, messages are read up to the first
/// acknowledgement of the server and all but that one are ignored; what follows the
/// acknowledgement is handled as messages of the game.
pub fn listen_events(
    messages: &[Message],
    server: SocketAddress,
    transport: &mut Transport,
    local_player_id: &mut PlayerId,
    entities: &mut Vec<NetworkEntity>,
    connection_status: &mut ConnectionStatus,
)
    ensures
        (ClientModel {
            status: *final(connection_status),
            local_player_id: *final(local_player_id),
            outbound: final(transport)@,
            entities: final(entities)@,
        }) == client_run(
            ClientModel {
                status: *old(connection_status),
                local_player_id: *old(local_player_id),
                outbound: old(transport)@,
                entities: old(entities)@,
            },
            server,
            messages@,
        ),
{
    let ghost start = ClientModel {
        status: *old(connection_status),
        local_player_id: *old(local_player_id),
        outbound: old(transport)@,
        entities: old(entities)@,
    };
    match *connection_status {
        ConnectionStatus::Initial => {
            let read = listen_handshake_events(
                messages,
                server,
                transport,
                local_player_id,
                connection_status,
            );
            proof {
                lemma_handshake_completion(start, server, messages@);
            }
            if *connection_status == ConnectionStatus::Complete {
                // the handshake is done: what is left of the batch belongs to the game
                let rest = &messages[read..messages.len()];
                listen_game_events(rest, local_player_id, entities);
            }
        },
        ConnectionStatus::Complete => {
            proof {
                lemma_client_run_complete(start, server, messages@);
            }
            listen_game_events(messages, local_player_id, entities);
        },
    }
}

/// Passes on the messages that the events of a tick carry, in order.  Faults of the
/// socket and the coming and going of peers carry none.
pub fn client_connection_handler(events: &Vec<NetworkEvent>) -> (messages: Vec<Message>)
    ensures
        messages@ == messages_of(events@),
{
    let mut messages: Vec<Message> = Vec::new();
    let mut i: usize = 0;
    while i < events.len()
        invariant
            i <= events@.len(),
            messages@ == messages_of(events@.take(i as int)),
        decreases events@.len() - i,
    {
        proof {
            events@.lemma_filter_map_take_succ(|e: NetworkEvent| message_of(e), i as int);
        }
        match &events[i] {
            NetworkEvent::RawMessage(_, msg) => {
                messages.push(*msg);
            },
            // discard irrelevant events
            _ => {},
        }
        i += 1;
    }
    assert(events@.take(i as int) =~= events@);
    messages
}

} // verus!
