//! The authoritative registry: what the server does with each event of a connection.
//!
//! A client that confirms its identity enters the registry: the clients already
//! connected learn of its object, it learns of every object already there, and its own
//! object is recorded.  A position that a client reports is relayed to every other
//! client and recorded.  When a client is gone, its objects leave the registry and every
//! remaining client is told so.  An event that names an object or a peer that the
//! registry does not know is dropped and leaves everything as it was.
use vstd::prelude::*;
use crate::address::SocketAddress;
use crate::assoc::{has_key, keys_distinct, lemma_index_of_key, lemma_without, put, values, without};
use crate::counting::{lemma_occurrences_absent, lemma_occurrences_add, occurrences};
use crate::components::{
    has_object_id, is_not_owned_by, owned_objects, with_position, NetworkObject, NetworkObjectType,
    NetworkObjects,
};
use crate::events::NetworkEvent;
use crate::handshake::{datagram_of, offer_identity};
use crate::message::{decode, encode, lemma_decode_encode, serialize, DecodeError, Message};
use crate::trusted::bytes_view;
use crate::player::{
    addresses_except, first_at_address, has_address, lemma_first_at_address_exists, PlayerId,
    Players,
};
use crate::position::{default_spawn_point, initial_position, Position};
use crate::raw_message::Datagram;
use crate::transport::Transport;

verus! {

/// Why the registry dropped an event.
#[derive(Debug, PartialEq, Eq, Clone, Copy, Structural)]
pub enum RegistryError {
    /// A position was reported for an object identifier that the registry does not hold.
    UnknownObjectReference(u8),
    /// A peer that is no connected player was reported gone.
    UnknownPlayerReference(SocketAddress),
}

/// The state that the server keeps from tick to tick.
#[derive(Debug)]
pub struct NetworkGame {
    /// Who is connected, and where.
    pub players: Players,
    /// Which objects there are, and where each was last known to be.
    pub objects: NetworkObjects,
}

/// The model of the server: the connected players, the objects with their positions, and
/// the datagrams that wait to be sent.
pub struct ServerModel {
    pub players: Seq<(PlayerId, SocketAddress)>,
    pub objects: Seq<(NetworkObject, Position)>,
    pub outbound: Seq<Datagram>,
}

/// The model of a server state together with its outbound queue.
pub open spec fn model(network: NetworkGame, transport: Transport) -> ServerModel {
    ServerModel { players: network.players@, objects: network.objects@, outbound: transport@ }
}

/// One datagram with `payload` for each address, in order.
pub open spec fn broadcast(addresses: Seq<SocketAddress>, payload: Seq<u8>) -> Seq<Datagram> {
    Seq::new(addresses.len(), |i: int| Datagram { destination: addresses[i], payload })
}

/// The message that announces an object of the table.
pub open spec fn spawn_of(entry: (NetworkObject, Position)) -> Message {
    Message::Spawn(entry.0.owner, entry.1, entry.0.object_type, entry.0.id)
}

/// The whole table told to `to`: one `Spawn` for each object, in the order of the table.
pub open spec fn snapshot(objects: Seq<(NetworkObject, Position)>, to: SocketAddress) -> Seq<
    Datagram,
> {
    Seq::new(objects.len(), |i: int| datagram_of(to, spawn_of(objects[i])))
}

/// For each object in turn, one `Despawn` for each address.
pub open spec fn despawns(
    addresses: Seq<SocketAddress>,
    owner: PlayerId,
    objects: Seq<NetworkObject>,
) -> Seq<Datagram>
    decreases objects.len(),
{
    if objects.len() == 0 {
        Seq::empty()
    } else {
        despawns(addresses, owner, objects.drop_last()) + broadcast(
            addresses,
            encode(Message::Despawn(owner, objects.last().id)),
        )
    }
}

/// The object that the registry records for a player that has just joined.
pub open spec fn joined_object(player_id: PlayerId, object_id: u8) -> NetworkObject {
    NetworkObject {
        id: object_id,
        owner: player_id,
        object_type: NetworkObjectType::Player,
        is_owned: false,
    }
}

/// The server after the client at `handle` confirmed the identity `player_id` and its
/// object was given the identifier `object_id`.
pub open spec fn server_joined(
    m: ServerModel,
    player_id: PlayerId,
    handle: SocketAddress,
    object_id: u8,
) -> ServerModel {
    ServerModel {
        players: put(m.players, player_id, handle),
        objects: put(m.objects, joined_object(player_id, object_id), initial_position()),
        outbound: m.outbound + broadcast(
            values(m.players),
            encode(
                Message::Spawn(
                    player_id,
                    initial_position(),
                    NetworkObjectType::Player,
                    object_id,
                ),
            ),
        ) + snapshot(m.objects, handle).push(
            datagram_of(
                handle,
                Message::Spawn(
                    player_id,
                    default_spawn_point(),
                    NetworkObjectType::Player,
                    object_id,
                ),
            ),
        ),
    }
}

/// The server after `player_id` reported `position` for the object `object_id`.
pub open spec fn server_moved(
    m: ServerModel,
    player_id: PlayerId,
    position: Position,
    object_id: u8,
) -> ServerModel {
    if has_object_id(m.objects, object_id) {
        ServerModel {
            players: m.players,
            objects: with_position(m.objects, object_id, position),
            outbound: m.outbound + broadcast(
                addresses_except(m.players, player_id),
                encode(Message::PlayerPosition(player_id, position, object_id)),
            ),
        }
    } else {
        m
    }
}

/// The player that is reached at `handle`: the first one of the registry with that address.
pub open spec fn player_at(players: Seq<(PlayerId, SocketAddress)>, handle: SocketAddress) -> PlayerId
    recommends
        has_address(players, handle),
{
    players[first_at_address(players, handle)].0
}

/// The server after the peer at `handle` was reported gone.
pub open spec fn server_left(m: ServerModel, handle: SocketAddress) -> ServerModel {
    if has_address(m.players, handle) {
        let gone = player_at(m.players, handle);
        ServerModel {
            players: without(m.players, gone),
            objects: m.objects.filter(is_not_owned_by(gone)),
            outbound: m.outbound + despawns(
                values(without(m.players, gone)),
                gone,
                owned_objects(m.objects, gone),
            ),
        }
    } else {
        m
    }
}

/// The server after one event.  `fresh` is the byte drawn for the event: the identity
/// offered to a new peer, or the identifier of the object of a player that joins.
pub open spec fn server_step(m: ServerModel, event: NetworkEvent, fresh: u8) -> ServerModel {
    match event {
        NetworkEvent::Connected(handle) => ServerModel {
            players: m.players,
            objects: m.objects,
            outbound: m.outbound.push(
                datagram_of(handle, Message::ServerAcknowledgement(PlayerId(fresh))),
            ),
        },
        NetworkEvent::Disconnected(handle) => server_left(m, handle),
        NetworkEvent::RawMessage(handle, message) => match message {
            Message::PlayerPosition(player_id, position, object_id) => server_moved(
                m,
                player_id,
                position,
                object_id,
            ),
            Message::ClientAcknowledgement(player_id) => server_joined(
                m,
                player_id,
                handle,
                fresh,
            ),
            _ => m,
        },
        NetworkEvent::SendError(_, _) => m,
        NetworkEvent::RecvError(_) => m,
    }
}

/// Why the server drops an event, if it does.
pub open spec fn server_fault(m: ServerModel, event: NetworkEvent) -> Option<RegistryError> {
    match event {
        NetworkEvent::Disconnected(handle) => if has_address(m.players, handle) {
            None
        } else {
            Some(RegistryError::UnknownPlayerReference(handle))
        },
        NetworkEvent::RawMessage(_, Message::PlayerPosition(_, _, object_id)) => if has_object_id(
            m.objects,
            object_id,
        ) {
            None
        } else {
            Some(RegistryError::UnknownObjectReference(object_id))
        },
        _ => None,
    }
}

/// The server after a batch of events, handled in order.
pub open spec fn server_run(m: ServerModel, events: Seq<NetworkEvent>, fresh: Seq<u8>) -> ServerModel
    recommends
        fresh.len() == events.len(),
    decreases events.len(),
{
    if events.len() == 0 {
        m
    } else {
        server_step(
            server_run(m, events.drop_last(), fresh.drop_last()),
            events.last(),
            fresh.last(),
        )
    }
}

/// The faults of a batch of events, in order.
pub open spec fn server_faults(m: ServerModel, events: Seq<NetworkEvent>, fresh: Seq<u8>) -> Seq<
    RegistryError,
>
    recommends
        fresh.len() == events.len(),
    decreases events.len(),
{
    if events.len() == 0 {
        Seq::empty()
    } else {
        let before = server_faults(m, events.drop_last(), fresh.drop_last());
        match server_fault(
            server_run(m, events.drop_last(), fresh.drop_last()),
            events.last(),
        ) {
            Some(fault) => before.push(fault),
            None => before,
        }
    }
}

impl NetworkGame {
    /// What holds of every server state: both of its tables are well formed.
    pub open spec fn wf(&self) -> bool {
        self.players.wf() && self.objects.wf()
    }

    /// A server without players and objects.
    pub fn new() -> (r: NetworkGame)
        ensures
            r.wf(),
            r.players@ == Seq::<(PlayerId, SocketAddress)>::empty(),
            r.objects@ == Seq::<(NetworkObject, Position)>::empty(),
    {
        NetworkGame { players: Players::new(), objects: NetworkObjects::new() }
    }
}

impl Default for NetworkGame {
    /// A server without players and objects.
    fn default() -> (r: Self)
        ensures
            r.wf(),
            r.players@ == Seq::<(PlayerId, SocketAddress)>::empty(),
            r.objects@ == Seq::<(NetworkObject, Position)>::empty(),
    {
        NetworkGame::new()
    }
}

/// Queues `message` once for each of `addresses`, in order.
pub fn broadcast_message(transport: &mut Transport, addresses: &Vec<SocketAddress>, message: Message)
    ensures
        final(transport)@ == old(transport)@ + broadcast(addresses@, encode(message)),
{
    let payload = serialize(message);
    let mut i: usize = 0;
    while i < addresses.len()
        invariant
            i <= addresses@.len(),
            bytes_view(payload) == encode(message),
            transport@ == old(transport)@ + broadcast(addresses@.take(i as int), encode(message)),
        decreases addresses@.len() - i,
    {
        transport.send(addresses[i], payload.as_ref());
        proof {
            assert(broadcast(addresses@.take(i + 1), encode(message)) =~= broadcast(
                addresses@.take(i as int),
                encode(message),
            ).push(Datagram { destination: addresses@[i as int], payload: encode(message) }));
            assert(transport@ =~= old(transport)@ + broadcast(
                addresses@.take(i + 1),
                encode(message),
            ));
        }
        i += 1;
    }
    assert(addresses@.take(i as int) =~= addresses@);
}

/// A client at `handle` has confirmed the identity `player_id`: the player enters the
/// registry, with an object that gets the identifier `object_id`.
///
/// In this order: every client already connected is sent a `Spawn` for the new object;
/// the player is recorded; the new client is sent a `Spawn` for every object already in
/// the table and then a `Spawn` for its own object at the default spawn point; and the
/// new object is recorded.
pub fn player_joined(
    network: &mut NetworkGame,
    transport: &mut Transport,
    player_id: PlayerId,
    handle: SocketAddress,
    object_id: u8,
)
    requires
        old(network).wf(),
    ensures
        final(network).wf(),
        model(*final(network), *final(transport)) == server_joined(
            model(*old(network), *old(transport)),
            player_id,
            handle,
            object_id,
        ),
{
    let others = network.players.addresses();
    broadcast_message(
        transport,
        &others,
        Message::Spawn(player_id, initial_position(), NetworkObjectType::Player, object_id),
    );
    network.players.add_player(player_id, handle);
    let ghost announced = transport@;
    let n = network.objects.len();
    let mut i: usize = 0;
    while i < n
        invariant
            i <= n,
            n == network.objects@.len(),
            network.objects@ == old(network).objects@,
            network.players@ == put(old(network).players@, player_id, handle),
            network.wf(),
            transport@ == announced + snapshot(network.objects@, handle).take(i as int),
        decreases n - i,
    {
        let (object, position) = network.objects.entry(i);
        transport.send(
            handle,
            serialize(Message::Spawn(object.owner, position, object.object_type, object.id)).as_ref(),
        );
        proof {
            let all = snapshot(network.objects@, handle);
            assert(all.take(i + 1) =~= all.take(i as int).push(all[i as int]));
            assert(transport@ =~= announced + all.take(i + 1));
        }
        i += 1;
    }
    proof {
        let all = snapshot(network.objects@, handle);
        assert(all.take(i as int) =~= all);
    }
    network.objects.insert(
        NetworkObject {
            id: object_id,
            owner: player_id,
            object_type: NetworkObjectType::Player,
            is_owned: false,
        },
        initial_position(),
    );
    transport.send(
        handle,
        serialize(
            Message::Spawn(player_id, default_spawn_point(), NetworkObjectType::Player, object_id),
        ).as_ref(),
    );
    proof {
        let m = model(*old(network), *old(transport));
        assert(transport@ =~= server_joined(m, player_id, handle, object_id).outbound);
    }
}

/// The player `player_id` has reported `position` for the object `object_id`.
///
/// If the table holds an object with that identifier, the report is relayed to every
/// connected player but `player_id`, and the first such object is moved.  Otherwise the
/// report is dropped: nothing is sent and nothing changes.
pub fn player_moved(
    network: &mut NetworkGame,
    transport: &mut Transport,
    player_id: PlayerId,
    position: Position,
    object_id: u8,
) -> (r: Result<(), RegistryError>)
    requires
        old(network).wf(),
    ensures
        final(network).wf(),
        model(*final(network), *final(transport)) == server_moved(
            model(*old(network), *old(transport)),
            player_id,
            position,
            object_id,
        ),
        r == if has_object_id(old(network).objects@, object_id) {
            Ok::<(), RegistryError>(())
        } else {
            Err::<(), RegistryError>(RegistryError::UnknownObjectReference(object_id))
        },
{
    if network.objects.set_position(object_id, position) {
        let others = network.players.for_all_except(player_id);
        broadcast_message(
            transport,
            &others,
            Message::PlayerPosition(player_id, position, object_id),
        );
        Ok(())
    } else {
        Err(RegistryError::UnknownObjectReference(object_id))
    }
}

/// The peer at `handle` is gone.
///
/// If a connected player is reached at that address, the player and its objects leave
/// the registry, and for each of those objects every remaining player is sent a
/// `Despawn`.  Otherwise the event is dropped: nothing is sent and nothing changes.
pub fn player_left(network: &mut NetworkGame, transport: &mut Transport, handle: SocketAddress) -> (r:
    Result<(), RegistryError>)
    requires
        old(network).wf(),
    ensures
        final(network).wf(),
        model(*final(network), *final(transport)) == server_left(
            model(*old(network), *old(transport)),
            handle,
        ),
        r == if has_address(old(network).players@, handle) {
            Ok::<(), RegistryError>(())
        } else {
            Err::<(), RegistryError>(RegistryError::UnknownPlayerReference(handle))
        },
{
    let player_id = match network.players.player_from_socket(handle) {
        Some(player_id) => player_id,
        None => {
            return Err(RegistryError::UnknownPlayerReference(handle));
        },
    };
    let player_objects = network.objects.remove_objects_of_player(player_id);
    network.players.remove_player(player_id);
    let remaining = network.players.addresses();
    let mut i: usize = 0;
    while i < player_objects.len()
        invariant
            i <= player_objects@.len(),
            transport@ == old(transport)@ + despawns(
                remaining@,
                player_id,
                player_objects@.take(i as int),
            ),
        decreases player_objects@.len() - i,
    {
        broadcast_message(transport, &remaining, Message::Despawn(player_id, player_objects[i].id));
        proof {
            let done = player_objects@.take(i as int);
            let next = player_objects@.take(i + 1);
            assert(next.drop_last() =~= done);
            assert(next.last() == player_objects@[i as int]);
            assert(transport@ =~= old(transport)@ + despawns(remaining@, player_id, next));
        }
        i += 1;
    }
    assert(player_objects@.take(i as int) =~= player_objects@);
    Ok(())
}

/// Handles one event.  `fresh` is the byte drawn for the event: it becomes the identity
/// offered to a peer that connects, or the identifier of the object of a player that
/// joins; other events do not use it.
pub fn handle_event(
    event: &NetworkEvent,
    fresh: u8,
    transport: &mut Transport,
    network: &mut NetworkGame,
) -> (r: Result<(), RegistryError>)
    requires
        old(network).wf(),
    ensures
        final(network).wf(),
        model(*final(network), *final(transport)) == server_step(
            model(*old(network), *old(transport)),
            *event,
            fresh,
        ),
        r == match server_fault(model(*old(network), *old(transport)), *event) {
            Some(fault) => Err::<(), RegistryError>(fault),
            None => Ok::<(), RegistryError>(()),
        },
{
    match event {
        NetworkEvent::Connected(handle) => {
            offer_identity(handle, PlayerId(fresh), transport);
            Ok(())
        },
        NetworkEvent::Disconnected(handle) => player_left(network, transport, *handle),
        NetworkEvent::RawMessage(handle, message) => match message {
            Message::PlayerPosition(player_id, position, object_id) => player_moved(
                network,
                transport,
                *player_id,
                *position,
                *object_id,
            ),
            Message::ClientAcknowledgement(player_id) => {
                player_joined(network, transport, *player_id, *handle, fresh);
                Ok(())
            },
            _ => Ok(()),
        },
        NetworkEvent::SendError(_, _) => Ok(()),
        NetworkEvent::RecvError(_) => Ok(()),
    }
}

/// Handles the events of a tick in order and returns the faults of those that were
/// dropped.
///
/// A peer that connects is offered an identity drawn at random, and the object of a
/// player that joins gets an identifier drawn at random; so the contract speaks of some
/// sequence of bytes, one for each event, under which the batch ran.
pub fn connection_handler(
    events: &Vec<NetworkEvent>,
    transport: &mut Transport,
    network: &mut NetworkGame,
) -> (faults: Vec<RegistryError>)
    requires
        old(network).wf(),
    ensures
        final(network).wf(),
        exists|fresh: Seq<u8>|
            {
                &&& fresh.len() == events@.len()
                &&& model(*final(network), *final(transport)) == #[trigger] server_run(
                    model(*old(network), *old(transport)),
                    events@,
                    fresh,
                )
                &&& faults@ == server_faults(model(*old(network), *old(transport)), events@, fresh)
            },
{
    let mut faults: Vec<RegistryError> = Vec::new();
    let ghost start = model(*old(network), *old(transport));
    let ghost mut fresh: Seq<u8> = Seq::empty();
    let mut i: usize = 0;
    while i < events.len()
        invariant
            i <= events@.len(),
            network.wf(),
            start == model(*old(network), *old(transport)),
            fresh.len() == i,
            model(*network, *transport) == server_run(start, events@.take(i as int), fresh),
            faults@ == server_faults(start, events@.take(i as int), fresh),
        decreases events@.len() - i,
    {
        let byte = match &events[i] {
            NetworkEvent::Connected(_) => Players::generate_id().0,
            NetworkEvent::RawMessage(_, Message::ClientAcknowledgement(_)) => {
                NetworkObject::generate_id()
            },
            _ => 0,
        };
        proof {
            let done = events@.take(i as int);
            let next = events@.take(i + 1);
            assert(next.drop_last() =~= done);
            assert(next.last() == events@[i as int]);
            assert(fresh.push(byte).drop_last() =~= fresh);
            fresh = fresh.push(byte);
        }
        match handle_event(&events[i], byte, transport, network) {
            Ok(()) => {},
            Err(fault) => {
                faults.push(fault);
            },
        }
        i += 1;
    }
    assert(events@.take(i as int) =~= events@);
    faults
}

/// The addresses that a sequence of datagrams goes to, in order.
pub open spec fn destinations(sent: Seq<Datagram>) -> Seq<SocketAddress> {
    sent.map_values(|d: Datagram| d.destination)
}

/// How many datagrams of `sent` go to `to`.
pub open spec fn sent_to(sent: Seq<Datagram>, to: SocketAddress) -> nat {
    occurrences(destinations(sent), to)
}

/// No two players of the table are reached at the same address.
pub open spec fn addresses_distinct(players: Seq<(PlayerId, SocketAddress)>) -> bool {
    forall|i: int, j: int|
        0 <= i < j < players.len() ==> (#[trigger] players[i]).1 != (#[trigger] players[j]).1
}

/// Full-state sync.  When a player joins, the datagrams queued for it are, in this
/// order: for each player already connected, the `Spawn` of the new object, sent to that
/// player; for each object already in the table, its `Spawn` with the position that the
/// table holds for it, sent to the new client; and the `Spawn` of the new object at the
/// default spawn point, sent to the new client.  What waited before still waits, first.
/// What the new client is sent for an object of the table decodes to that `Spawn`.
pub proof fn lemma_full_state_sync(
    m: ServerModel,
    player_id: PlayerId,
    handle: SocketAddress,
    object_id: u8,
)
    ensures
        ({
            let after = server_joined(m, player_id, handle, object_id).outbound;
            let n = m.outbound.len() as int;
            let p = m.players.len() as int;
            let o = m.objects.len() as int;
            &&& after.len() == n + p + o + 1
            &&& after.take(n) == m.outbound
            &&& forall|j: int|
                0 <= j < p ==> after[n + j] == datagram_of(
                    (#[trigger] m.players[j]).1,
                    Message::Spawn(
                        player_id,
                        initial_position(),
                        NetworkObjectType::Player,
                        object_id,
                    ),
                )
            &&& forall|i: int|
                0 <= i < o ==> after[n + p + i] == datagram_of(
                    handle,
                    Message::Spawn(
                        (#[trigger] m.objects[i]).0.owner,
                        m.objects[i].1,
                        m.objects[i].0.object_type,
                        m.objects[i].0.id,
                    ),
                )
            &&& after[n + p + o] == datagram_of(
                handle,
                Message::Spawn(
                    player_id,
                    default_spawn_point(),
                    NetworkObjectType::Player,
                    object_id,
                ),
            )
            &&& forall|i: int|
                0 <= i < o ==> after[n + p + i].destination == handle && decode(
                    after[n + p + i].payload,
                ) == Ok::<Message, DecodeError>(spawn_of(#[trigger] m.objects[i]))
        }),
{
    let after = server_joined(m, player_id, handle, object_id).outbound;
    let n = m.outbound.len() as int;
    assert(after.take(n) =~= m.outbound);
    assert forall|i: int| 0 <= i < m.objects.len() implies decode(
        after[n + m.players.len() + i].payload,
    ) == Ok::<Message, DecodeError>(spawn_of(#[trigger] m.objects[i])) by {
        lemma_decode_encode(spawn_of(m.objects[i]));
    }
}

/// A broadcast goes to each address as often as the address stands among those given.
pub proof fn lemma_broadcast_sent_to(addresses: Seq<SocketAddress>, payload: Seq<u8>, to: SocketAddress)
    ensures
        sent_to(broadcast(addresses, payload), to) == occurrences(addresses, to),
{
    assert(destinations(broadcast(addresses, payload)) =~= addresses);
}

/// Of the `Despawn`s for the objects of a player, each address gets one for each object,
/// as often as the address stands among those given.
pub proof fn lemma_despawns_sent_to(
    addresses: Seq<SocketAddress>,
    owner: PlayerId,
    objects: Seq<NetworkObject>,
    to: SocketAddress,
)
    ensures
        sent_to(despawns(addresses, owner, objects), to) == objects.len() * occurrences(
            addresses,
            to,
        ),
    decreases objects.len(),
{
    if objects.len() > 0 {
        let before = despawns(addresses, owner, objects.drop_last());
        let last = broadcast(addresses, encode(Message::Despawn(owner, objects.last().id)));
        lemma_despawns_sent_to(addresses, owner, objects.drop_last(), to);
        lemma_broadcast_sent_to(addresses, encode(Message::Despawn(owner, objects.last().id)), to);
        assert(destinations(before + last) =~= destinations(before) + destinations(last));
        lemma_occurrences_add(destinations(before), destinations(last), to);
        let k = occurrences(addresses, to) as int;
        let n = objects.len() as int;
        assert((n - 1) * k + k == n * k) by (nonlinear_arith);
    } else {
        assert(destinations(despawns(addresses, owner, objects)) =~= Seq::<SocketAddress>::empty());
    }
}

/// Every datagram among the `Despawn`s for the objects of a player carries the `Despawn`
/// of one of those objects.
pub proof fn lemma_despawns_payloads(
    addresses: Seq<SocketAddress>,
    owner: PlayerId,
    objects: Seq<NetworkObject>,
    i: int,
)
    requires
        0 <= i < despawns(addresses, owner, objects).len(),
    ensures
        exists|j: int|
            0 <= j < objects.len() && despawns(addresses, owner, objects)[i].payload == encode(
                Message::Despawn(owner, (#[trigger] objects[j]).id),
            ),
    decreases objects.len(),
{
    if objects.len() > 0 {
        let before = despawns(addresses, owner, objects.drop_last());
        if i < before.len() {
            lemma_despawns_payloads(addresses, owner, objects.drop_last(), i);
            let j = choose|j: int|
                0 <= j < objects.drop_last().len() && before[i].payload == encode(
                    Message::Despawn(owner, (#[trigger] objects.drop_last()[j]).id),
                );
            assert(objects[j] == objects.drop_last()[j]);
        } else {
            assert(despawns(addresses, owner, objects)[i].payload == encode(
                Message::Despawn(owner, objects[objects.len() - 1].id),
            ));
        }
    }
}

/// Despawn propagation.  When the player that is reached at `handle` is reported gone,
/// it leaves the registry and so does each of its objects, and every datagram queued on
/// that account carries the `Despawn` of one of those objects.  An address is sent one
/// such datagram for each of those objects and for each remaining player that is reached
/// there: so each remaining player is sent as many as the player that left had objects,
/// and an address at which no remaining player is reached is sent none.  Where no two
/// players share an address, that holds of the address `handle`.
pub proof fn lemma_despawn_propagation(m: ServerModel, handle: SocketAddress, to: SocketAddress)
    requires
        keys_distinct(m.players),
        has_address(m.players, handle),
    ensures
        ({
            let gone = player_at(m.players, handle);
            let after = server_left(m, handle);
            let left = owned_objects(m.objects, gone);
            let sent = despawns(values(after.players), gone, left);
            &&& after.outbound == m.outbound + sent
            &&& !has_key(after.players, gone)
            &&& forall|i: int|
                0 <= i < after.objects.len() ==> (#[trigger] after.objects[i]).0.owner != gone
            &&& forall|i: int|
                0 <= i < sent.len() ==> exists|j: int|
                    0 <= j < left.len() && (#[trigger] sent[i]).payload == encode(
                        Message::Despawn(gone, (#[trigger] left[j]).id),
                    )
            &&& sent_to(sent, to) == left.len() * occurrences(values(after.players), to)
            &&& occurrences(values(after.players), to) == 1 ==> sent_to(sent, to) == left.len()
            &&& !has_address(after.players, to) ==> sent_to(sent, to) == 0
            &&& addresses_distinct(m.players) ==> !has_address(after.players, handle)
        }),
{
    let gone = player_at(m.players, handle);
    let after = server_left(m, handle);
    let left = owned_objects(m.objects, gone);
    let remaining = after.players;
    let sent = despawns(values(remaining), gone, left);
    lemma_first_at_address_exists(m.players, handle);
    let at = first_at_address(m.players, handle);
    lemma_index_of_key(m.players, gone, at);
    lemma_without(m.players, gone);
    assert(remaining == m.players.remove(at));
    assert forall|i: int| 0 <= i < after.objects.len() implies (#[trigger] after.objects[i]).0.owner
        != gone by {
        m.objects.lemma_filter_pred(is_not_owned_by(gone), i);
    }
    assert forall|i: int| 0 <= i < sent.len() implies exists|j: int|
        0 <= j < left.len() && (#[trigger] sent[i]).payload == encode(
            Message::Despawn(gone, (#[trigger] left[j]).id),
        ) by {
        lemma_despawns_payloads(values(remaining), gone, left, i);
    }
    lemma_despawns_sent_to(values(remaining), gone, left, to);
    assert(left.len() * 1 == left.len()) by (nonlinear_arith);
    if !has_address(remaining, to) {
        assert forall|i: int| 0 <= i < values(remaining).len() implies #[trigger] values(
            remaining,
        )[i] != to by {
            assert(remaining[i].1 != to);
        }
        lemma_occurrences_absent(values(remaining), to);
        assert(left.len() * 0 == 0) by (nonlinear_arith);
    }
    if addresses_distinct(m.players) {
        assert forall|i: int| 0 <= i < remaining.len() implies (#[trigger] remaining[i]).1
            != handle by {
            let from = if i < at {
                i
            } else {
                i + 1
            };
            assert(remaining[i] == m.players[from]);
            if from < at {
                assert(m.players[from].1 != m.players[at].1);
            } else {
                assert(m.players[at].1 != m.players[from].1);
            }
        }
    }
}

} // verus!
