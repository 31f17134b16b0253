//! How the server and a client agree on the client's identity.
//!
//! The server answers the first datagram of a new address with an identity.  The client
//! stores the identity, confirms it, and only from then on takes part in the game.  Until
//! then it reads nothing but the server's acknowledgement.
use vstd::prelude::*;
use crate::address::SocketAddress;
use crate::message::{encode, serialize, Message};
use crate::player::{PlayerId, Players};
use crate::raw_message::Datagram;
use crate::transport::Transport;

verus! {

/// How far a client has got with the handshake.  It never goes back to `Initial`.
#[derive(Debug, PartialEq, Eq, Clone, Copy, Structural)]
pub enum ConnectionStatus {
    /// The client waits for the server to assign it an identity.
    Initial,
    /// The client has an identity and has confirmed it.
    Complete,
}

/// The datagram that carries `message` to `destination`.
pub open spec fn datagram_of(destination: SocketAddress, message: Message) -> Datagram {
    Datagram { destination, payload: encode(message) }
}

/// Whether `i` is where the first acknowledgement of the server stands among `messages`,
/// or their number if there is none.
pub open spec fn is_first_acknowledgement(messages: Seq<Message>, i: int) -> bool {
    &&& 0 <= i <= messages.len()
    &&& i < messages.len() ==> messages[i] is ServerAcknowledgement
    &&& forall|j: int| 0 <= j < i ==> !(#[trigger] messages[j] is ServerAcknowledgement)
}

/// Where the first acknowledgement of the server stands among `messages`, or their number
/// if there is none.
pub open spec fn first_acknowledgement(messages: Seq<Message>) -> int {
    choose|i: int| is_first_acknowledgement(messages, i)
}

/// The first acknowledgement stands at one index only.
pub proof fn lemma_first_acknowledgement(messages: Seq<Message>, i: int)
    requires
        is_first_acknowledgement(messages, i),
    ensures
        first_acknowledgement(messages) == i,
{
    let f = first_acknowledgement(messages);
    assert(is_first_acknowledgement(messages, f));
    if f < i {
        assert(!(messages[f] is ServerAcknowledgement));
    } else if i < f {
        assert(!(messages[i] is ServerAcknowledgement));
    }
}

/// From an index before which there is no acknowledgement, a first one is found, or
/// the end.
proof fn lemma_first_acknowledgement_from(messages: Seq<Message>, i: int)
    requires
        0 <= i <= messages.len(),
        forall|j: int| 0 <= j < i ==> !(#[trigger] messages[j] is ServerAcknowledgement),
    ensures
        exists|k: int| is_first_acknowledgement(messages, k),
    decreases messages.len() - i,
{
    if i < messages.len() && !(messages[i] is ServerAcknowledgement) {
        lemma_first_acknowledgement_from(messages, i + 1);
    } else {
        assert(is_first_acknowledgement(messages, i));
    }
}

/// Among any messages there is a place for the first acknowledgement of the server.
pub proof fn lemma_first_acknowledgement_exists(messages: Seq<Message>)
    ensures
        is_first_acknowledgement(messages, first_acknowledgement(messages)),
{
    lemma_first_acknowledgement_from(messages, 0);
}

/// Sends `handle` the identity `player_id`.
pub fn offer_identity(handle: &SocketAddress, player_id: PlayerId, transport: &mut Transport)
    ensures
        final(transport)@ == old(transport)@.push(
            datagram_of(*handle, Message::ServerAcknowledgement(player_id)),
        ),
{
    let message = Message::ServerAcknowledgement(player_id);
    transport.send(*handle, serialize(message).as_ref());
}

/// The server's part: draws an identity for the client at `handle` and sends it there.
/// The identity is drawn at random, so the contract speaks of some identity.
pub fn server_handshake(handle: &SocketAddress, transport: &mut Transport)
    ensures
        exists|player_id: PlayerId|
            final(transport)@ == old(transport)@.push(
                #[trigger] datagram_of(*handle, Message::ServerAcknowledgement(player_id)),
            ),
{
    // Generate player id for client
    let player_id: PlayerId = Players::generate_id();
    // Send client this id
    offer_identity(handle, player_id, transport);
}

/// The client's part: takes the identity that the server assigned, completes the
/// handshake and confirms the identity to the server.
pub fn client_handshake(
    assigned_player_id: &PlayerId,
    server: SocketAddress,
    transport: &mut Transport,
    local_player_id: &mut PlayerId,
    connection_status: &mut ConnectionStatus,
)
    ensures
        *final(local_player_id) == *assigned_player_id,
        *final(connection_status) == ConnectionStatus::Complete,
        final(transport)@ == old(transport)@.push(
            datagram_of(server, Message::ClientAcknowledgement(*assigned_player_id)),
        ),
{
    *local_player_id = *assigned_player_id;
    *connection_status = ConnectionStatus::Complete;
    let message = Message::ClientAcknowledgement(*assigned_player_id);
    transport.send(server, serialize(message).as_ref());
}

/// Reads `messages` up to the first acknowledgement of the server and, if there is one,
/// performs the client's part of the handshake with it.  Every other message read is
/// ignored.  The result is the number of messages read.
pub fn listen_handshake_events(
    messages: &[Message],
    server: SocketAddress,
    transport: &mut Transport,
    local_player_id: &mut PlayerId,
    connection_status: &mut ConnectionStatus,
) -> (read: usize)
    ensures
        is_first_acknowledgement(messages@, first_acknowledgement(messages@)),
        first_acknowledgement(messages@) == messages@.len() ==> {
            &&& read == messages@.len()
            &&& *final(local_player_id) == *old(local_player_id)
            &&& *final(connection_status) == *old(connection_status)
            &&& final(transport)@ == old(transport)@
        },
        first_acknowledgement(messages@) < messages@.len() ==> {
            &&& read == first_acknowledgement(messages@) + 1
            &&& messages@[first_acknowledgement(messages@)]
                == Message::ServerAcknowledgement(*final(local_player_id))
            &&& *final(connection_status) == ConnectionStatus::Complete
            &&& final(transport)@ == old(transport)@.push(
                datagram_of(server, Message::ClientAcknowledgement(*final(local_player_id))),
            )
        },
{
    let mut i: usize = 0;
    while i < messages.len()
        invariant
            i <= messages@.len(),
            forall|j: int| 0 <= j < i ==> !(#[trigger] messages@[j] is ServerAcknowledgement),
            *local_player_id == *old(local_player_id),
            *connection_status == *old(connection_status),
            transport@ == old(transport)@,
        decreases messages@.len() - i,
    {
        match messages[i] {
            Message::ServerAcknowledgement(id) => {
                proof {
                    lemma_first_acknowledgement(messages@, i as int);
                }
                client_handshake(&id, server, transport, local_player_id, connection_status);
                return i + 1;
            },
            _ => (),
        }
        i += 1;
    }
    proof {
        lemma_first_acknowledgement(messages@, i as int);
    }
    i
}

} // verus!
