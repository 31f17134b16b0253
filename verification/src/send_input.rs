//! Telling the server which movement keys the player holds down.
use vstd::prelude::*;
use crate::address::SocketAddress;
use crate::handshake::datagram_of;
use crate::message::{serialize, Message};
use crate::transport::Transport;

verus! {

/// Queues for the server, at `server`, the state of the four movement keys.
pub fn send_player_input(
    server: SocketAddress,
    w: bool,
    s: bool,
    a: bool,
    d: bool,
    transport: &mut Transport,
)
    ensures
        final(transport)@ == old(transport)@.push(
            datagram_of(server, Message::NetworkInput { w, s, a, d }),
        ),
{
    transport.send(server, serialize(Message::NetworkInput { w, s, a, d }).as_ref());
}

} // verus!
