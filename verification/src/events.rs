//! What the socket layer reports to the rest of the crate.
use vstd::prelude::*;
use crate::address::SocketAddress;
use crate::message::Message;
use crate::raw_message::RawMessage;
use crate::socket::SocketError;

verus! {

/// One thing that happened on the socket.
#[derive(Debug, PartialEq, Eq)]
pub enum NetworkEvent {
    /// A message was received from a peer.
    RawMessage(SocketAddress, Message),
    /// A peer was heard of for the first time.
    Connected(SocketAddress),
    /// A peer is gone.
    Disconnected(SocketAddress),
    /// Receiving failed.
    RecvError(SocketError),
    /// Sending a message failed.
    SendError(SocketError, RawMessage),
}

} // verus!
