//! A payload together with the address that it is meant for.
use vstd::prelude::*;
use bytes::Bytes;
use crate::address::SocketAddress;
use crate::trusted::bytes_view;

verus! {

/// The model of a datagram on its way out: where it goes and the bytes that it carries.
pub struct Datagram {
    pub destination: SocketAddress,
    pub payload: Seq<u8>,
}

/// A serialized message that waits to be sent.
#[derive(Debug, PartialEq, Eq)]
pub struct RawMessage {
    /// The destination to send the message.
    pub destination: SocketAddress,
    /// The serialized payload itself.
    pub payload: Bytes,
}

impl View for RawMessage {
    type V = Datagram;

    open spec fn view(&self) -> Datagram {
        Datagram { destination: self.destination, payload: bytes_view(self.payload) }
    }
}

/// The datagrams that a sequence of messages stands for.
pub open spec fn datagrams(messages: Seq<RawMessage>) -> Seq<Datagram> {
    messages.map_values(|m: RawMessage| m@)
}

impl RawMessage {
    /// A message for `destination` that carries a copy of `payload`.
    pub fn new(destination: SocketAddress, payload: &[u8]) -> (r: RawMessage)
        ensures
            r@ == (Datagram { destination, payload: payload@ }),
    {
        RawMessage { destination, payload: Bytes::copy_from_slice(payload) }
    }
}

} // verus!
