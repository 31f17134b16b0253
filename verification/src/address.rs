use vstd::prelude::*;

verus! {

/// The address of a peer: an internet address and a port, held as plain integers.
///
/// Two addresses are the same peer exactly when they are the same variant with the same
/// fields, which is how datagram sockets tell their peers apart.
#[derive(Clone, Copy, Debug, PartialEq, Eq, Hash, Structural)]
pub enum SocketAddress {
    /// An IPv4 endpoint; `ip` holds the four octets, the first one in the highest byte.
    V4 { ip: u32, port: u16 },
    /// An IPv6 endpoint; `ip6` holds the sixteen octets, the first one in the highest byte.
    V6 { ip6: u128, port: u16, flowinfo: u32, scope_id: u32 },
}

} // verus!
