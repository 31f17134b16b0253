//! The datagram socket as the crate sees it, and an in-memory socket for trying the
//! protocol without a network.
use vstd::prelude::*;
use std::io::ErrorKind;
use crate::address::SocketAddress;

verus! {

/// Why a call on a socket gave nothing.
#[derive(Debug, Clone, Copy, PartialEq, Eq)]
pub enum SocketError {
    /// Nothing waits to be read.  This is the ordinary end of a batch, not a fault.
    WouldBlock,
    /// The peer cannot be reached any more.
    ConnectionReset,
    /// Any other fault, as the operating system names it.
    Other(ErrorKind),
}

/// A datagram socket that never blocks.  Nothing is promised of what an implementation
/// answers: the functions of this crate are proved for every answer.
pub trait SocketLike: Send + Sync {
    /// The address that the socket is connected to.
    fn peer_addr(&self) -> Result<SocketAddress, SocketError>;

    /// Takes the next waiting datagram: writes its bytes to the front of `buf` and
    /// returns their number and the sender.
    fn recv_from(&mut self, buf: &mut [u8]) -> Result<(usize, SocketAddress), SocketError>;

    /// Sends the bytes of `buf` to `addr` as one datagram and returns their number.
    fn send_to(&mut self, buf: &[u8], addr: SocketAddress) -> Result<usize, SocketError>;
}

/// The model of a datagram that lies in an in-memory socket: its bytes and the other
/// end, which is the sender of a received datagram and the destination of a sent one.
pub struct Packet {
    pub payload: Seq<u8>,
    pub addr: SocketAddress,
}

/// The packets that a sequence of stored datagrams stands for.
pub open spec fn packets(stored: Seq<(Vec<u8>, SocketAddress)>) -> Seq<Packet> {
    stored.map_values(|d: (Vec<u8>, SocketAddress)| Packet { payload: d.0@, addr: d.1 })
}

/// What `buf` holds after the first `n` bytes of `payload` were written to its front.
pub open spec fn filled(buf: Seq<u8>, payload: Seq<u8>, n: int) -> Seq<u8>
    recommends
        0 <= n <= buf.len(),
        n <= payload.len(),
{
    payload.take(n) + buf.skip(n)
}

/// How many bytes of a datagram fit a buffer.
pub open spec fn fitting(payload_len: nat, buf_len: nat) -> nat {
    if payload_len <= buf_len {
        payload_len
    } else {
        buf_len
    }
}

/// A socket that lives in memory: it hands out the datagrams that were put into it
/// beforehand, in their order, and keeps what is sent through it.
#[derive(Debug)]
pub struct SocketTest {
    peer: SocketAddress,
    inbox: Vec<(Vec<u8>, SocketAddress)>,
    outbox: Vec<(Vec<u8>, SocketAddress)>,
}

impl SocketTest {
    /// The address that the socket is connected to.
    pub closed spec fn peer(&self) -> SocketAddress {
        self.peer
    }

    /// The datagrams that wait to be received, the next one first.
    pub closed spec fn inbox(&self) -> Seq<Packet> {
        packets(self.inbox@)
    }

    /// The datagrams that were sent, the oldest first.
    pub closed spec fn outbox(&self) -> Seq<Packet> {
        packets(self.outbox@)
    }

    /// A socket connected to `peer`, with nothing to receive and nothing sent.
    pub fn new(peer: SocketAddress) -> (r: SocketTest)
        ensures
            r.peer() == peer,
            r.inbox() == Seq::<Packet>::empty(),
            r.outbox() == Seq::<Packet>::empty(),
    {
        let r = SocketTest { peer, inbox: Vec::new(), outbox: Vec::new() };
        assert(r.inbox() =~= Seq::<Packet>::empty());
        assert(r.outbox() =~= Seq::<Packet>::empty());
        r
    }

    /// Puts a datagram from `from` behind those that wait to be received.
    pub fn deliver(&mut self, payload: Vec<u8>, from: SocketAddress)
        ensures
            final(self).peer() == old(self).peer(),
            final(self).outbox() == old(self).outbox(),
            final(self).inbox() == old(self).inbox().push(Packet { payload: payload@, addr: from }),
    {
        proof {
            self.inbox@.lemma_push_map_commute(
                |d: (Vec<u8>, SocketAddress)| Packet { payload: d.0@, addr: d.1 },
                (payload, from),
            );
        }
        self.inbox.push((payload, from));
    }

    /// How many datagrams were sent.
    pub fn sent_len(&self) -> (n: usize)
        ensures
            n == self.outbox().len(),
    {
        self.outbox.len()
    }

    /// The bytes and the destination of the `i`-th datagram sent.
    pub fn sent(&self, i: usize) -> (r: (&Vec<u8>, SocketAddress))
        requires
            i < self.outbox().len(),
        ensures
            r.0@ == self.outbox()[i as int].payload,
            r.1 == self.outbox()[i as int].addr,
    {
        (&self.outbox[i].0, self.outbox[i].1)
    }
}

impl SocketLike for SocketTest {
    /// The address that the socket is connected to; an in-memory socket always has one.
    fn peer_addr(&self) -> (r: Result<SocketAddress, SocketError>)
        ensures
            r == Ok::<SocketAddress, SocketError>(self.peer()),
    {
        Ok(self.peer)
    }

    /// Takes the next waiting datagram.  Without one, the answer is `WouldBlock` and
    /// nothing changes.  A datagram longer than `buf` is cut to the length of `buf`, as
    /// a datagram socket does.
    fn recv_from(&mut self, buf: &mut [u8]) -> (r: Result<(usize, SocketAddress), SocketError>)
        ensures
            final(self).peer() == old(self).peer(),
            final(self).outbox() == old(self).outbox(),
            old(self).inbox().len() == 0 ==> {
                &&& r == Err::<(usize, SocketAddress), SocketError>(SocketError::WouldBlock)
                &&& final(self).inbox() == old(self).inbox()
                &&& final(buf)@ == old(buf)@
            },
            old(self).inbox().len() > 0 ==> {
                &&& r == Ok::<(usize, SocketAddress), SocketError>(
                    (
                        fitting(old(self).inbox()[0].payload.len(), old(buf)@.len()) as usize,
                        old(self).inbox()[0].addr,
                    ),
                )
                &&& final(self).inbox() == old(self).inbox().drop_first()
                &&& final(buf)@ == filled(
                    old(buf)@,
                    old(self).inbox()[0].payload,
                    fitting(old(self).inbox()[0].payload.len(), old(buf)@.len()) as int,
                )
            },
    {
        if self.inbox.len() == 0 {
            return Err(SocketError::WouldBlock);
        }
        let (payload, addr) = self.inbox.remove(0);
        assert(self.inbox() =~= old(self).inbox().drop_first());
        let size: usize = if payload.len() <= buf.len() {
            payload.len()
        } else {
            buf.len()
        };
        let mut i: usize = 0;
        while i < size
            invariant
                i <= size,
                size <= payload@.len(),
                size <= buf@.len(),
                buf@.len() == old(buf)@.len(),
                buf@ == filled(old(buf)@, payload@, i as int),
            decreases size - i,
        {
            buf[i] = payload[i];
            assert(buf@ =~= filled(old(buf)@, payload@, i + 1));
            i += 1;
        }
        Ok((size, addr))
    }

    /// Keeps a copy of the datagram; an in-memory socket sends without fault.
    fn send_to(&mut self, buf: &[u8], addr: SocketAddress) -> (r: Result<usize, SocketError>)
        ensures
            r == Ok::<usize, SocketError>(buf@.len() as usize),
            final(self).peer() == old(self).peer(),
            final(self).inbox() == old(self).inbox(),
            final(self).outbox() == old(self).outbox().push(Packet { payload: buf@, addr }),
    {
        let mut copy: Vec<u8> = Vec::new();
        let mut i: usize = 0;
        while i < buf.len()
            invariant
                i <= buf@.len(),
                copy@ == buf@.take(i as int),
            decreases buf@.len() - i,
        {
            copy.push(buf[i]);
            assert(buf@.take(i + 1) =~= buf@.take(i as int).push(buf@[i as int]));
            i += 1;
        }
        assert(buf@.take(i as int) =~= buf@);
        proof {
            self.outbox@.lemma_push_map_commute(
                |d: (Vec<u8>, SocketAddress)| Packet { payload: d.0@, addr: d.1 },
                (copy, addr),
            );
        }
        self.outbox.push((copy, addr));
        Ok(buf.len())
    }
}

} // verus!
