//! The steps that the host loop runs once per tick: reading what the socket has, sending
//! what the queue holds, sweeping out idle connections, and keeping the connection alive.
//!
//! Reading is written as one step per answer of the socket, because how many datagrams
//! wait is for the network to say: the host loop calls the socket, hands the answer to
//! the step, and goes on for as long as the step says that there may be more.
use vstd::prelude::*;
use bytes::Bytes;
use crate::address::SocketAddress;
use crate::assoc::{
    has_key, index_of_key, keys, keys_distinct, lemma_filter_has_key, lemma_filter_keys_distinct,
    lemma_keys_no_duplicates, put, value_of,
};
use crate::counting::{
    lemma_occurrences_absent, lemma_occurrences_map, lemma_occurrences_once, occurrences,
};
use crate::events::NetworkEvent;
use crate::liveness::{
    elapsed_after, finishes, is_expired, still_alive, timed_out, HeartbeatTimer, NetworkResource,
};
use crate::message::{decode, deserialize};
use crate::raw_message::{datagrams, Datagram, RawMessage};
use crate::socket::{fitting, SocketError};
use crate::transport::{is_selection, lemma_pick_all, pick, Transport};

verus! {

/// The bytes of a datagram, given the buffer that it was written to and the length that
/// the socket reported for it.
pub open spec fn received_payload(buf: Seq<u8>, recv_len: usize) -> Seq<u8> {
    buf.take(fitting(recv_len as nat, buf.len()) as int)
}

/// The events that a payload from `from` gives rise to.  The empty payload is a
/// heartbeat and gives none; a payload that does not decode is dropped and gives none.
pub open spec fn payload_events(from: SocketAddress, payload: Seq<u8>) -> Seq<NetworkEvent> {
    if payload.len() == 0 {
        Seq::empty()
    } else {
        match decode(payload) {
            Ok(message) => seq![NetworkEvent::RawMessage(from, message)],
            Err(_) => Seq::empty(),
        }
    }
}

/// The events that a failed read gives rise to.  `peer` is the address that the socket
/// is connected to, if it is connected.
pub open spec fn failure_events(error: SocketError, peer: Option<SocketAddress>) -> Seq<
    NetworkEvent,
> {
    match error {
        SocketError::WouldBlock => Seq::empty(),
        SocketError::ConnectionReset => match peer {
            Some(address) => seq![NetworkEvent::Disconnected(address)],
            None => seq![NetworkEvent::RecvError(error)],
        },
        SocketError::Other(_) => seq![NetworkEvent::RecvError(error)],
    }
}

/// The event that greets an address not heard of before.
pub open spec fn greeting(
    connections: Seq<(SocketAddress, u64)>,
    address: SocketAddress,
) -> Seq<NetworkEvent> {
    if has_key(connections, address) {
        Seq::empty()
    } else {
        seq![NetworkEvent::Connected(address)]
    }
}

/// One `Disconnected` for each address, in order.
pub open spec fn disconnections(addresses: Seq<SocketAddress>) -> Seq<NetworkEvent> {
    addresses.map_values(|a: SocketAddress| NetworkEvent::Disconnected(a))
}

/// Turns a datagram into events.
fn read_payload(from: SocketAddress, buf: &[u8], recv_len: usize, events: &mut Vec<NetworkEvent>)
    ensures
        final(events)@ == old(events)@ + payload_events(from, received_payload(buf@, recv_len)),
{
    let size: usize = if recv_len <= buf.len() {
        recv_len
    } else {
        buf.len()
    };
    let payload = Bytes::copy_from_slice(&buf[0..size]);
    if payload.len() == 0 {
        // a heartbeat: discard without an event
        assert(events@ =~= old(events)@ + Seq::<NetworkEvent>::empty());
        return ;
    }
    match deserialize(payload) {
        Ok(message) => {
            events.push(NetworkEvent::RawMessage(from, message));
            assert(events@ =~= old(events)@ + seq![NetworkEvent::RawMessage(from, message)]);
        },
        Err(_) => {
            assert(events@ =~= old(events)@ + Seq::<NetworkEvent>::empty());
        },
    }
}

/// Turns a failed read into events.
fn read_failure(error: SocketError, peer: Option<SocketAddress>, events: &mut Vec<NetworkEvent>)
    ensures
        final(events)@ == old(events)@ + failure_events(error, peer),
{
    match error {
        SocketError::WouldBlock => {
            assert(events@ =~= old(events)@ + Seq::<NetworkEvent>::empty());
        },
        SocketError::ConnectionReset => match peer {
            Some(address) => {
                events.push(NetworkEvent::Disconnected(address));
                assert(events@ =~= old(events)@ + seq![NetworkEvent::Disconnected(address)]);
            },
            None => {
                events.push(NetworkEvent::RecvError(error));
                assert(events@ =~= old(events)@ + seq![NetworkEvent::RecvError(error)]);
            },
        },
        SocketError::Other(_) => {
            events.push(NetworkEvent::RecvError(error));
            assert(events@ =~= old(events)@ + seq![NetworkEvent::RecvError(error)]);
        },
    }
}

/// One step of the client's reading: what the socket answered becomes events.
///
/// `received` is the answer of `recv_from`, `buf` the buffer that it wrote to, and `peer`
/// the address that the socket is connected to, if it is connected.  A datagram with a
/// message gives a `RawMessage`; a heartbeat or a payload that does not decode gives
/// nothing.  A failed read ends the batch: `WouldBlock` silently, a reset connection as
/// `Disconnected`, anything else as `RecvError`.  The result tells whether to read on.
pub fn client_recv_packet_system(
    received: Result<(usize, SocketAddress), SocketError>,
    buf: &[u8],
    peer: Option<SocketAddress>,
    events: &mut Vec<NetworkEvent>,
) -> (more: bool)
    ensures
        more == received is Ok,
        final(events)@ == old(events)@ + match received {
            Ok((recv_len, address)) => payload_events(address, received_payload(buf@, recv_len)),
            Err(error) => failure_events(error, peer),
        },
        received matches Ok((recv_len, _)) ==> (recv_len == 0 ==> final(events)@ == old(events)@),
{
    match received {
        Ok((recv_len, address)) => {
            read_payload(address, buf, recv_len, events);
            true
        },
        Err(e) => {
            read_failure(e, peer, events);
            // no messages are left to read this tick
            false
        },
    }
}

/// One step of the server's reading: what the socket answered becomes events, and the
/// sender of a datagram is recorded as heard of at the time `now`.
///
/// Every datagram refreshes the record of its sender, a heartbeat too.  A sender that
/// was not in the record gives a `Connected` before anything else.  The rest is as for
/// the client.
pub fn server_recv_packet_system(
    now: u64,
    received: Result<(usize, SocketAddress), SocketError>,
    buf: &[u8],
    peer: Option<SocketAddress>,
    events: &mut Vec<NetworkEvent>,
    net: &mut NetworkResource,
) -> (more: bool)
    requires
        old(net).wf(),
    ensures
        final(net).wf(),
        final(net).idle_timeout() == old(net).idle_timeout(),
        more == received is Ok,
        final(net).connections() == match received {
            Ok((_, address)) => put(old(net).connections(), address, now),
            Err(_) => old(net).connections(),
        },
        final(events)@ == old(events)@ + match received {
            Ok((recv_len, address)) => greeting(old(net).connections(), address) + payload_events(
                address,
                received_payload(buf@, recv_len),
            ),
            Err(error) => failure_events(error, peer),
        },
        received matches Ok((recv_len, address)) ==> (recv_len == 0 ==> final(events)@ == old(
            events,
        )@ + greeting(old(net).connections(), address)),
{
    match received {
        Ok((recv_len, address)) => {
            if net.touch(address, now) {
                // connection established
                events.push(NetworkEvent::Connected(address));
            }
            let ghost greeted = events@;
            assert(greeted =~= old(events)@ + greeting(old(net).connections(), address));
            read_payload(address, buf, recv_len, events);
            assert(events@ =~= old(events)@ + (greeting(old(net).connections(), address)
                + payload_events(address, received_payload(buf@, recv_len))));
            true
        },
        Err(e) => {
            read_failure(e, peer, events);
            // no messages are left to read this tick
            false
        },
    }
}

/// The filter that lets every message through.
fn every_message(_message: &RawMessage) -> (b: bool)
    ensures
        b,
{
    true
}

/// Takes every message out of the queue for sending, in the order in which they were
/// queued.  The host loop hands each one to the socket, once, and reports how that went
/// with `send_result`.
pub fn send_packet_system(transport: &mut Transport) -> (messages: Vec<RawMessage>)
    ensures
        messages@ == old(transport).queue(),
        datagrams(messages@) == old(transport)@,
        final(transport).queue() == Seq::<RawMessage>::empty(),
        final(transport)@ == Seq::<Datagram>::empty(),
{
    let messages = transport.drain_messages_to_send(every_message);
    proof {
        let chosen = choose|chosen: Seq<bool>|
            {
                &&& #[trigger] is_selection(every_message, old(transport).queue(), chosen)
                &&& messages@ == pick(old(transport).queue(), chosen, true)
                &&& transport.queue() == pick(old(transport).queue(), chosen, false)
            };
        lemma_pick_all(old(transport).queue(), chosen);
        transport.lemma_view();
        old(transport).lemma_view();
        assert(transport@ =~= Seq::<Datagram>::empty());
    }
    messages
}

/// Takes note of how the sending of `message` went: a fault of the socket becomes a
/// `SendError` that carries the message back; a message that was sent leaves no trace.
pub fn send_result(
    outcome: Result<usize, SocketError>,
    message: RawMessage,
    events: &mut Vec<NetworkEvent>,
)
    ensures
        final(events)@ == match outcome {
            Ok(_) => old(events)@,
            Err(error) => old(events)@.push(NetworkEvent::SendError(error, message)),
        },
{
    if let Err(e) = outcome {
        events.push(NetworkEvent::SendError(e, message));
    }
}

/// Sweeps out every connection that has been silent for longer than the idle timeout at
/// the time `now`, and reports each as `Disconnected`, in the order of the record.
pub fn idle_timeout_system(now: u64, net: &mut NetworkResource, events: &mut Vec<NetworkEvent>)
    requires
        old(net).wf(),
    ensures
        final(net).wf(),
        final(net).idle_timeout() == old(net).idle_timeout(),
        final(net).connections() == old(net).connections().filter(
            still_alive(now, old(net).idle_timeout()),
        ),
        final(events)@ == old(events)@ + disconnections(
            keys(old(net).connections().filter(timed_out(now, old(net).idle_timeout()))),
        ),
{
    let evicted = net.evict_idle(now);
    let mut i: usize = 0;
    while i < evicted.len()
        invariant
            i <= evicted@.len(),
            events@ == old(events)@ + disconnections(evicted@.take(i as int)),
        decreases evicted@.len() - i,
    {
        events.push(NetworkEvent::Disconnected(evicted[i]));
        proof {
            evicted@.take(i as int).lemma_push_map_commute(
                |a: SocketAddress| NetworkEvent::Disconnected(a),
                evicted@[i as int],
            );
            assert(evicted@.take(i + 1) =~= evicted@.take(i as int).push(evicted@[i as int]));
            assert(events@ =~= old(events)@ + disconnections(evicted@.take(i + 1)));
        }
        i += 1;
    }
    assert(evicted@.take(i as int) =~= evicted@);
}

/// Lets `delta` nanoseconds pass on the heartbeat timer and, if the timer finished a
/// round, queues a heartbeat for the server: a datagram without payload.
pub fn auto_heartbeat_system(
    delta: u64,
    timer: &mut HeartbeatTimer,
    remote_addr: &SocketAddress,
    transport: &mut Transport,
)
    ensures
        final(timer).period() == old(timer).period(),
        final(timer).elapsed() == elapsed_after(
            old(timer).period(),
            old(timer).elapsed(),
            delta,
        ),
        final(transport)@ == if finishes(
            old(timer).period(),
            old(timer).elapsed(),
            delta,
        ) {
            old(transport)@.push(Datagram { destination: *remote_addr, payload: Seq::empty() })
        } else {
            old(transport)@
        },
{
    if timer.tick(delta) {
        let empty: Vec<u8> = Vec::new();
        transport.send(*remote_addr, empty.as_slice());
    }
}

/// Heartbeat distinction.  A datagram without payload gives rise to no event, and no
/// payload whatever gives rise to a `RecvError`: whatever a payload gives rise to is a
/// `RawMessage`.
pub proof fn lemma_heartbeat_distinction(from: SocketAddress, buf: Seq<u8>, payload: Seq<u8>)
    ensures
        received_payload(buf, 0) == Seq::<u8>::empty(),
        payload_events(from, Seq::<u8>::empty()) == Seq::<NetworkEvent>::empty(),
        forall|i: int|
            0 <= i < payload_events(from, payload).len() ==> #[trigger] payload_events(
                from,
                payload,
            )[i] is RawMessage,
{
}

/// Idle timeout.  In a sweep at the time `now`, a connection that has been silent for
/// longer than the idle timeout leaves the record and is reported as `Disconnected`
/// exactly once; a connection that was heard of within the timeout stays in the record
/// with its time and is not reported.
pub proof fn lemma_idle_timeout(
    connections: Seq<(SocketAddress, u64)>,
    now: u64,
    idle_timeout: u64,
    i: int,
)
    requires
        keys_distinct(connections),
        0 <= i < connections.len(),
    ensures
        ({
            let address = connections[i].0;
            let kept = connections.filter(still_alive(now, idle_timeout));
            let reported = disconnections(keys(connections.filter(timed_out(now, idle_timeout))));
            if is_expired(connections[i].1, now, idle_timeout) {
                &&& !has_key(kept, address)
                &&& occurrences(reported, NetworkEvent::Disconnected(address)) == 1
            } else {
                &&& has_key(kept, address)
                &&& value_of(kept, address) == connections[i].1
                &&& occurrences(reported, NetworkEvent::Disconnected(address)) == 0
            }
        }),
{
    let address = connections[i].0;
    let evicted = connections.filter(timed_out(now, idle_timeout));
    let disconnected = |a: SocketAddress| NetworkEvent::Disconnected(a);
    assert(disconnections(keys(evicted)) =~= keys(evicted).map_values(disconnected));
    assert forall|a: SocketAddress, b: SocketAddress| #[trigger]
        disconnected(a) == #[trigger] disconnected(b) implies a == b by {}
    lemma_occurrences_map(keys(evicted), disconnected, address);
    lemma_filter_has_key(connections, still_alive(now, idle_timeout), i);
    lemma_filter_has_key(connections, timed_out(now, idle_timeout), i);
    lemma_filter_keys_distinct(connections, timed_out(now, idle_timeout));
    lemma_keys_no_duplicates(evicted);
    if is_expired(connections[i].1, now, idle_timeout) {
        let at = index_of_key(evicted, address);
        assert(keys(evicted)[at] == address);
        lemma_occurrences_once(keys(evicted), at);
    } else {
        assert forall|j: int| 0 <= j < keys(evicted).len() implies #[trigger] keys(evicted)[j]
            != address by {
            assert(evicted[j].0 == keys(evicted)[j]);
        }
        lemma_occurrences_absent(keys(evicted), address);
    }
}

} // verus!
