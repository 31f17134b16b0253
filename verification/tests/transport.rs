use game_netcode::address::SocketAddress;
use game_netcode::raw_message::RawMessage;
use game_netcode::transport::Transport;

fn addr(port: u16) -> SocketAddress {
    SocketAddress::V4 { ip: 0x7F00_0001, port }
}

#[test]
fn raw_message_holds_a_copy_of_the_payload() {
    let mut payload = vec![1u8, 2, 3];
    let message = RawMessage::new(addr(1), &payload);
    payload[0] = 9;
    assert_eq!(message.destination, addr(1));
    assert_eq!(message.payload.to_vec(), vec![1u8, 2, 3]);
}

#[test]
fn new_queue_is_empty() {
    let mut transport = Transport::new();
    assert_eq!(transport.len(), 0);
    assert!(transport.drain_messages_to_send(|_| true).is_empty());
}

#[test]
fn messages_leave_in_the_order_they_came() {
    let mut transport = Transport::new();
    transport.send(addr(1), &[1]);
    transport.send(addr(2), &[]);
    transport.send(addr(1), &[3, 3]);
    assert_eq!(transport.len(), 3);
    let drained = transport.drain_messages_to_send(|_| true);
    assert_eq!(transport.len(), 0);
    assert_eq!(drained.len(), 3);
    assert_eq!(drained[0], RawMessage::new(addr(1), &[1]));
    assert_eq!(drained[1], RawMessage::new(addr(2), &[]));
    assert_eq!(drained[2], RawMessage::new(addr(1), &[3, 3]));
}

#[test]
fn draining_with_a_filter_leaves_the_rest() {
    let mut transport = Transport::new();
    transport.send(addr(1), &[1]);
    transport.send(addr(2), &[2]);
    transport.send(addr(1), &[3]);
    transport.send(addr(3), &[4]);
    let to_first = addr(1);
    let drained = transport.drain_messages_to_send(|m| m.destination == to_first);
    assert_eq!(drained.len(), 2);
    assert_eq!(drained[0].payload.to_vec(), vec![1u8]);
    assert_eq!(drained[1].payload.to_vec(), vec![3u8]);
    assert_eq!(transport.len(), 2);
    let rest = transport.drain_messages_to_send(|_| true);
    assert_eq!(rest[0], RawMessage::new(addr(2), &[2]));
    assert_eq!(rest[1], RawMessage::new(addr(3), &[4]));
}

#[test]
fn draining_nothing_keeps_everything() {
    let mut transport = Transport::new();
    transport.send(addr(1), &[1]);
    transport.send(addr(2), &[2]);
    assert!(transport.drain_messages_to_send(|_| false).is_empty());
    assert_eq!(transport.len(), 2);
}

#[test]
fn a_message_is_drained_only_once() {
    let mut transport = Transport::new();
    transport.send(addr(1), &[1]);
    assert_eq!(transport.drain_messages_to_send(|_| true).len(), 1);
    assert_eq!(transport.drain_messages_to_send(|_| true).len(), 0);
}
