//! The outbound queue: what was handed over for sending and has not been sent yet.
use vstd::prelude::*;
use crate::address::SocketAddress;
use crate::raw_message::{datagrams, Datagram, RawMessage};

verus! {

/// The entries of `s` whose mark in `chosen` is `want`, in order.
pub open spec fn pick<T>(s: Seq<T>, chosen: Seq<bool>, want: bool) -> Seq<T>
    recommends
        chosen.len() == s.len(),
    decreases s.len(),
{
    if s.len() == 0 || chosen.len() != s.len() {
        Seq::empty()
    } else {
        let rest = pick(s.drop_last(), chosen.drop_last(), want);
        if chosen.last() == want {
            rest.push(s.last())
        } else {
            rest
        }
    }
}

/// Whether `chosen` holds, for each message of the queue, an answer that `filter` may give
/// for it.
pub open spec fn is_selection<F: Fn(&RawMessage) -> bool>(
    filter: F,
    queue: Seq<RawMessage>,
    chosen: Seq<bool>,
) -> bool {
    &&& chosen.len() == queue.len()
    &&& forall|i: int|
        0 <= i < queue.len() ==> call_ensures(filter, (&#[trigger] queue[i],), chosen[i])
}

/// Where every entry is marked, the marked entries are all of them and none is left.
pub proof fn lemma_pick_all<T>(s: Seq<T>, chosen: Seq<bool>)
    requires
        chosen.len() == s.len(),
        forall|i: int| 0 <= i < chosen.len() ==> #[trigger] chosen[i],
    ensures
        pick(s, chosen, true) == s,
        pick(s, chosen, false) == Seq::<T>::empty(),
    decreases s.len(),
{
    if s.len() > 0 {
        lemma_pick_all(s.drop_last(), chosen.drop_last());
        assert(chosen.last());
        assert(s.drop_last().push(s.last()) =~= s);
    }
}

/// The queue of outgoing messages.  Messages leave it in the order in which they came.
#[derive(Debug)]
pub struct Transport {
    messages: Vec<RawMessage>,
}

impl View for Transport {
    type V = Seq<Datagram>;

    /// The datagrams that wait in the queue, the oldest first.
    closed spec fn view(&self) -> Seq<Datagram> {
        datagrams(self.messages@)
    }
}

impl Transport {
    /// The messages that wait in the queue, the oldest first.
    pub closed spec fn queue(&self) -> Seq<RawMessage> {
        self.messages@
    }

    /// The view of the queue is the datagrams of its messages.
    pub proof fn lemma_view(&self)
        ensures
            self@ == datagrams(self.queue()),
    {
    }

    /// An empty queue.
    pub fn new() -> (r: Transport)
        ensures
            r@ == Seq::<Datagram>::empty(),
            r.queue() == Seq::<RawMessage>::empty(),
    {
        let r = Transport { messages: Vec::new() };
        assert(r@ =~= Seq::<Datagram>::empty());
        r
    }

    /// The number of messages that wait.
    pub fn len(&self) -> (n: usize)
        ensures
            n == self@.len(),
    {
        self.messages.len()
    }

    /// Puts a copy of `payload` at the end of the queue, to be sent to `destination`.
    pub fn send(&mut self, destination: SocketAddress, payload: &[u8])
        ensures
            final(self)@ == old(self)@.push(Datagram { destination, payload: payload@ }),
    {
        let message = RawMessage::new(destination, payload);
        proof {
            self.messages@.lemma_push_map_commute(|m: RawMessage| m@, message);
        }
        self.messages.push(message);
    }

    /// Takes out of the queue every message for which `filter` answers `true` and returns
    /// them in the order in which they were queued; the others stay, in their order.
    pub fn drain_messages_to_send<F: Fn(&RawMessage) -> bool>(&mut self, filter: F) -> (drained:
        Vec<RawMessage>)
        requires
            forall|m: RawMessage| call_requires(filter, (&m,)),
        ensures
            exists|chosen: Seq<bool>|
                {
                    &&& #[trigger] is_selection(filter, old(self).queue(), chosen)
                    &&& drained@ == pick(old(self).queue(), chosen, true)
                    &&& final(self).queue() == pick(old(self).queue(), chosen, false)
                },
    {
        let mut queued: Vec<RawMessage> = Vec::new();
        core::mem::swap(&mut self.messages, &mut queued);
        let mut drained: Vec<RawMessage> = Vec::new();
        let ghost mut chosen: Seq<bool> = Seq::empty();
        for message in it: queued
            invariant
                it.seq() == queued@,
                queued@ == old(self).messages@,
                forall|m: RawMessage| call_requires(filter, (&m,)),
                is_selection(filter, queued@.take(it.index() as int), chosen),
                drained@ == pick(queued@.take(it.index() as int), chosen, true),
                self.messages@ == pick(queued@.take(it.index() as int), chosen, false),
        {
            let ghost seen = queued@.take(it.index() as int);
            let take_it = filter(&message);
            proof {
                let next = seen.push(message);
                assert(queued@.take(it.index() + 1) =~= next);
                assert(next.drop_last() =~= seen);
                assert(chosen.push(take_it).drop_last() =~= chosen);
                chosen = chosen.push(take_it);
            }
            if take_it {
                drained.push(message);
            } else {
                self.messages.push(message);
            }
        }
        proof {
            assert(queued@.take(queued@.len() as int) =~= queued@);
            assert(is_selection(filter, old(self).queue(), chosen));
        }
        drained
    }
}

} // verus!
