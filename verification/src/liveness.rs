//! Who was heard of, and when: the server's record of live connections, and the timer
//! behind the client's heartbeat.
//!
//! Time is counted in nanoseconds since the host loop started.
use vstd::prelude::*;
use crate::address::SocketAddress;
use crate::assoc::{
    has_key, keys, keys_distinct, lemma_filter_keys_distinct, lemma_index_of_key, lemma_put, put,
    value_of,
};

verus! {

/// How long the server waits for a sign of life before it takes a peer for gone: 5 s.
pub const DEFAULT_IDLE_TIMEOUT: u64 = 5_000_000_000;

/// How often a client sends a heartbeat: every 2 s.  This should be no more than half of
/// the idle timeout.
pub const DEFAULT_HEARTBEAT_TICK_RATE: u64 = 2_000_000_000;

/// Whether a peer last heard of at `last_seen` has been silent for longer than
/// `idle_timeout` at the time `now`.
pub open spec fn is_expired(last_seen: u64, now: u64, idle_timeout: u64) -> bool {
    now - last_seen > idle_timeout
}

/// The test that an entry of the record has been silent for too long.
pub open spec fn timed_out(now: u64, idle_timeout: u64) -> spec_fn((SocketAddress, u64)) -> bool {
    |e: (SocketAddress, u64)| is_expired(e.1, now, idle_timeout)
}

/// The test that an entry of the record has not been silent for too long.
pub open spec fn still_alive(now: u64, idle_timeout: u64) -> spec_fn((SocketAddress, u64)) -> bool {
    |e: (SocketAddress, u64)| !is_expired(e.1, now, idle_timeout)
}

/// The server's record of live connections: when each peer was last heard of.
///
/// The model is the sequence of `(address, time)` pairs in the order in which the
/// addresses were first heard of; no address stands in it twice.
#[derive(Debug)]
pub struct NetworkResource {
    connections: Vec<(SocketAddress, u64)>,
    idle_timeout: u64,
}

impl NetworkResource {
    /// Each live connection and the time of its last known packet activity.
    pub closed spec fn connections(&self) -> Seq<(SocketAddress, u64)> {
        self.connections@
    }

    /// How long a peer may be silent before it is taken for gone.
    pub closed spec fn spec_idle_timeout(&self) -> u64 {
        self.idle_timeout
    }

    /// How long a peer may be silent before it is taken for gone.
    #[verifier::when_used_as_spec(spec_idle_timeout)]
    pub fn idle_timeout(&self) -> (t: u64)
        ensures
            t == self.idle_timeout(),
    {
        self.idle_timeout
    }

    /// What holds of every record: no address stands in it twice.
    pub open spec fn wf(&self) -> bool {
        keys_distinct(self.connections())
    }

    /// A record without connections.
    pub fn new(idle_timeout: u64) -> (r: NetworkResource)
        ensures
            r.wf(),
            r.connections() == Seq::<(SocketAddress, u64)>::empty(),
            r.idle_timeout() == idle_timeout,
    {
        NetworkResource { connections: Vec::new(), idle_timeout }
    }

    /// The number of live connections.
    pub fn len(&self) -> (n: usize)
        ensures
            n == self.connections().len(),
    {
        self.connections.len()
    }

    /// When `addr` was last heard of, if it is a live connection.
    pub fn last_seen(&self, addr: SocketAddress) -> (r: Option<u64>)
        requires
            self.wf(),
        ensures
            r is Some <==> has_key(self.connections(), addr),
            r matches Some(t) ==> t == value_of(self.connections(), addr),
    {
        let mut i: usize = 0;
        while i < self.connections.len()
            invariant
                i <= self.connections@.len(),
                keys_distinct(self.connections@),
                forall|j: int| 0 <= j < i ==> (#[trigger] self.connections@[j]).0 != addr,
            decreases self.connections@.len() - i,
        {
            if self.connections[i].0 == addr {
                proof {
                    lemma_index_of_key(self.connections@, addr, i as int);
                }
                return Some(self.connections[i].1);
            }
            i += 1;
        }
        None
    }

    /// Records that `addr` was heard of at the time `now`.  The result tells whether the
    /// address was not a live connection before.
    pub fn touch(&mut self, addr: SocketAddress, now: u64) -> (is_new: bool)
        requires
            old(self).wf(),
        ensures
            final(self).wf(),
            final(self).idle_timeout() == old(self).idle_timeout(),
            final(self).connections() == put(old(self).connections(), addr, now),
            is_new == !has_key(old(self).connections(), addr),
    {
        proof {
            lemma_put(self.connections@, addr, now);
        }
        let mut i: usize = 0;
        while i < self.connections.len()
            invariant
                i <= self.connections@.len(),
                *self == *old(self),
                keys_distinct(self.connections@),
                forall|j: int| 0 <= j < i ==> (#[trigger] self.connections@[j]).0 != addr,
            decreases self.connections@.len() - i,
        {
            if self.connections[i].0 == addr {
                proof {
                    lemma_index_of_key(self.connections@, addr, i as int);
                }
                self.connections[i] = (addr, now);
                return false;
            }
            i += 1;
        }
        self.connections.push((addr, now));
        true
    }

    /// Takes out of the record every connection that has been silent for longer than the
    /// idle timeout at the time `now`, and returns their addresses in the order of the
    /// record.
    pub fn evict_idle(&mut self, now: u64) -> (evicted: Vec<SocketAddress>)
        requires
            old(self).wf(),
        ensures
            final(self).wf(),
            final(self).idle_timeout() == old(self).idle_timeout(),
            final(self).connections() == old(self).connections().filter(
                still_alive(now, old(self).idle_timeout()),
            ),
            evicted@ == keys(
                old(self).connections().filter(timed_out(now, old(self).idle_timeout())),
            ),
    {
        let idle_timeout = self.idle_timeout;
        let mut evicted: Vec<SocketAddress> = Vec::new();
        let mut kept: Vec<(SocketAddress, u64)> = Vec::new();
        let mut i: usize = 0;
        while i < self.connections.len()
            invariant
                i <= self.connections@.len(),
                *self == *old(self),
                idle_timeout == self.idle_timeout,
                evicted@ == keys(
                    self.connections@.take(i as int).filter(timed_out(now, idle_timeout)),
                ),
                kept@ == self.connections@.take(i as int).filter(still_alive(now, idle_timeout)),
            decreases self.connections@.len() - i,
        {
            let (addr, last_update) = self.connections[i];
            let reached_idle_timeout = now > last_update && now - last_update > idle_timeout;
            if reached_idle_timeout {
                evicted.push(addr);
            } else {
                kept.push((addr, last_update));
            }
            proof {
                let seen = self.connections@.take(i as int);
                let entry = self.connections@[i as int];
                assert(self.connections@.take(i + 1) =~= seen.push(entry));
                seen.lemma_filter_push(entry, timed_out(now, idle_timeout));
                seen.lemma_filter_push(entry, still_alive(now, idle_timeout));
                seen.filter(timed_out(now, idle_timeout)).lemma_push_map_commute(
                    |e: (SocketAddress, u64)| e.0,
                    entry,
                );
            }
            i += 1;
        }
        proof {
            assert(self.connections@.take(i as int) =~= self.connections@);
            lemma_filter_keys_distinct(
                self.connections@,
                still_alive(now, idle_timeout),
            );
        }
        self.connections = kept;
        evicted
    }
}

impl Default for NetworkResource {
    /// A record without connections, with the default idle timeout.
    fn default() -> (r: Self)
        ensures
            r.wf(),
            r.connections() == Seq::<(SocketAddress, u64)>::empty(),
            r.idle_timeout() == DEFAULT_IDLE_TIMEOUT,
    {
        NetworkResource::new(DEFAULT_IDLE_TIMEOUT)
    }
}

/// A timer that finishes once in every period, over and over.
#[derive(Debug)]
pub struct HeartbeatTimer {
    period: u64,
    elapsed: u64,
}

/// The time that a timer of the given period has run into its current round after
/// `delta` more nanoseconds.
pub open spec fn elapsed_after(period: u64, elapsed: u64, delta: u64) -> int {
    if period == 0 {
        0
    } else {
        (elapsed + delta) % (period as int)
    }
}

/// Whether a timer of the given period finishes a round within `delta` more nanoseconds.
/// A timer without a period finishes at every tick.
pub open spec fn finishes(period: u64, elapsed: u64, delta: u64) -> bool {
    period == 0 || elapsed + delta >= period
}

impl HeartbeatTimer {
    /// The length of a round.
    pub closed spec fn period(&self) -> u64 {
        self.period
    }

    /// How far the timer has run into its current round.
    pub closed spec fn elapsed(&self) -> u64 {
        self.elapsed
    }

    /// A timer of the given period that has not run yet.
    pub fn new(period: u64) -> (r: HeartbeatTimer)
        ensures
            r.period() == period,
            r.elapsed() == 0,
    {
        HeartbeatTimer { period, elapsed: 0 }
    }

    /// Lets `delta` nanoseconds pass.  The result tells whether the timer finished a
    /// round in that time; what is left over counts towards the next round.
    pub fn tick(&mut self, delta: u64) -> (just_finished: bool)
        ensures
            final(self).period() == old(self).period(),
            final(self).elapsed() == elapsed_after(old(self).period(), old(self).elapsed(), delta),
            just_finished == finishes(old(self).period(), old(self).elapsed(), delta),
    {
        if self.period == 0 {
            self.elapsed = 0;
            return true;
        }
        let total: u128 = self.elapsed as u128 + delta as u128;
        let just_finished = total >= self.period as u128;
        self.elapsed = (total % (self.period as u128)) as u64;
        just_finished
    }
}

} // verus!
