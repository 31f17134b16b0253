//! Player identities and the registry of connected players.
use vstd::prelude::*;
use crate::address::SocketAddress;
use crate::trusted::random_byte;
use crate::assoc::{
    keys_distinct, lemma_index_of_key, lemma_put, lemma_without, put, values, without,
};

verus! {

/// The identity that the server assigns to a connected player.
#[derive(PartialEq, Eq, Debug, Hash, Clone, Copy, Structural)]
pub struct PlayerId(pub u8);

/// The test that an entry of the table is not the player `excluded`.
pub open spec fn is_other_player(excluded: PlayerId) -> spec_fn((PlayerId, SocketAddress)) -> bool {
    |e: (PlayerId, SocketAddress)| e.0 != excluded
}

/// The addresses of the players other than `excluded`, in the order of the table.
pub open spec fn addresses_except(
    s: Seq<(PlayerId, SocketAddress)>,
    excluded: PlayerId,
) -> Seq<SocketAddress> {
    values(s.filter(is_other_player(excluded)))
}

/// Whether some player of the table is reached at `addr`.
pub open spec fn has_address(s: Seq<(PlayerId, SocketAddress)>, addr: SocketAddress) -> bool {
    exists|i: int| 0 <= i < s.len() && (#[trigger] s[i]).1 == addr
}

/// Whether `i` is the index of the first player of the table that is reached at `addr`.
pub open spec fn is_first_at_address(
    s: Seq<(PlayerId, SocketAddress)>,
    addr: SocketAddress,
    i: int,
) -> bool {
    &&& 0 <= i < s.len()
    &&& s[i].1 == addr
    &&& forall|j: int| 0 <= j < i ==> (#[trigger] s[j]).1 != addr
}

/// The index of the first player of the table that is reached at `addr`.
pub open spec fn first_at_address(s: Seq<(PlayerId, SocketAddress)>, addr: SocketAddress) -> int
    recommends
        has_address(s, addr),
{
    choose|i: int| is_first_at_address(s, addr, i)
}

/// The first player at a given address stands at one index only.
pub proof fn lemma_first_at_address(s: Seq<(PlayerId, SocketAddress)>, addr: SocketAddress, i: int)
    requires
        is_first_at_address(s, addr, i),
    ensures
        has_address(s, addr),
        first_at_address(s, addr) == i,
{
    let f = first_at_address(s, addr);
    assert(is_first_at_address(s, addr, f));
    if f < i {
        assert(s[f].1 != addr);
    } else if i < f {
        assert(s[i].1 != addr);
    }
}

/// Below an index that holds the address `addr` there is a first such index.
proof fn lemma_first_at_address_below(s: Seq<(PlayerId, SocketAddress)>, addr: SocketAddress, k: int)
    requires
        0 <= k < s.len(),
        s[k].1 == addr,
    ensures
        exists|i: int| is_first_at_address(s, addr, i),
    decreases k,
{
    if exists|j: int| 0 <= j < k && (#[trigger] s[j]).1 == addr {
        let j = choose|j: int| 0 <= j < k && (#[trigger] s[j]).1 == addr;
        lemma_first_at_address_below(s, addr, j);
    } else {
        assert(is_first_at_address(s, addr, k));
    }
}

/// Where some player is reached at an address, there is a first such player.
pub proof fn lemma_first_at_address_exists(s: Seq<(PlayerId, SocketAddress)>, addr: SocketAddress)
    requires
        has_address(s, addr),
    ensures
        is_first_at_address(s, addr, first_at_address(s, addr)),
{
    let k = choose|i: int| 0 <= i < s.len() && (#[trigger] s[i]).1 == addr;
    lemma_first_at_address_below(s, addr, k);
}

/// The connected players: which identity is reached at which address.
///
/// The model is the sequence of `(identity, address)` pairs in the order in which the
/// identities were first added; no identity stands in it twice.
#[derive(Debug)]
pub struct Players {
    players: Vec<(PlayerId, SocketAddress)>,
}

impl View for Players {
    type V = Seq<(PlayerId, SocketAddress)>;

    closed spec fn view(&self) -> Seq<(PlayerId, SocketAddress)> {
        self.players@
    }
}

impl Players {
    /// What holds of every registry: no identity stands in it twice.
    pub open spec fn wf(&self) -> bool {
        keys_distinct(self@)
    }

    /// A registry without players.
    pub fn new() -> (r: Players)
        ensures
            r.wf(),
            r@ == Seq::<(PlayerId, SocketAddress)>::empty(),
    {
        Players { players: Vec::new() }
    }

    /// The number of connected players.
    pub fn len(&self) -> (n: usize)
        ensures
            n == self@.len(),
    {
        self.players.len()
    }

    /// The addresses of the connected players, in the order of the registry.
    pub fn addresses(&self) -> (r: Vec<SocketAddress>)
        ensures
            r@ == values(self@),
    {
        let mut out: Vec<SocketAddress> = Vec::new();
        let mut i: usize = 0;
        while i < self.players.len()
            invariant
                i <= self.players@.len(),
                out@ == values(self.players@.take(i as int)),
            decreases self.players@.len() - i,
        {
            out.push(self.players[i].1);
            proof {
                let seen = self.players@.take(i as int);
                let entry = self.players@[i as int];
                assert(self.players@.take(i + 1) =~= seen.push(entry));
                seen.lemma_push_map_commute(|e: (PlayerId, SocketAddress)| e.1, entry);
            }
            i += 1;
        }
        assert(self.players@.take(i as int) =~= self.players@);
        out
    }

    /// The addresses of every connected player but `excluded_id`, in the order of the
    /// registry.
    pub fn for_all_except(&self, excluded_id: PlayerId) -> (r: Vec<SocketAddress>)
        ensures
            r@ == addresses_except(self@, excluded_id),
    {
        let mut out: Vec<SocketAddress> = Vec::new();
        let mut i: usize = 0;
        while i < self.players.len()
            invariant
                i <= self.players@.len(),
                out@ == addresses_except(self.players@.take(i as int), excluded_id),
            decreases self.players@.len() - i,
        {
            if self.players[i].0 != excluded_id {
                out.push(self.players[i].1);
            }
            proof {
                let seen = self.players@.take(i as int);
                let entry = self.players@[i as int];
                assert(self.players@.take(i + 1) =~= seen.push(entry));
                seen.lemma_filter_push(entry, is_other_player(excluded_id));
                seen.filter(is_other_player(excluded_id)).lemma_push_map_commute(
                    |e: (PlayerId, SocketAddress)| e.1,
                    entry,
                );
            }
            i += 1;
        }
        assert(self.players@.take(i as int) =~= self.players@);
        out
    }

    /// Records that `id` is reached at `addr`.  An identity that is already connected
    /// keeps its place and gets the new address.
    pub fn add_player(&mut self, id: PlayerId, addr: SocketAddress)
        requires
            old(self).wf(),
        ensures
            final(self).wf(),
            final(self)@ == put(old(self)@, id, addr),
    {
        proof {
            lemma_put(self.players@, id, addr);
        }
        let mut i: usize = 0;
        while i < self.players.len()
            invariant
                i <= self.players@.len(),
                self.players@ == old(self).players@,
                keys_distinct(self.players@),
                forall|j: int| 0 <= j < i ==> (#[trigger] self.players@[j]).0 != id,
            decreases self.players@.len() - i,
        {
            if self.players[i].0 == id {
                proof {
                    lemma_index_of_key(self.players@, id, i as int);
                }
                self.players[i] = (id, addr);
                return ;
            }
            i += 1;
        }
        self.players.push((id, addr));
    }

    /// A player identity drawn at random.
    pub fn generate_id() -> PlayerId {
        PlayerId(random_byte())
    }

    /// Forgets the player `id`, if it is connected.
    pub fn remove_player(&mut self, id: PlayerId)
        requires
            old(self).wf(),
        ensures
            final(self).wf(),
            final(self)@ == without(old(self)@, id),
    {
        proof {
            lemma_without(self.players@, id);
        }
        let mut i: usize = 0;
        while i < self.players.len()
            invariant
                i <= self.players@.len(),
                self.players@ == old(self).players@,
                keys_distinct(self.players@),
                forall|j: int| 0 <= j < i ==> (#[trigger] self.players@[j]).0 != id,
            decreases self.players@.len() - i,
        {
            if self.players[i].0 == id {
                proof {
                    lemma_index_of_key(self.players@, id, i as int);
                }
                self.players.remove(i);
                return ;
            }
            i += 1;
        }
    }

    /// The first player of the registry that is reached at `addr`.
    pub fn player_from_socket(&self, addr: SocketAddress) -> (r: Option<PlayerId>)
        ensures
            r is Some <==> has_address(self@, addr),
            r matches Some(id) ==> id == self@[first_at_address(self@, addr)].0,
    {
        let mut i: usize = 0;
        while i < self.players.len()
            invariant
                i <= self.players@.len(),
                forall|j: int| 0 <= j < i ==> (#[trigger] self.players@[j]).1 != addr,
            decreases self.players@.len() - i,
        {
            if self.players[i].1 == addr {
                proof {
                    lemma_first_at_address(self.players@, addr, i as int);
                }
                return Some(self.players[i].0);
            }
            i += 1;
        }
        None
    }
}

impl Default for Players {
    /// A registry without players.
    fn default() -> (r: Self)
        ensures
            r.wf(),
            r@ == Seq::<(PlayerId, SocketAddress)>::empty(),
    {
        Players::new()
    }
}

} // verus!
