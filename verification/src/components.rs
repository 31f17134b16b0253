//! Networked objects, the server's table of their positions, and the client's replicas.
use vstd::prelude::*;
use crate::assoc::{
    keys, keys_distinct, lemma_filter_keys_distinct, lemma_index_of_key, lemma_put, lemma_without,
    put, without,
};
use crate::player::PlayerId;
use crate::trusted::random_byte;
use crate::position::Position;

verus! {

/// What kind of thing a networked object is.
#[derive(PartialEq, Eq, Debug, Copy, Clone, Hash, Structural)]
pub enum NetworkObjectType {
    Player,
}

/// One replicated entity: its identifier, the player that controls it and its kind.
///
/// `is_owned` tells the instance that this process controls from a stand-in for an object
/// that another player controls.
#[derive(Debug, Hash, PartialEq, Eq, Clone, Copy, Structural)]
pub struct NetworkObject {
    pub id: u8,
    pub owner: PlayerId,
    pub object_type: NetworkObjectType,
    pub is_owned: bool,
}

impl NetworkObject {
    /// An object identifier drawn at random.
    pub fn generate_id() -> u8 {
        random_byte()
    }
}

/// The test that an entry of the table belongs to the player `owner`.
pub open spec fn is_owned_by(owner: PlayerId) -> spec_fn((NetworkObject, Position)) -> bool {
    |e: (NetworkObject, Position)| e.0.owner == owner
}

/// The test that an entry of the table does not belong to the player `owner`.
pub open spec fn is_not_owned_by(owner: PlayerId) -> spec_fn((NetworkObject, Position)) -> bool {
    |e: (NetworkObject, Position)| e.0.owner != owner
}

/// The objects of the table that belong to `owner`, in the order of the table.
pub open spec fn owned_objects(
    s: Seq<(NetworkObject, Position)>,
    owner: PlayerId,
) -> Seq<NetworkObject> {
    keys(s.filter(is_owned_by(owner)))
}

/// Whether some object of the table has the identifier `id`.
pub open spec fn has_object_id(s: Seq<(NetworkObject, Position)>, id: u8) -> bool {
    exists|i: int| 0 <= i < s.len() && (#[trigger] s[i]).0.id == id
}

/// Whether `i` is the index of the first object of the table with the identifier `id`.
pub open spec fn is_first_with_id(s: Seq<(NetworkObject, Position)>, id: u8, i: int) -> bool {
    &&& 0 <= i < s.len()
    &&& s[i].0.id == id
    &&& forall|j: int| 0 <= j < i ==> (#[trigger] s[j]).0.id != id
}

/// The index of the first object of the table with the identifier `id`.
pub open spec fn first_with_id(s: Seq<(NetworkObject, Position)>, id: u8) -> int
    recommends
        has_object_id(s, id),
{
    choose|i: int| is_first_with_id(s, id, i)
}

/// The table after the first object with the identifier `id` was moved to `position`;
/// a table without such an object stays as it is.
pub open spec fn with_position(
    s: Seq<(NetworkObject, Position)>,
    id: u8,
    position: Position,
) -> Seq<(NetworkObject, Position)> {
    if has_object_id(s, id) {
        s.update(first_with_id(s, id), (s[first_with_id(s, id)].0, position))
    } else {
        s
    }
}

/// The first object with a given identifier stands at one index only.
pub proof fn lemma_first_with_id(s: Seq<(NetworkObject, Position)>, id: u8, i: int)
    requires
        is_first_with_id(s, id, i),
    ensures
        has_object_id(s, id),
        first_with_id(s, id) == i,
{
    let f = first_with_id(s, id);
    assert(is_first_with_id(s, id, f));
    if f < i {
        assert(s[f].0.id != id);
    } else if i < f {
        assert(s[i].0.id != id);
    }
}

/// Below an index that holds the identifier `id` there is a first such index.
proof fn lemma_first_below(s: Seq<(NetworkObject, Position)>, id: u8, k: int)
    requires
        0 <= k < s.len(),
        s[k].0.id == id,
    ensures
        exists|i: int| is_first_with_id(s, id, i),
    decreases k,
{
    if exists|j: int| 0 <= j < k && (#[trigger] s[j]).0.id == id {
        let j = choose|j: int| 0 <= j < k && (#[trigger] s[j]).0.id == id;
        lemma_first_below(s, id, j);
    } else {
        assert(is_first_with_id(s, id, k));
    }
}

/// Where an identifier occurs in the table, it occurs for a first time.
pub proof fn lemma_first_with_id_exists(s: Seq<(NetworkObject, Position)>, id: u8)
    requires
        has_object_id(s, id),
    ensures
        is_first_with_id(s, id, first_with_id(s, id)),
{
    let k = choose|i: int| 0 <= i < s.len() && (#[trigger] s[i]).0.id == id;
    lemma_first_below(s, id, k);
}

/// The server's table of networked objects: where each object was last known to be.
///
/// The model is the sequence of `(object, position)` pairs in the order in which the
/// objects were first put in; no object stands in it twice.
#[derive(Debug)]
pub struct NetworkObjects {
    objects: Vec<(NetworkObject, Position)>,
}

impl View for NetworkObjects {
    type V = Seq<(NetworkObject, Position)>;

    closed spec fn view(&self) -> Seq<(NetworkObject, Position)> {
        self.objects@
    }
}

impl NetworkObjects {
    /// What holds of every table: no object stands in it twice.
    pub open spec fn wf(&self) -> bool {
        keys_distinct(self@)
    }

    /// A table without objects.
    pub fn new() -> (r: NetworkObjects)
        ensures
            r.wf(),
            r@ == Seq::<(NetworkObject, Position)>::empty(),
    {
        NetworkObjects { objects: Vec::new() }
    }

    /// The number of objects.
    pub fn len(&self) -> (n: usize)
        ensures
            n == self@.len(),
    {
        self.objects.len()
    }

    /// The object at index `i` and its position.
    pub fn entry(&self, i: usize) -> (e: (NetworkObject, Position))
        requires
            i < self@.len(),
        ensures
            e == self@[i as int],
    {
        self.objects[i]
    }

    /// Records that `object` is at `position`.  An object that is already in the table
    /// keeps its place and gets the new position.
    pub fn insert(&mut self, object: NetworkObject, position: Position)
        requires
            old(self).wf(),
        ensures
            final(self).wf(),
            final(self)@ == put(old(self)@, object, position),
    {
        proof {
            lemma_put(self.objects@, object, position);
        }
        let mut i: usize = 0;
        while i < self.objects.len()
            invariant
                i <= self.objects@.len(),
                self.objects@ == old(self).objects@,
                keys_distinct(self.objects@),
                forall|j: int| 0 <= j < i ==> (#[trigger] self.objects@[j]).0 != object,
            decreases self.objects@.len() - i,
        {
            if self.objects[i].0 == object {
                proof {
                    lemma_index_of_key(self.objects@, object, i as int);
                }
                self.objects[i] = (object, position);
                return ;
            }
            i += 1;
        }
        self.objects.push((object, position));
    }

    /// Takes `object` out of the table, if it is there.
    pub fn remove(&mut self, object: &NetworkObject)
        requires
            old(self).wf(),
        ensures
            final(self).wf(),
            final(self)@ == without(old(self)@, *object),
    {
        proof {
            lemma_without(self.objects@, *object);
        }
        let mut i: usize = 0;
        while i < self.objects.len()
            invariant
                i <= self.objects@.len(),
                self.objects@ == old(self).objects@,
                keys_distinct(self.objects@),
                forall|j: int| 0 <= j < i ==> (#[trigger] self.objects@[j]).0 != *object,
            decreases self.objects@.len() - i,
        {
            if self.objects[i].0 == *object {
                proof {
                    lemma_index_of_key(self.objects@, *object, i as int);
                }
                self.objects.remove(i);
                return ;
            }
            i += 1;
        }
    }

    /// The objects that belong to the player `id`, in the order of the table.
    pub fn objects_of_player(&mut self, id: PlayerId) -> (r: Vec<NetworkObject>)
        ensures
            *final(self) == *old(self),
            r@ == owned_objects(old(self)@, id),
    {
        let mut net_objs: Vec<NetworkObject> = Vec::new();
        let mut i: usize = 0;
        while i < self.objects.len()
            invariant
                i <= self.objects@.len(),
                *self == *old(self),
                net_objs@ == owned_objects(self.objects@.take(i as int), id),
            decreases self.objects@.len() - i,
        {
            if self.objects[i].0.owner == id {
                net_objs.push(self.objects[i].0);
            }
            proof {
                let seen = self.objects@.take(i as int);
                let entry = self.objects@[i as int];
                assert(self.objects@.take(i + 1) =~= seen.push(entry));
                seen.lemma_filter_push(entry, is_owned_by(id));
                seen.filter(is_owned_by(id)).lemma_push_map_commute(
                    |e: (NetworkObject, Position)| e.0,
                    entry,
                );
            }
            i += 1;
        }
        assert(self.objects@.take(i as int) =~= self.objects@);
        net_objs
    }

    /// Takes every object of the player `id` out of the table and returns the objects
    /// taken out, in the order in which they stood.
    pub fn remove_objects_of_player(&mut self, id: PlayerId) -> (r: Vec<NetworkObject>)
        requires
            old(self).wf(),
        ensures
            final(self).wf(),
            final(self)@ == old(self)@.filter(is_not_owned_by(id)),
            r@ == owned_objects(old(self)@, id),
    {
        let mut removed: Vec<NetworkObject> = Vec::new();
        let mut kept: Vec<(NetworkObject, Position)> = Vec::new();
        let mut i: usize = 0;
        while i < self.objects.len()
            invariant
                i <= self.objects@.len(),
                *self == *old(self),
                removed@ == owned_objects(self.objects@.take(i as int), id),
                kept@ == self.objects@.take(i as int).filter(is_not_owned_by(id)),
            decreases self.objects@.len() - i,
        {
            if self.objects[i].0.owner == id {
                removed.push(self.objects[i].0);
            } else {
                kept.push(self.objects[i]);
            }
            proof {
                let seen = self.objects@.take(i as int);
                let entry = self.objects@[i as int];
                assert(self.objects@.take(i + 1) =~= seen.push(entry));
                seen.lemma_filter_push(entry, is_owned_by(id));
                seen.lemma_filter_push(entry, is_not_owned_by(id));
                seen.filter(is_owned_by(id)).lemma_push_map_commute(
                    |e: (NetworkObject, Position)| e.0,
                    entry,
                );
            }
            i += 1;
        }
        proof {
            assert(self.objects@.take(i as int) =~= self.objects@);
            lemma_filter_keys_distinct(self.objects@, is_not_owned_by(id));
        }
        self.objects = kept;
        removed
    }

    /// The first object of the table with the identifier `id`.
    pub fn find_by_id(&self, id: u8) -> (r: Option<NetworkObject>)
        ensures
            r is Some <==> has_object_id(self@, id),
            r matches Some(object) ==> object == self@[first_with_id(self@, id)].0,
    {
        let mut i: usize = 0;
        while i < self.objects.len()
            invariant
                i <= self.objects@.len(),
                forall|j: int| 0 <= j < i ==> (#[trigger] self.objects@[j]).0.id != id,
            decreases self.objects@.len() - i,
        {
            if self.objects[i].0.id == id {
                proof {
                    lemma_first_with_id(self.objects@, id, i as int);
                }
                return Some(self.objects[i].0);
            }
            i += 1;
        }
        None
    }

    /// Moves the first object with the identifier `id` to `position`.  The result tells
    /// whether there was such an object; without one the table stays as it is.
    pub fn set_position(&mut self, id: u8, position: Position) -> (found: bool)
        requires
            old(self).wf(),
        ensures
            final(self).wf(),
            found == has_object_id(old(self)@, id),
            final(self)@ == with_position(old(self)@, id, position),
    {
        match self.find_by_id(id) {
            Some(object) => {
                proof {
                    lemma_first_with_id_exists(self@, id);
                    lemma_index_of_key(self@, object, first_with_id(self@, id));
                }
                self.insert(object, position);
                true
            },
            None => false,
        }
    }
}

impl Default for NetworkObjects {
    /// A table without objects.
    fn default() -> (r: Self)
        ensures
            r.wf(),
            r@ == Seq::<(NetworkObject, Position)>::empty(),
    {
        NetworkObjects::new()
    }
}

/// The most recent position that the server reported for a replica.  It is not where the
/// replica is drawn: the drawn position moves towards it tick by tick.
#[derive(Debug, PartialEq, Eq, Clone, Copy, Structural)]
pub struct NetworkTransform {
    pub last_pos: Position,
}

/// A networked entity as the client knows it.  The stand-in for another player's object
/// carries a `NetworkTransform`; the object that the local player controls carries none.
#[derive(Debug, PartialEq, Eq, Clone, Copy, Structural)]
pub struct NetworkEntity {
    pub object: NetworkObject,
    pub transform: Option<NetworkTransform>,
    /// Where the entity stood when it was spawned.  The scene moves it from there.
    pub spawned_at: Position,
}

/// An entity after the server reported `position` for the objects of `owner`.
pub open spec fn entity_moved(e: NetworkEntity, owner: PlayerId, position: Position) -> NetworkEntity {
    if e.object.owner == owner && e.transform is Some {
        NetworkEntity {
            object: e.object,
            transform: Some(NetworkTransform { last_pos: position }),
            spawned_at: e.spawned_at,
        }
    } else {
        e
    }
}

/// The replicas after the server reported `position` for the objects of `owner`.
pub open spec fn entities_moved(
    s: Seq<NetworkEntity>,
    owner: PlayerId,
    position: Position,
) -> Seq<NetworkEntity> {
    Seq::new(s.len(), |i: int| entity_moved(s[i], owner, position))
}

impl NetworkTransform {
    /// Sets the last reported position of every replica of `received_player_id` that
    /// carries one.  This is done as positions arrive from the server; it moves nothing
    /// that is drawn.
    pub fn update_last_pos(
        received_player_id: &PlayerId,
        received_position: &Position,
        networked_objects: &mut Vec<NetworkEntity>,
    )
        ensures
            final(networked_objects)@ == entities_moved(
                old(networked_objects)@,
                *received_player_id,
                *received_position,
            ),
    {
        let mut i: usize = 0;
        while i < networked_objects.len()
            invariant
                i <= networked_objects@.len(),
                networked_objects@.len() == old(networked_objects)@.len(),
                forall|j: int|
                    0 <= j < i ==> #[trigger] networked_objects@[j] == entity_moved(
                        old(networked_objects)@[j],
                        *received_player_id,
                        *received_position,
                    ),
                forall|j: int|
                    i <= j < networked_objects@.len() ==> #[trigger] networked_objects@[j] == old(
                        networked_objects,
                    )@[j],
            decreases networked_objects@.len() - i,
        {
            let entity = networked_objects[i];
            if entity.object.owner == *received_player_id && entity.transform.is_some() {
                networked_objects[i] = NetworkEntity {
                    object: entity.object,
                    transform: Some(NetworkTransform { last_pos: *received_position }),
                    spawned_at: entity.spawned_at,
                };
            }
            i += 1;
        }
        assert(networked_objects@ =~= entities_moved(
            old(networked_objects)@,
            *received_player_id,
            *received_position,
        ));
    }
}

} // verus!
