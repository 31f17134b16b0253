//! What the client spawns for a networked object: the object that its own player
//! controls, or a stand-in for an object of another player.
use vstd::prelude::*;
use crate::components::{NetworkEntity, NetworkObject, NetworkObjectType, NetworkTransform};
use crate::player::PlayerId;
use crate::position::Position;

verus! {

/// The components that make an entity a replica: the networked object and the position
/// last reported for it.
#[derive(Debug, PartialEq, Eq, Clone, Copy, Structural)]
pub struct NetworkTransformBundle {
    pub transform: NetworkTransform,
    pub object: NetworkObject,
}

impl NetworkTransformBundle {
    /// The bundle of an object that starts at `start_pos`.
    pub fn new(
        object_id: u8,
        owner_id: PlayerId,
        object_type: NetworkObjectType,
        start_pos: Position,
        is_owned: bool,
    ) -> (r: NetworkTransformBundle)
        ensures
            r == (NetworkTransformBundle {
                transform: NetworkTransform { last_pos: start_pos },
                object: NetworkObject { id: object_id, owner: owner_id, object_type, is_owned },
            }),
    {
        NetworkTransformBundle {
            transform: NetworkTransform { last_pos: start_pos },
            object: NetworkObject { id: object_id, owner: owner_id, object_type, is_owned },
        }
    }
}

/// The stand-in for the player object `object_id` of another player `id`, spawned at
/// `pos`: it is not owned, and `pos` is the position last reported for it.
pub open spec fn player_facade(id: PlayerId, object_id: u8, pos: Position) -> NetworkEntity {
    NetworkEntity {
        object: NetworkObject {
            id: object_id,
            owner: id,
            object_type: NetworkObjectType::Player,
            is_owned: false,
        },
        transform: Some(NetworkTransform { last_pos: pos }),
        spawned_at: pos,
    }
}

/// The player object `object_id` that the local player `id` controls, spawned at `pos`:
/// it is owned, and no reported position steers it.
pub open spec fn owned_player(id: PlayerId, object_id: u8, pos: Position) -> NetworkEntity {
    NetworkEntity {
        object: NetworkObject {
            id: object_id,
            owner: id,
            object_type: NetworkObjectType::Player,
            is_owned: true,
        },
        transform: None,
        spawned_at: pos,
    }
}

/// Spawns the stand-in for a player object of another player.
pub fn spawn_player_facade(
    id: PlayerId,
    object_id: u8,
    pos: Position,
    commands: &mut Vec<NetworkEntity>,
)
    ensures
        final(commands)@ == old(commands)@.push(player_facade(id, object_id, pos)),
{
    let bundle = NetworkTransformBundle::new(object_id, id, NetworkObjectType::Player, pos, false);
    commands.push(
        NetworkEntity { object: bundle.object, transform: Some(bundle.transform), spawned_at: pos },
    );
}

/// Spawns the player object that the local player controls.
pub fn spawn_player(id: PlayerId, object_id: u8, pos: Position, commands: &mut Vec<NetworkEntity>)
    ensures
        final(commands)@ == old(commands)@.push(owned_player(id, object_id, pos)),
{
    commands.push(
        NetworkEntity {
            object: NetworkObject {
                id: object_id,
                owner: id,
                object_type: NetworkObjectType::Player,
                is_owned: true,
            },
            transform: None,
            spawned_at: pos,
        },
    );
}

} // verus!
