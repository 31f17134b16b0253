//! Telling the server where the networked objects of this client are.
use vstd::prelude::*;
use crate::address::SocketAddress;
use crate::components::NetworkObject;
use crate::handshake::datagram_of;
use crate::message::{serialize, Message};
use crate::player::PlayerId;
use crate::position::Position;
use crate::raw_message::Datagram;
use crate::transport::Transport;

verus! {

/// One position report of the player `player_id` for each object, in order, all for the
/// server at `server`.
pub open spec fn position_reports(
    server: SocketAddress,
    player_id: PlayerId,
    objects: Seq<(NetworkObject, Position)>,
) -> Seq<Datagram> {
    Seq::new(
        objects.len(),
        |i: int|
            datagram_of(
                server,
                Message::PlayerPosition(player_id, objects[i].1, objects[i].0.id),
            ),
    )
}

/// Queues for the server, at `server`, where each of `objects` stands now.  Every report
/// goes out under the identity of the local player.
pub fn sync_network_transforms(
    server: SocketAddress,
    transport: &mut Transport,
    objects: &Vec<(NetworkObject, Position)>,
    player_id: &PlayerId,
)
    ensures
        final(transport)@ == old(transport)@ + position_reports(server, *player_id, objects@),
{
    let mut i: usize = 0;
    while i < objects.len()
        invariant
            i <= objects@.len(),
            transport@ == old(transport)@ + position_reports(server, *player_id, objects@).take(
                i as int,
            ),
        decreases objects@.len() - i,
    {
        let (net_obj, translation) = objects[i];
        transport.send(
            server,
            serialize(Message::PlayerPosition(*player_id, translation, net_obj.id)).as_ref(),
        );
        proof {
            let all = position_reports(server, *player_id, objects@);
            assert(all.take(i + 1) =~= all.take(i as int).push(all[i as int]));
            assert(transport@ =~= old(transport)@ + all.take(i + 1));
        }
        i += 1;
    }
    proof {
        let all = position_reports(server, *player_id, objects@);
        assert(all.take(i as int) =~= all);
    }
}

} // verus!
