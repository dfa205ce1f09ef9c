//! What holds of the world whatever happens in it: what is conserved, and what a
//! look shows.
use crate::event::Event;
use crate::map::{lemma_total_bound, lemma_total_update, total_of};
use crate::player::{lemma_visible_shape, Player};
use crate::protocol::{Id, OutgoingView};
use crate::resources::Resource;
use crate::server::actions::players_at;
use crate::server::incantation::released;
use crate::server::world::{lemma_player_index, player_index, Server};
use crate::vec2::UPosition;
use vstd::prelude::*;

verus! {

/// How much of `resource` all of the players carry together.
pub open spec fn carried(players: Seq<Player>, resource: Resource) -> int
    decreases players.len(),
{
    if players.len() == 0 {
        0
    } else {
        carried(players.drop_last(), resource) + players.last().inventory.count(resource)
    }
}

/// Replacing one player changes what the players carry by the difference between the
/// two inventories.
pub proof fn lemma_carried_update(players: Seq<Player>, at: int, player: Player, resource: Resource)
    requires
        0 <= at < players.len(),
    ensures
        carried(players.update(at, player), resource) == carried(players, resource)
            - players[at].inventory.count(resource) + player.inventory.count(resource),
    decreases players.len(),
{
    let after = players.update(at, player);
    if at == players.len() - 1 {
        assert(after.drop_last() =~= players.drop_last());
    } else {
        assert(after.drop_last() =~= players.drop_last().update(at, player));
        lemma_carried_update(players.drop_last(), at, player, resource);
    }
}

/// Two lists of players that carry the same, player by player, carry the same
/// together.
pub proof fn lemma_carried_same(first: Seq<Player>, second: Seq<Player>, resource: Resource)
    requires
        first.len() == second.len(),
        forall|i: int| 0 <= i < first.len() ==> (#[trigger] first[i]).inventory == second[i].inventory,
    ensures
        carried(first, resource) == carried(second, resource),
    decreases first.len(),
{
    if first.len() > 0 {
        assert(first.last().inventory == second.last().inventory) by {
            assert(first[first.len() - 1].inventory == second[first.len() - 1].inventory);
        }
        assert forall|i: int| 0 <= i < first.drop_last().len() implies (
        #[trigger] first.drop_last()[i]).inventory == second.drop_last()[i].inventory by {
            assert(first[i].inventory == second[i].inventory);
        }
        lemma_carried_same(first.drop_last(), second.drop_last(), resource);
    }
}

/// Setting players free leaves what they carry as it was.
pub proof fn lemma_released_carries(players: Seq<Player>, ids: Seq<Id>, pos: UPosition)
    ensures
        released(players, ids, pos).0.len() == players.len(),
        forall|i: int|
            0 <= i < players.len() ==> (#[trigger] released(players, ids, pos).0[i]).inventory
                == players[i].inventory,
    decreases ids.len(),
{
    if ids.len() > 0 {
        lemma_released_carries(players, ids.drop_last(), pos);
        let earlier = released(players, ids.drop_last(), pos).0;
        lemma_player_index(earlier, ids.last());
    }
}

impl Server {
    /// How much of `resource` there is in the world: what lies on the grid and what
    /// the players carry.
    pub open spec fn material(&self, resource: Resource) -> int {
        total_of(self.map.cells@, resource) + carried(self.clients@, resource)
    }

    /// A take that succeeds lowers the counter of the resource on the player's cell
    /// by one, raises the counter in the player's inventory by one, and leaves the
    /// amount of every resource in the world as it was.
    pub proof fn lemma_take_moves_one_unit(
        pre: &Server,
        post: &Server,
        id: Id,
        resource: Resource,
        before: Seq<OutgoingView>,
        after: Seq<OutgoingView>,
    )
        requires
            pre.wf(),
            Server::did_take(pre, post, id, resource, before, after),
            player_index(pre.clients@, id) < pre.clients@.len(),
            pre.map.cell_at(pre.clients@[player_index(pre.clients@, id)].pos).resources.count(
                resource,
            ) >= 1,
            pre.clients@[player_index(pre.clients@, id)].inventory.count(resource) < u64::MAX,
        ensures
            post.map.cell_at(pre.clients@[player_index(pre.clients@, id)].pos).resources.count(
                resource,
            ) == pre.map.cell_at(pre.clients@[player_index(pre.clients@, id)].pos).resources.count(
                resource,
            ) - 1,
            post.clients@[player_index(pre.clients@, id)].inventory.count(resource)
                == pre.clients@[player_index(pre.clients@, id)].inventory.count(resource) + 1,
            forall|kind: Resource| post.material(kind) == pre.material(kind),
    {
        let at = player_index(pre.clients@, id);
        lemma_player_index(pre.clients@, id);
        let player = pre.clients@[at];
        assert(pre.map.in_range(pre.clients@[at].pos));
        pre.map.lemma_index(player.pos);
        let cell = post.map.cells@[pre.map.index_of(player.pos)];
        assert forall|kind: Resource| post.material(kind) == pre.material(kind) by {
            lemma_total_update(pre.map.cells@, pre.map.index_of(player.pos), cell, kind);
            lemma_carried_update(pre.clients@, at, post.clients@[at], kind);
        }
    }

    /// A set that succeeds lowers the counter of the resource in the player's
    /// inventory by one, raises the counter on the player's cell by one, and leaves
    /// the amount of every resource in the world as it was.
    pub proof fn lemma_set_moves_one_unit(
        pre: &Server,
        post: &Server,
        id: Id,
        resource: Resource,
        before: Seq<OutgoingView>,
        after: Seq<OutgoingView>,
    )
        requires
            pre.wf(),
            Server::did_set(pre, post, id, resource, before, after),
            player_index(pre.clients@, id) < pre.clients@.len(),
            pre.clients@[player_index(pre.clients@, id)].inventory.count(resource) >= 1,
            pre.map.resources.count(resource) < u64::MAX,
        ensures
            post.map.cell_at(pre.clients@[player_index(pre.clients@, id)].pos).resources.count(
                resource,
            ) == pre.map.cell_at(pre.clients@[player_index(pre.clients@, id)].pos).resources.count(
                resource,
            ) + 1,
            post.clients@[player_index(pre.clients@, id)].inventory.count(resource)
                == pre.clients@[player_index(pre.clients@, id)].inventory.count(resource) - 1,
            forall|kind: Resource| post.material(kind) == pre.material(kind),
    {
        let at = player_index(pre.clients@, id);
        lemma_player_index(pre.clients@, id);
        let player = pre.clients@[at];
        assert(pre.map.in_range(pre.clients@[at].pos));
        pre.map.lemma_index(player.pos);
        lemma_total_bound(pre.map.cells@, pre.map.index_of(player.pos), resource);
        let cell = post.map.cells@[pre.map.index_of(player.pos)];
        assert forall|kind: Resource| post.material(kind) == pre.material(kind) by {
            lemma_total_update(pre.map.cells@, pre.map.index_of(player.pos), cell, kind);
            lemma_carried_update(pre.clients@, at, post.clients@[at], kind);
        }
    }

    /// An event that falls due leaves the amount of every resource in the world as
    /// it was, unless it is the end of an incantation that succeeds.
    pub proof fn lemma_event_conserves(
        pre: &Server,
        post: &Server,
        id: Id,
        data: Event,
        before: Seq<OutgoingView>,
        after: Seq<OutgoingView>,
    )
        requires
            pre.wf(),
            Server::did_event(pre, post, id, data, before, after),
            data matches Event::IncantationEnd(ids, needs, pos) ==> !pre.incantation_succeeds(
                ids@,
                needs,
                pos,
            ),
        ensures
            forall|kind: Resource| post.material(kind) == pre.material(kind),
    {
        let at = player_index(pre.clients@, id);
        lemma_player_index(pre.clients@, id);
        match data {
            Event::Take(resource) => {
                if at < pre.clients@.len() && pre.map.cell_at(
                    pre.clients@[at].pos,
                ).resources.count(resource) >= 1 && pre.clients@[at].inventory.count(resource)
                    < u64::MAX {
                    Server::lemma_take_moves_one_unit(pre, post, id, resource, before, after);
                }
            },
            Event::SetObject(resource) => {
                if at < pre.clients@.len() && pre.clients@[at].inventory.count(resource) >= 1
                    && pre.map.resources.count(resource) < u64::MAX {
                    Server::lemma_set_moves_one_unit(pre, post, id, resource, before, after);
                }
            },
            Event::IncantationEnd(ids, needs, pos) => {
                lemma_released_carries(pre.clients@, ids@, pos);
                assert forall|kind: Resource| post.material(kind) == pre.material(kind) by {
                    lemma_carried_same(post.clients@, pre.clients@, kind);
                }
            },
            _ => {
                if at < pre.clients@.len() {
                    assert(post.clients@.len() == pre.clients@.len());
                    assert forall|i: int| 0 <= i < post.clients@.len() implies (
                    #[trigger] post.clients@[i]).inventory == pre.clients@[i].inventory by {}
                    assert forall|kind: Resource| post.material(kind) == pre.material(kind) by {
                        lemma_carried_same(post.clients@, pre.clients@, kind);
                    }
                }
            },
        }
    }

    /// What a player at elevation `L` that stands on the grid sees has `(L + 1)^2`
    /// cells, and the first of them is the cell the player stands on.
    pub proof fn lemma_look_shape(&self, player: Player)
        requires
            self.map.size.x > 0,
            self.map.size.y > 0,
            self.map.in_range(player.pos),
        ensures
            self.spec_look(player).len() == (player.elevation.spec_number() + 1) * (
            player.elevation.spec_number() + 1),
            self.spec_look(player)[0] == (
                players_at(self.clients@, player.pos) as u64,
                self.map.cell_at(player.pos).resources,
            ),
    {
        lemma_visible_shape(player.pos, player.direction, player.elevation);
        vstd::arithmetic::div_mod::lemma_small_mod(player.pos.x as nat, self.map.size.x as nat);
        vstd::arithmetic::div_mod::lemma_small_mod(player.pos.y as nat, self.map.size.y as nat);
        let level = player.elevation.spec_number();
        assert((level + 1) * (level + 1) >= 1) by (nonlinear_arith)
            requires
                level >= 0,
        ;
        assert(self.map.spec_wrapped(player.pos.x as int, player.pos.y as int) == player.pos);
    }
}

} // verus!
