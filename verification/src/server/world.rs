//! The world: what it holds, what holds of it, and how players are found in it.
use crate::event::{Event, EventScheduler};
use crate::map::GameMap;
use crate::player::Player;
use crate::protocol::{Id, OutgoingView};
use crate::team::Team;
use vstd::prelude::*;

verus! {

/// The world: the grid, the teams, the connections by kind, the queue of events and
/// the tick frequency.
pub struct Server {
    pub map: GameMap,
    pub teams: Vec<Team>,
    pub pending_clients: Vec<Id>,
    pub clients: Vec<Player>,
    pub guis: Vec<Id>,
    pub event_scheduler: EventScheduler<Event>,
    pub frequency: u64,
    pub next_client_id: Id,
}

/// Where the player `id` stands in the list, or the length of the list if it is not
/// in it.
pub open spec fn player_index(players: Seq<Player>, id: Id) -> int
    decreases players.len(),
{
    if players.len() == 0 || players[0].id == id {
        0
    } else {
        1 + player_index(players.drop_first(), id)
    }
}

/// `player_index` finds the first player with the handle.
pub proof fn lemma_player_index(players: Seq<Player>, id: Id)
    ensures
        0 <= player_index(players, id) <= players.len(),
        player_index(players, id) < players.len() ==> players[player_index(players, id)].id == id,
        forall|i: int| 0 <= i < player_index(players, id) ==> (#[trigger] players[i]).id != id,
    decreases players.len(),
{
    if !(players.len() == 0 || players[0].id == id) {
        lemma_player_index(players.drop_first(), id);
        assert forall|i: int| 0 <= i < player_index(players, id) implies (#[trigger] players[i]).id
            != id by {
            if i > 0 {
                assert(players[i] == players.drop_first()[i - 1]);
            }
        }
    }
}

/// Whether no two players share a handle.
pub open spec fn players_distinct(players: Seq<Player>) -> bool {
    forall|i: int, j: int|
        0 <= i < j < players.len() ==> (#[trigger] players[i]).id != (#[trigger] players[j]).id
}

/// Whether a team with the handle `id` exists.
pub open spec fn has_team(teams: Seq<Team>, id: Id) -> bool {
    exists|k: int| 0 <= k < teams.len() && (#[trigger] teams[k]).id == id
}

/// The list without every entry equal to `id`.
pub open spec fn without(ids: Seq<Id>, id: Id) -> Seq<Id>
    decreases ids.len(),
{
    if ids.len() == 0 {
        Seq::empty()
    } else if ids.last() == id {
        without(ids.drop_last(), id)
    } else {
        without(ids.drop_last(), id).push(ids.last())
    }
}

/// Every entry of a thinned list comes from the list and differs from what was taken
/// out.
pub proof fn lemma_without(ids: Seq<Id>, id: Id)
    ensures
        forall|i: int|
            0 <= i < without(ids, id).len() ==> (#[trigger] without(ids, id)[i]) != id
                && ids.contains(without(ids, id)[i]),
        !ids.contains(id) ==> without(ids, id) == ids,
    decreases ids.len(),
{
    if ids.len() > 0 {
        let rest = ids.drop_last();
        lemma_without(rest, id);
        assert(ids[ids.len() - 1] == ids.last());
        assert forall|i: int| 0 <= i < without(ids, id).len() implies (#[trigger] without(
            ids,
            id,
        )[i]) != id && ids.contains(without(ids, id)[i]) by {
            if i < without(rest, id).len() {
                let e = without(rest, id)[i];
                assert(rest.contains(e));
                let k = choose|k: int| 0 <= k < rest.len() && rest[k] == e;
                assert(ids[k] == e);
            }
        }
        if !ids.contains(id) {
            assert(!rest.contains(id)) by {
                if rest.contains(id) {
                    let k = choose|k: int| 0 <= k < rest.len() && rest[k] == id;
                    assert(ids[k] == id);
                }
            }
            assert(without(ids, id) =~= ids);
        }
    }
}

impl Server {
    /// What holds of every world between two requests: the grid is sound and at most
    /// 255 cells wide and high; the queue is sound; no two players share a handle;
    /// every player stands on the grid and belongs to a team; every egg lies on the
    /// grid and belongs to a team; every handle in use is below the next handle, and
    /// no connection is both waiting to log in and a player.
    pub open spec fn wf(&self) -> bool {
        &&& self.map.wf()
        &&& 0 < self.map.size.x <= 255
        &&& 0 < self.map.size.y <= 255
        &&& self.event_scheduler.wf()
        &&& players_distinct(self.clients@)
        &&& forall|i: int|
            0 <= i < self.clients@.len() ==> self.map.in_range((#[trigger] self.clients@[i]).pos)
                && has_team(self.teams@, self.clients@[i].team) && self.clients@[i].id
                < self.next_client_id
        &&& forall|i: int|
            0 <= i < self.map.eggs@.len() ==> self.map.in_range((#[trigger] self.map.eggs@[i]).pos)
                && has_team(self.teams@, self.map.eggs@[i].team_id)
        &&& forall|i: int|
            0 <= i < self.pending_clients@.len() ==> (#[trigger] self.pending_clients@[i])
                < self.next_client_id
        &&& forall|i: int, j: int|
            0 <= i < self.pending_clients@.len() && 0 <= j < self.clients@.len() ==> (
            #[trigger] self.pending_clients@[i]) != (#[trigger] self.clients@[j]).id
    }

    /// Whether `self` differs from `old` at most in the parts that are named: the
    /// players, the grid, the queue.
    pub open spec fn same_except(&self, old: &Server, clients: bool, map: bool, queue: bool) -> bool {
        &&& clients || self.clients@ == old.clients@
        &&& map || self.map == old.map
        &&& queue || self.event_scheduler == old.event_scheduler
        &&& self.teams == old.teams
        &&& self.pending_clients@ == old.pending_clients@
        &&& self.guis@ == old.guis@
        &&& self.frequency == old.frequency
        &&& self.next_client_id == old.next_client_id
    }

    /// Whether a request left the world and the outbox as they were.
    pub open spec fn dropped(
        pre: &Server,
        post: &Server,
        before: Seq<OutgoingView>,
        after: Seq<OutgoingView>,
    ) -> bool {
        post.same_except(pre, false, false, false) && after == before
    }

    /// Where the player `id` stands in the list of players, if it is a player.
    pub fn find_player(&self, id: Id) -> (found: Option<usize>)
        ensures
            found matches Some(at) ==> at == player_index(self.clients@, id) && at
                < self.clients@.len() && self.clients@[at as int].id == id,
            found.is_none() ==> player_index(self.clients@, id) == self.clients@.len(),
    {
        let mut at: usize = 0;
        assert(self.clients@.subrange(0, self.clients@.len() as int) =~= self.clients@);
        while at < self.clients.len() && self.clients[at].id != id
            invariant
                at <= self.clients.len(),
                player_index(self.clients@, id) == at + player_index(
                    self.clients@.subrange(at as int, self.clients@.len() as int),
                    id,
                ),
            decreases self.clients.len() - at,
        {
            assert(self.clients@.subrange(at as int, self.clients@.len() as int).drop_first()
                =~= self.clients@.subrange(at + 1, self.clients@.len() as int));
            at += 1;
        }
        if at < self.clients.len() {
            Some(at)
        } else {
            None
        }
    }

    /// Puts `player` in the place `at` of the list of players. The player keeps its
    /// handle and its team and stands on the grid, so the world stays sound.
    pub(crate) fn put_player(&mut self, at: usize, player: Player)
        requires
            old(self).wf(),
            at < old(self).clients@.len(),
            player.id == old(self).clients@[at as int].id,
            player.team == old(self).clients@[at as int].team,
            old(self).map.in_range(player.pos),
        ensures
            final(self).wf(),
            final(self).clients@ == old(self).clients@.update(at as int, player),
            final(self).same_except(old(self), true, false, false),
    {
        self.clients[at] = player;
        proof {
            let before = old(self).clients@;
            let after = self.clients@;
            assert forall|i: int, j: int| 0 <= i < j < after.len() implies (#[trigger] after[i]).id
                != (#[trigger] after[j]).id by {
                assert(after[i].id == before[i].id && after[j].id == before[j].id);
            }
            assert forall|i: int| 0 <= i < after.len() implies self.map.in_range(
                (#[trigger] after[i]).pos,
            ) && has_team(self.teams@, after[i].team) && after[i].id < self.next_client_id by {
                assert(after[i].id == before[i].id && after[i].team == before[i].team);
                if i != at {
                    assert(after[i] == before[i]);
                }
            }
            assert forall|i: int, j: int|
                0 <= i < self.pending_clients@.len() && 0 <= j < after.len() implies (
            #[trigger] self.pending_clients@[i]) != (#[trigger] after[j]).id by {
                assert(after[j].id == before[j].id);
            }
        }
    }

    /// Takes the player in the place `at` out of the list of players.
    pub(crate) fn take_player(&mut self, at: usize) -> (player: Player)
        requires
            old(self).wf(),
            at < old(self).clients@.len(),
        ensures
            final(self).wf(),
            player == old(self).clients@[at as int],
            final(self).clients@ == old(self).clients@.remove(at as int),
            final(self).same_except(old(self), true, false, false),
    {
        let player = self.clients.remove(at);
        proof {
            let before = old(self).clients@;
            let after = self.clients@;
            assert forall|i: int| 0 <= i < after.len() implies #[trigger] after[i] == before[if i
                < at {
                i
            } else {
                i + 1
            }] by {}
            assert forall|i: int, j: int| 0 <= i < j < after.len() implies (#[trigger] after[i]).id
                != (#[trigger] after[j]).id by {
                let i0 = if i < at {
                    i
                } else {
                    i + 1
                };
                let j0 = if j < at {
                    j
                } else {
                    j + 1
                };
                assert(after[i] == before[i0] && after[j] == before[j0]);
            }
            assert forall|i: int| 0 <= i < after.len() implies self.map.in_range(
                (#[trigger] after[i]).pos,
            ) && has_team(self.teams@, after[i].team) && after[i].id < self.next_client_id by {
                let i0 = if i < at {
                    i
                } else {
                    i + 1
                };
                assert(after[i] == before[i0]);
            }
            assert forall|i: int, j: int|
                0 <= i < self.pending_clients@.len() && 0 <= j < after.len() implies (
            #[trigger] self.pending_clients@[i]) != (#[trigger] after[j]).id by {
                let j0 = if j < at {
                    j
                } else {
                    j + 1
                };
                assert(after[j] == before[j0]);
            }
        }
        player
    }

    /// Takes in a new connection: it gets the next handle and waits to log in.
    pub fn accept_client(&mut self) -> (client_id: Id)
        requires
            old(self).wf(),
            old(self).next_client_id < u64::MAX,
        ensures
            final(self).wf(),
            client_id == old(self).next_client_id,
            final(self).next_client_id == old(self).next_client_id + 1,
            final(self).pending_clients@ == old(self).pending_clients@.push(client_id),
            final(self).clients@ == old(self).clients@,
            final(self).guis@ == old(self).guis@,
            final(self).map == old(self).map,
            final(self).teams == old(self).teams,
            final(self).event_scheduler == old(self).event_scheduler,
            final(self).frequency == old(self).frequency,
    {
        let client_id = self.next_client_id;
        self.next_client_id = self.next_client_id + 1;
        self.pending_clients.push(client_id);
        client_id
    }

    /// A world stays sound when its grid is replaced by a sound grid of the same
    /// size with the same eggs.
    pub(crate) proof fn lemma_map_swapped(&self, old: &Server)
        requires
            old.wf(),
            self.map.wf(),
            self.map.size == old.map.size,
            self.map.eggs@ == old.map.eggs@,
            self.same_except(old, false, true, false),
        ensures
            self.wf(),
    {
        assert forall|i: int| 0 <= i < self.clients@.len() implies self.map.in_range(
            (#[trigger] self.clients@[i]).pos,
        ) && has_team(self.teams@, self.clients@[i].team) && self.clients@[i].id
            < self.next_client_id by {
            assert(old.map.in_range(old.clients@[i].pos));
        }
        assert forall|i: int| 0 <= i < self.map.eggs@.len() implies self.map.in_range(
            (#[trigger] self.map.eggs@[i]).pos,
        ) && has_team(self.teams@, self.map.eggs@[i].team_id) by {
            assert(old.map.in_range(old.map.eggs@[i].pos));
        }
    }
}

} // verus!
