//! The start and the end of an incantation.
use crate::cell::Cell;
use crate::constant::INCANTATION_TICKS;
use crate::event::{Event, Queue};
use crate::map::lemma_total_bound;
use crate::player::{Player, PlayerState};
use crate::protocol::{
    copy_list, outbox_view, send_to_observers, send_to_player, to_observers, to_player, AIResponse,
    AIResponseView, GUIResponse, GUIResponseView, Id, Outgoing, OutgoingView, SharedResponse,
};
use crate::resources::{
    level_requirement, spec_level_requirement, ElevationLevel, LevelRequirement, Resource,
    Resources,
};
use crate::server::actions::ko_to;
use crate::server::world::{player_index, Server};
use crate::vec2::UPosition;
use vstd::prelude::*;

verus! {

/// Whether a player can be bound in an incantation on `pos` at `level`: it stands
/// there, is free, and has that level.
pub open spec fn qualifies(player: Player, pos: UPosition, level: ElevationLevel) -> bool {
    player.pos == pos && player.state == PlayerState::Idle && player.elevation == level
}

/// The handles of the players that can be bound in an incantation on `pos` at
/// `level`, in the order of the list.
pub open spec fn participants(players: Seq<Player>, pos: UPosition, level: ElevationLevel) -> Seq<
    Id,
>
    decreases players.len(),
{
    if players.len() == 0 {
        Seq::empty()
    } else if qualifies(players.last(), pos, level) {
        participants(players.drop_last(), pos, level).push(players.last().id)
    } else {
        participants(players.drop_last(), pos, level)
    }
}

/// The players after every player that qualifies has been bound.
pub open spec fn spec_bound(players: Seq<Player>, pos: UPosition, level: ElevationLevel) -> Seq<
    Player,
> {
    Seq::new(
        players.len(),
        |i: int|
            if qualifies(players[i], pos, level) {
                Player { state: PlayerState::Incantating, ..players[i] }
            } else {
                players[i]
            },
    )
}

/// The notice that the elevation is underway, for each of the players in order.
pub open spec fn underway_messages(ids: Seq<Id>) -> Seq<OutgoingView>
    decreases ids.len(),
{
    if ids.len() == 0 {
        Seq::empty()
    } else {
        underway_messages(ids.drop_last()).push(to_player(ids.last(), AIResponseView::Incantating))
    }
}

/// The queue after the players bound in an incantation have been locked out: for each
/// of them but the initiator, in order, its pending events are moved back by the
/// length of an incantation and a placeholder is forced in at that distance.
pub open spec fn locked(queue: Queue<Event>, ids: Seq<Id>, initiator: Id) -> Queue<Event>
    decreases ids.len(),
{
    if ids.len() == 0 {
        queue
    } else {
        let rest = locked(queue, ids.drop_last(), initiator);
        if ids.last() == initiator {
            rest
        } else {
            rest.moved(ids.last(), INCANTATION_TICKS as i64).forced(
                Event::Phantom,
                INCANTATION_TICKS,
                ids.last(),
            )
        }
    }
}

/// Locking players out leaves the clock where it was.
pub proof fn lemma_locked_clock(queue: Queue<Event>, ids: Seq<Id>, initiator: Id)
    ensures
        locked(queue, ids, initiator).current_tick == queue.current_tick,
    decreases ids.len(),
{
    if ids.len() > 0 {
        lemma_locked_clock(queue, ids.drop_last(), initiator);
    }
}

impl Server {
    /// Whether an incantation of `actor` can start: its level has a row in the
    /// elevation table, enough players qualify, and the stones lie on the cell.
    pub open spec fn can_incant(&self, actor: Player) -> bool {
        match spec_level_requirement(actor.elevation) {
            Some(needs) => participants(self.clients@, actor.pos, actor.elevation).len()
                >= needs.players_needed && self.map.cell_at(actor.pos).resources.covers(
                needs.resources,
            ),
            None => false,
        }
    }

    /// What the start of an incantation does where it can start: every player that
    /// qualifies is bound and told that the elevation is underway; every bound player
    /// but the initiator is locked out; the observers are told of the incantation;
    /// and the end of the incantation is forced in on the initiator at 300 ticks.
    /// Where it cannot start, the initiator is told `ko`.
    pub open spec fn did_incantation(
        pre: &Server,
        post: &Server,
        id: Id,
        before: Seq<OutgoingView>,
        after: Seq<OutgoingView>,
    ) -> bool {
        let at = player_index(pre.clients@, id);
        if at < pre.clients@.len() {
            let actor = pre.clients@[at];
            if pre.can_incant(actor) {
                let needs = spec_level_requirement(actor.elevation).unwrap();
                let ids = participants(pre.clients@, actor.pos, actor.elevation);
                &&& post.clients@ == spec_bound(pre.clients@, actor.pos, actor.elevation)
                &&& exists|players: Vec<Id>|
                    players@ == ids && post.event_scheduler@ == locked(
                        pre.event_scheduler@,
                        ids,
                        id,
                    ).forced(
                        Event::IncantationEnd(players, needs, actor.pos),
                        INCANTATION_TICKS,
                        id,
                    )
                &&& post.same_except(pre, true, false, true)
                &&& after == (before + underway_messages(ids)).push(
                    to_observers(GUIResponseView::Pic(actor.pos, actor.elevation, ids)),
                )
            } else {
                post.same_except(pre, false, false, false) && after == before.push(ko_to(id))
            }
        } else {
            Server::dropped(pre, post, before, after)
        }
    }

    /// The handles of the players that can be bound in an incantation on `pos` at
    /// `level`.
    pub(crate) fn collect_participants(&self, pos: UPosition, level: ElevationLevel) -> (ids: Vec<Id>)
        ensures
            ids@ == participants(self.clients@, pos, level),
    {
        let mut ids: Vec<Id> = Vec::new();
        let mut i: usize = 0;
        assert(self.clients@.subrange(0, 0) =~= Seq::<Player>::empty());
        while i < self.clients.len()
            invariant
                i <= self.clients.len(),
                ids@ == participants(self.clients@.subrange(0, i as int), pos, level),
            decreases self.clients.len() - i,
        {
            assert(self.clients@.subrange(0, i + 1).drop_last() =~= self.clients@.subrange(
                0,
                i as int,
            ));
            let player = self.clients[i];
            if player.pos.x == pos.x && player.pos.y == pos.y && player.state == PlayerState::Idle
                && player.elevation == level {
                ids.push(player.id);
            }
            i += 1;
        }
        assert(self.clients@.subrange(0, i as int) =~= self.clients@);
        ids
    }

    /// Binds every player that qualifies for an incantation on `pos` at `level`.
    pub(crate) fn bind_players(&mut self, pos: UPosition, level: ElevationLevel)
        requires
            old(self).wf(),
        ensures
            final(self).wf(),
            final(self).clients@ == spec_bound(old(self).clients@, pos, level),
            final(self).same_except(old(self), true, false, false),
    {
        let ghost players = self.clients@;
        let mut i: usize = 0;
        while i < self.clients.len()
            invariant
                i <= self.clients.len(),
                self.wf(),
                self.same_except(old(self), true, false, false),
                players == old(self).clients@,
                self.clients@.len() == players.len(),
                forall|k: int|
                    0 <= k < i ==> #[trigger] self.clients@[k] == spec_bound(players, pos, level)[k],
                forall|k: int| i <= k < players.len() ==> #[trigger] self.clients@[k] == players[k],
            decreases self.clients.len() - i,
        {
            let mut player = self.clients[i];
            assert(player == players[i as int]);
            if player.pos.x == pos.x && player.pos.y == pos.y && player.state == PlayerState::Idle
                && player.elevation == level {
                player.state = PlayerState::Incantating;
                let ghost earlier = self.clients@;
                self.put_player(i, player);
                assert forall|k: int| 0 <= k < i + 1 implies #[trigger] self.clients@[k]
                    == spec_bound(players, pos, level)[k] by {
                    if k < i {
                        assert(self.clients@[k] == earlier[k]);
                    }
                }
                assert forall|k: int| i + 1 <= k < players.len() implies #[trigger] self.clients@[k]
                    == players[k] by {
                    assert(self.clients@[k] == earlier[k]);
                }
            }
            i += 1;
        }
        assert(self.clients@ =~= spec_bound(players, pos, level));
    }

    /// Tells every bound player that the elevation is underway and locks out all of
    /// them but the initiator.
    pub(crate) fn lock_players(&mut self, ids: &Vec<Id>, initiator: Id, outbox: &mut Vec<Outgoing>)
        requires
            old(self).wf(),
        ensures
            final(self).wf(),
            final(self).event_scheduler@ == locked(old(self).event_scheduler@, ids@, initiator),
            final(self).same_except(old(self), false, false, true),
            outbox_view(final(outbox)@) == outbox_view(old(outbox)@) + underway_messages(ids@),
    {
        let ghost before = outbox_view(outbox@);
        let ghost queue = self.event_scheduler@;
        let mut i: usize = 0;
        assert(ids@.subrange(0, 0) =~= Seq::<Id>::empty());
        assert(before + underway_messages(ids@.subrange(0, 0)) =~= before);
        while i < ids.len()
            invariant
                i <= ids.len(),
                self.wf(),
                self.same_except(old(self), false, false, true),
                queue == old(self).event_scheduler@,
                self.event_scheduler@ == locked(queue, ids@.subrange(0, i as int), initiator),
                outbox_view(outbox@) == before + underway_messages(ids@.subrange(0, i as int)),
            decreases ids.len() - i,
        {
            assert(ids@.subrange(0, i + 1).drop_last() =~= ids@.subrange(0, i as int));
            let id = ids[i];
            send_to_player(outbox, id, AIResponse::Incantating);
            if id != initiator {
                self.event_scheduler.shift_client_events(id, INCANTATION_TICKS as i64);
                let _ = self.event_scheduler.force_schedule(Event::Phantom, INCANTATION_TICKS, id);
            }
            i += 1;
            assert(outbox_view(outbox@) =~= before + underway_messages(
                ids@.subrange(0, i as int),
            ));
        }
        assert(ids@.subrange(0, i as int) =~= ids@);
    }

    /// Starts an incantation of the player, if it can start.
    pub fn apply_incantation(&mut self, player_id: Id, outbox: &mut Vec<Outgoing>)
        requires
            old(self).wf(),
        ensures
            final(self).wf(),
            Server::did_incantation(
                old(self),
                final(self),
                player_id,
                outbox_view(old(outbox)@),
                outbox_view(final(outbox)@),
            ),
    {
        let at = match self.find_player(player_id) {
            Some(at) => at,
            None => { return ; },
        };
        let actor = self.clients[at];
        let needs = match level_requirement(actor.elevation) {
            Some(needs) => needs,
            None => {
                send_to_player(outbox, player_id, AIResponse::Shared(SharedResponse::Ko));
                return ;
            },
        };
        let ids = self.collect_participants(actor.pos, actor.elevation);
        let lying = self.map.get_ressources_at_pos(actor.pos);
        if ids.len() < needs.needed_players() || !lying.has_at_least(needs.needed_resources()) {
            send_to_player(outbox, player_id, AIResponse::Shared(SharedResponse::Ko));
            return ;
        }
        self.bind_players(actor.pos, actor.elevation);
        self.lock_players(&ids, player_id, outbox);
        let listed = copy_list(&ids);
        send_to_observers(outbox, GUIResponse::Pic(actor.pos, actor.elevation, listed));
        let ghost bound = ids;
        let _ = self.event_scheduler.force_schedule(
            Event::IncantationEnd(ids, needs, actor.pos),
            INCANTATION_TICKS,
            player_id,
        );
        assert(bound@ == participants(old(self).clients@, actor.pos, actor.elevation));
        assert(self.event_scheduler@ == locked(
            old(self).event_scheduler@,
            bound@,
            player_id,
        ).forced(Event::IncantationEnd(bound, needs, actor.pos), INCANTATION_TICKS, player_id));
    }
}

/// The players and the survivors after the end of an incantation has looked at each
/// of the bound players in order: a player that is still there, still bound and
/// still on `pos` survives and is set free.
pub open spec fn released(players: Seq<Player>, ids: Seq<Id>, pos: UPosition) -> (
    Seq<Player>,
    Seq<Id>,
)
    decreases ids.len(),
{
    if ids.len() == 0 {
        (players, Seq::empty())
    } else {
        let earlier = released(players, ids.drop_last(), pos);
        let at = player_index(earlier.0, ids.last());
        if at < earlier.0.len() && earlier.0[at].state == PlayerState::Incantating
            && earlier.0[at].pos == pos {
            (
                earlier.0.update(at, Player { state: PlayerState::Idle, ..earlier.0[at] }),
                earlier.1.push(ids.last()),
            )
        } else {
            earlier
        }
    }
}

/// The answer `ko` for each of the handles, in order, that is the handle of a player.
pub open spec fn ko_messages(players: Seq<Player>, ids: Seq<Id>) -> Seq<OutgoingView>
    decreases ids.len(),
{
    if ids.len() == 0 {
        Seq::empty()
    } else if player_index(players, ids.last()) < players.len() {
        ko_messages(players, ids.drop_last()).push(ko_to(ids.last()))
    } else {
        ko_messages(players, ids.drop_last())
    }
}

/// The bag after the first `upto` kinds, in storage order, have been lowered by what
/// `needs` holds of them.
pub open spec fn reduced(bag: Resources, needs: Resources, upto: int) -> Resources {
    Resources {
        deraumere: if upto > 0 {
            (bag.deraumere - needs.deraumere) as u64
        } else {
            bag.deraumere
        },
        linemate: if upto > 1 {
            (bag.linemate - needs.linemate) as u64
        } else {
            bag.linemate
        },
        mendiane: if upto > 2 {
            (bag.mendiane - needs.mendiane) as u64
        } else {
            bag.mendiane
        },
        phiras: if upto > 3 {
            (bag.phiras - needs.phiras) as u64
        } else {
            bag.phiras
        },
        sibur: if upto > 4 {
            (bag.sibur - needs.sibur) as u64
        } else {
            bag.sibur
        },
        thystame: if upto > 5 {
            (bag.thystame - needs.thystame) as u64
        } else {
            bag.thystame
        },
        food: if upto > 6 {
            (bag.food - needs.food) as u64
        } else {
            bag.food
        },
    }
}

/// The place of a kind in storage order.
pub open spec fn storage_index(kind: Resource) -> int {
    match kind {
        Resource::Deraumere => 0,
        Resource::Linemate => 1,
        Resource::Mendiane => 2,
        Resource::Phiras => 3,
        Resource::Sibur => 4,
        Resource::Thystame => 5,
        Resource::Food => 6,
    }
}

/// The notice for the observers of what lies on `pos`, if `told` holds.
pub open spec fn bct_if(told: bool, pos: UPosition, bag: Resources) -> Seq<OutgoingView> {
    if told {
        seq![to_observers(GUIResponseView::Bct((pos, bag)))]
    } else {
        Seq::empty()
    }
}

/// The kind at a place in storage order.
pub open spec fn kind_at(index: int) -> Resource {
    if index == 0 {
        Resource::Deraumere
    } else if index == 1 {
        Resource::Linemate
    } else if index == 2 {
        Resource::Mendiane
    } else if index == 3 {
        Resource::Phiras
    } else if index == 4 {
        Resource::Sibur
    } else if index == 5 {
        Resource::Thystame
    } else {
        Resource::Food
    }
}

/// What the observers are told while the first `upto` kinds are consumed: after each
/// kind of which something is needed, what lies on the cell at that moment.
pub open spec fn consuming_upto(pos: UPosition, bag: Resources, needs: Resources, upto: int) -> Seq<
    OutgoingView,
>
    decreases upto,
{
    if upto <= 0 {
        Seq::empty()
    } else {
        consuming_upto(pos, bag, needs, upto - 1) + bct_if(
            needs.count(kind_at(upto - 1)) > 0,
            pos,
            reduced(bag, needs, upto),
        )
    }
}

/// What the observers are told while an incantation consumes its stones: the kinds
/// are taken in storage order, and after each kind of which something is needed the
/// observers are told what lies on the cell at that moment.
pub open spec fn consuming_messages(pos: UPosition, bag: Resources, needs: Resources) -> Seq<
    OutgoingView,
> {
    consuming_upto(pos, bag, needs, 7)
}

/// The players after each of the survivors, in order, has gone up one level.
pub open spec fn raised(players: Seq<Player>, alive: Seq<Id>) -> Seq<Player>
    decreases alive.len(),
{
    if alive.len() == 0 {
        players
    } else {
        let earlier = raised(players, alive.drop_last());
        let at = player_index(earlier, alive.last());
        if at < earlier.len() {
            earlier.update(
                at,
                Player { elevation: earlier[at].elevation.spec_upgrade(), ..earlier[at] },
            )
        } else {
            earlier
        }
    }
}

/// What is told when the survivors go up: each, in order, is told its new level, and
/// the observers are told it too.
pub open spec fn levelup_messages(players: Seq<Player>, alive: Seq<Id>) -> Seq<OutgoingView>
    decreases alive.len(),
{
    if alive.len() == 0 {
        Seq::empty()
    } else {
        let rest = levelup_messages(players, alive.drop_last());
        let earlier = raised(players, alive.drop_last());
        let at = player_index(earlier, alive.last());
        if at < earlier.len() {
            let level = earlier[at].elevation.spec_upgrade();
            rest.push(to_player(alive.last(), AIResponseView::LevelUp(level))).push(
                to_observers(GUIResponseView::Plv(alive.last(), level)),
            )
        } else {
            rest
        }
    }
}

impl Server {
    /// Whether the incantation that ends on `pos` succeeds: enough of the bound
    /// players survive, and the stones still lie on the cell.
    pub open spec fn incantation_succeeds(
        &self,
        ids: Seq<Id>,
        needs: LevelRequirement,
        pos: UPosition,
    ) -> bool {
        &&& released(self.clients@, ids, pos).1.len() >= needs.players_needed
        &&& self.map.in_range(pos)
        &&& self.map.cell_at(pos).resources.covers(needs.resources)
    }

    /// What the end of an incantation does. Every survivor is set free. Where the
    /// incantation succeeds, the stones are taken from the cell, every survivor goes
    /// up one level, and the observers are told of the success. Where it fails, the
    /// observers are told of the failure and every bound player that is still a
    /// player is told `ko`; no stone is given back.
    pub open spec fn did_incantation_end(
        pre: &Server,
        post: &Server,
        ids: Seq<Id>,
        needs: LevelRequirement,
        pos: UPosition,
        before: Seq<OutgoingView>,
        after: Seq<OutgoingView>,
    ) -> bool {
        let freed = released(pre.clients@, ids, pos).0;
        let alive = released(pre.clients@, ids, pos).1;
        if pre.incantation_succeeds(ids, needs, pos) {
            let bag = pre.map.cell_at(pos).resources;
            &&& post.clients@ == raised(freed, alive)
            &&& post.map.cells@ == pre.map.cells@.update(
                pre.map.index_of(pos),
                Cell { resources: reduced(bag, needs.resources, 7) },
            )
            &&& post.map.resources == reduced(pre.map.resources, needs.resources, 7)
            &&& post.map.size == pre.map.size
            &&& post.map.eggs == pre.map.eggs
            &&& post.map.next_egg_id == pre.map.next_egg_id
            &&& post.same_except(pre, true, true, false)
            &&& after == (before + consuming_messages(pos, bag, needs.resources)
                + levelup_messages(freed, alive)).push(
                to_observers(GUIResponseView::Pie(pos, true)),
            )
        } else {
            &&& post.clients@ == freed
            &&& post.same_except(pre, true, false, false)
            &&& after == before.push(to_observers(GUIResponseView::Pie(pos, false)))
                + ko_messages(freed, ids)
        }
    }

    /// Sets free every bound player that survives the incantation on `pos` and
    /// returns the handles of the survivors.
    pub(crate) fn release_players(&mut self, ids: &Vec<Id>, pos: UPosition) -> (alive: Vec<Id>)
        requires
            old(self).wf(),
        ensures
            final(self).wf(),
            (final(self).clients@, alive@) == released(old(self).clients@, ids@, pos),
            final(self).same_except(old(self), true, false, false),
    {
        let mut alive: Vec<Id> = Vec::new();
        let ghost players = self.clients@;
        let mut i: usize = 0;
        assert(ids@.subrange(0, 0) =~= Seq::<Id>::empty());
        while i < ids.len()
            invariant
                i <= ids.len(),
                self.wf(),
                self.same_except(old(self), true, false, false),
                players == old(self).clients@,
                (self.clients@, alive@) == released(players, ids@.subrange(0, i as int), pos),
            decreases ids.len() - i,
        {
            assert(ids@.subrange(0, i + 1).drop_last() =~= ids@.subrange(0, i as int));
            let id = ids[i];
            match self.find_player(id) {
                Some(at) => {
                    let mut player = self.clients[at];
                    if player.state == PlayerState::Incantating && player.pos.x == pos.x
                        && player.pos.y == pos.y {
                        player.state = PlayerState::Idle;
                        self.put_player(at, player);
                        alive.push(id);
                    }
                },
                None => {},
            }
            i += 1;
        }
        assert(ids@.subrange(0, i as int) =~= ids@);
        alive
    }

    /// Tells `ko` to each of the handles that is the handle of a player.
    pub(crate) fn tell_ko(&self, ids: &Vec<Id>, outbox: &mut Vec<Outgoing>)
        ensures
            outbox_view(final(outbox)@) == outbox_view(old(outbox)@) + ko_messages(
                self.clients@,
                ids@,
            ),
    {
        let ghost before = outbox_view(outbox@);
        let mut i: usize = 0;
        assert(ids@.subrange(0, 0) =~= Seq::<Id>::empty());
        assert(before + ko_messages(self.clients@, ids@.subrange(0, 0)) =~= before);
        while i < ids.len()
            invariant
                i <= ids.len(),
                outbox_view(outbox@) == before + ko_messages(
                    self.clients@,
                    ids@.subrange(0, i as int),
                ),
            decreases ids.len() - i,
        {
            assert(ids@.subrange(0, i + 1).drop_last() =~= ids@.subrange(0, i as int));
            if self.find_player(ids[i]).is_some() {
                send_to_player(outbox, ids[i], AIResponse::Shared(SharedResponse::Ko));
            }
            i += 1;
            assert(outbox_view(outbox@) =~= before + ko_messages(
                self.clients@,
                ids@.subrange(0, i as int),
            ));
        }
        assert(ids@.subrange(0, i as int) =~= ids@);
    }

    /// Takes `amount` units of `kind` from the cell `pos`, if `amount` is not zero.
    pub(crate) fn consume_kind(
        &mut self,
        kind: Resource,
        amount: u64,
        pos: UPosition,
        outbox: &mut Vec<Outgoing>,
    )
        requires
            old(self).wf(),
            old(self).map.in_range(pos),
            old(self).map.cell_at(pos).resources.count(kind) >= amount,
        ensures
            final(self).wf(),
            final(self).same_except(old(self), false, true, false),
            final(self).map.size == old(self).map.size,
            final(self).map.eggs == old(self).map.eggs,
            final(self).map.next_egg_id == old(self).map.next_egg_id,
            final(self).map.cells@ == old(self).map.cells@.update(
                old(self).map.index_of(pos),
                Cell {
                    resources: old(self).map.cell_at(pos).resources.with(
                        kind,
                        (old(self).map.cell_at(pos).resources.count(kind) - amount) as u64,
                    ),
                },
            ),
            final(self).map.resources == old(self).map.resources.with(
                kind,
                (old(self).map.resources.count(kind) - amount) as u64,
            ),
            old(self).map.resources.count(kind) >= amount,
            outbox_view(final(outbox)@) == outbox_view(old(outbox)@) + bct_if(
                amount > 0,
                pos,
                final(self).map.cell_at(pos).resources,
            ),
    {
        proof {
            self.map.lemma_index(pos);
            lemma_total_bound(self.map.cells@, self.map.index_of(pos), kind);
        }
        if amount > 0 {
            let ghost middle = *self;
            let ghost before = outbox_view(outbox@);
            let _ = self.map.del_resource(kind, amount, pos, outbox);
            proof {
                self.lemma_map_swapped(&middle);
                assert(outbox_view(outbox@) =~= before + bct_if(
                    true,
                    pos,
                    self.map.cell_at(pos).resources,
                ));
            }
        } else {
            proof {
                let bag = self.map.cell_at(pos).resources;
                assert(bag.with(kind, bag.count(kind)) == bag);
                assert(self.map.resources.with(kind, self.map.resources.count(kind))
                    == self.map.resources);
                assert(self.map.cells@ =~= self.map.cells@.update(
                    self.map.index_of(pos),
                    Cell { resources: bag },
                ));
                assert(outbox_view(outbox@) =~= outbox_view(outbox@) + bct_if(false, pos, bag));
            }
        }
    }

    /// Takes what an incantation needs of `kind` from the cell `pos`, after the kinds
    /// before it in storage order have been taken.
    pub(crate) fn consume_step(
        &mut self,
        kind: Resource,
        needs: &Resources,
        pos: UPosition,
        outbox: &mut Vec<Outgoing>,
        Ghost(bag): Ghost<Resources>,
        Ghost(totals): Ghost<Resources>,
        Ghost(cells): Ghost<Seq<Cell>>,
        Ghost(before): Ghost<Seq<OutgoingView>>,
    )
        requires
            old(self).wf(),
            old(self).map.in_range(pos),
            bag.covers(*needs),
            cells.len() == old(self).map.cells@.len(),
            old(self).map.cells@ == cells.update(
                old(self).map.index_of(pos),
                Cell { resources: reduced(bag, *needs, storage_index(kind)) },
            ),
            old(self).map.resources == reduced(totals, *needs, storage_index(kind)),
            outbox_view(old(outbox)@) == before + consuming_upto(
                pos,
                bag,
                *needs,
                storage_index(kind),
            ),
        ensures
            final(self).wf(),
            final(self).same_except(old(self), false, true, false),
            final(self).map.size == old(self).map.size,
            final(self).map.eggs == old(self).map.eggs,
            final(self).map.next_egg_id == old(self).map.next_egg_id,
            final(self).map.cells@ == cells.update(
                old(self).map.index_of(pos),
                Cell { resources: reduced(bag, *needs, storage_index(kind) + 1) },
            ),
            final(self).map.resources == reduced(totals, *needs, storage_index(kind) + 1),
            outbox_view(final(outbox)@) == before + consuming_upto(
                pos,
                bag,
                *needs,
                storage_index(kind) + 1,
            ),
    {
        let ghost at = self.map.index_of(pos);
        let ghost held = reduced(bag, *needs, storage_index(kind));
        proof {
            self.map.lemma_index(pos);
            assert(bag.count(kind) >= needs.count(kind));
            assert(self.map.cells@.len() == cells.len());
            assert(0 <= at < cells.len());
            assert(self.map.cells@[at] == Cell { resources: held });
            assert(held.count(kind) == bag.count(kind));
        }
        self.consume_kind(kind, needs.get(kind), pos, outbox);
        proof {
            assert(held.with(kind, (held.count(kind) - needs.count(kind)) as u64) == reduced(
                bag,
                *needs,
                storage_index(kind) + 1,
            ));
            assert(self.map.cells@ =~= cells.update(
                at,
                Cell { resources: reduced(bag, *needs, storage_index(kind) + 1) },
            ));
            assert(self.map.cells@[at] == Cell {
                resources: reduced(bag, *needs, storage_index(kind) + 1),
            });
            assert(kind_at(storage_index(kind)) == kind);
            assert(outbox_view(outbox@) =~= before + consuming_upto(
                pos,
                bag,
                *needs,
                storage_index(kind) + 1,
            ));
        }
    }

    /// Takes the stones that an incantation needs from the cell `pos`, kind by kind.
    pub(crate) fn consume(&mut self, needs: &Resources, pos: UPosition, outbox: &mut Vec<Outgoing>)
        requires
            old(self).wf(),
            old(self).map.in_range(pos),
            old(self).map.cell_at(pos).resources.covers(*needs),
        ensures
            final(self).wf(),
            final(self).same_except(old(self), false, true, false),
            final(self).map.size == old(self).map.size,
            final(self).map.eggs == old(self).map.eggs,
            final(self).map.next_egg_id == old(self).map.next_egg_id,
            final(self).map.cells@ == old(self).map.cells@.update(
                old(self).map.index_of(pos),
                Cell { resources: reduced(old(self).map.cell_at(pos).resources, *needs, 7) },
            ),
            final(self).map.resources == reduced(old(self).map.resources, *needs, 7),
            outbox_view(final(outbox)@) == outbox_view(old(outbox)@) + consuming_messages(
                pos,
                old(self).map.cell_at(pos).resources,
                *needs,
            ),
    {
        let ghost bag = self.map.cell_at(pos).resources;
        let ghost totals = self.map.resources;
        let ghost cells = self.map.cells@;
        let ghost before = outbox_view(outbox@);
        proof {
            self.map.lemma_index(pos);
            assert(reduced(bag, *needs, 0) == bag);
            assert(reduced(totals, *needs, 0) == totals);
            assert(cells =~= cells.update(self.map.index_of(pos), Cell { resources: bag }));
            assert(before =~= before + consuming_upto(pos, bag, *needs, 0));
        }
        let shown = (Ghost(bag), Ghost(totals), Ghost(cells), Ghost(before));
        self.consume_step(Resource::Deraumere, needs, pos, outbox, shown.0, shown.1, shown.2, shown.3);
        self.consume_step(Resource::Linemate, needs, pos, outbox, shown.0, shown.1, shown.2, shown.3);
        self.consume_step(Resource::Mendiane, needs, pos, outbox, shown.0, shown.1, shown.2, shown.3);
        self.consume_step(Resource::Phiras, needs, pos, outbox, shown.0, shown.1, shown.2, shown.3);
        self.consume_step(Resource::Sibur, needs, pos, outbox, shown.0, shown.1, shown.2, shown.3);
        self.consume_step(Resource::Thystame, needs, pos, outbox, shown.0, shown.1, shown.2, shown.3);
        self.consume_step(Resource::Food, needs, pos, outbox, shown.0, shown.1, shown.2, shown.3);
    }

    /// Raises each of the survivors by one level and tells it and the observers.
    pub(crate) fn raise_players(&mut self, alive: &Vec<Id>, outbox: &mut Vec<Outgoing>)
        requires
            old(self).wf(),
        ensures
            final(self).wf(),
            final(self).clients@ == raised(old(self).clients@, alive@),
            final(self).same_except(old(self), true, false, false),
            outbox_view(final(outbox)@) == outbox_view(old(outbox)@) + levelup_messages(
                old(self).clients@,
                alive@,
            ),
    {
        let ghost before = outbox_view(outbox@);
        let ghost players = self.clients@;
        let mut i: usize = 0;
        assert(alive@.subrange(0, 0) =~= Seq::<Id>::empty());
        assert(before + levelup_messages(players, alive@.subrange(0, 0)) =~= before);
        while i < alive.len()
            invariant
                i <= alive.len(),
                self.wf(),
                self.same_except(old(self), true, false, false),
                players == old(self).clients@,
                self.clients@ == raised(players, alive@.subrange(0, i as int)),
                outbox_view(outbox@) == before + levelup_messages(
                    players,
                    alive@.subrange(0, i as int),
                ),
            decreases alive.len() - i,
        {
            assert(alive@.subrange(0, i + 1).drop_last() =~= alive@.subrange(0, i as int));
            let id = alive[i];
            match self.find_player(id) {
                Some(at) => {
                    let mut player = self.clients[at];
                    player.elevation = player.elevation.upgrade();
                    self.put_player(at, player);
                    send_to_player(outbox, id, AIResponse::LevelUp(player.elevation));
                    send_to_observers(outbox, GUIResponse::Plv(id, player.elevation));
                },
                None => {},
            }
            i += 1;
            assert(outbox_view(outbox@) =~= before + levelup_messages(
                players,
                alive@.subrange(0, i as int),
            ));
        }
        assert(alive@.subrange(0, i as int) =~= alive@);
    }

    /// Ends the incantation of the players `ids` on `pos`.
    pub fn apply_incantation_end(
        &mut self,
        ids: Vec<Id>,
        needs: LevelRequirement,
        pos: UPosition,
        outbox: &mut Vec<Outgoing>,
    )
        requires
            old(self).wf(),
        ensures
            final(self).wf(),
            Server::did_incantation_end(
                old(self),
                final(self),
                ids@,
                needs,
                pos,
                outbox_view(old(outbox)@),
                outbox_view(final(outbox)@),
            ),
    {
        let ghost before = outbox_view(outbox@);
        let alive = self.release_players(&ids, pos);
        let enough = alive.len() >= needs.needed_players() && pos.x < self.map.size.x && pos.y
            < self.map.size.y && self.map.get_ressources_at_pos(pos).has_at_least(
            needs.needed_resources(),
        );
        if !enough {
            send_to_observers(outbox, GUIResponse::Pie(pos, false));
            self.tell_ko(&ids, outbox);
            return ;
        }
        let ghost freed = self.clients@;
        self.consume(needs.needed_resources(), pos, outbox);
        self.raise_players(&alive, outbox);
        send_to_observers(outbox, GUIResponse::Pie(pos, true));
        assert(outbox_view(outbox@) =~= (before + consuming_messages(
            pos,
            old(self).map.cell_at(pos).resources,
            needs.resources,
        ) + levelup_messages(freed, alive@)).push(to_observers(GUIResponseView::Pie(pos, true))));
    }
}

} // verus!
