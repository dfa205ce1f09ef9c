//! What happens on a tick: refill, due events, hunger.
use crate::constant::SATIETY_LOSS_PER_TICK;
use crate::event::{Event, Queue, TimedEvent};
use crate::map::lemma_total_bound;
use crate::player::Player;
use crate::protocol::{
    outbox_view, send_to_observers, send_to_player, to_observers, to_player, AIResponse,
    AIResponseView, GUIResponse, GUIResponseView, Id, Outgoing, OutgoingView,
};
use crate::random::random_below;
use crate::resources::{all_resources, Resource, Resources};
use crate::server::incantation::{lemma_locked_clock, locked, participants, storage_index};
use crate::server::world::{player_index, Server};
use crate::vec2::{UPosition, Vec2};
use vstd::prelude::*;

verus! {

/// Whether a player starves on this tick: after the loss of one unit of satiety and
/// a meal, where it has food, its satiety is zero.
pub open spec fn starves(player: Player) -> bool {
    player.spec_after_hunger(SATIETY_LOSS_PER_TICK).satiety == 0
}

/// The players after a tick of hunger: the starved are gone, the others are hungrier
/// or have eaten.
pub open spec fn fed(players: Seq<Player>) -> Seq<Player>
    decreases players.len(),
{
    if players.len() == 0 {
        Seq::empty()
    } else if starves(players.last()) {
        fed(players.drop_last())
    } else {
        fed(players.drop_last()).push(players.last().spec_after_hunger(SATIETY_LOSS_PER_TICK))
    }
}

/// What is told of the starved, in the order of the list: each is told that it is
/// dead, and the observers are told so too.
pub open spec fn death_messages(players: Seq<Player>) -> Seq<OutgoingView>
    decreases players.len(),
{
    if players.len() == 0 {
        Seq::empty()
    } else if starves(players.last()) {
        death_messages(players.drop_last()).push(
            to_player(players.last().id, AIResponseView::Dead),
        ).push(to_observers(GUIResponseView::Pdi(players.last().id)))
    } else {
        death_messages(players.drop_last())
    }
}

/// What each of the players carries, for the observers, in the order of the list.
pub open spec fn pin_messages(players: Seq<Player>) -> Seq<OutgoingView>
    decreases players.len(),
{
    if players.len() == 0 {
        Seq::empty()
    } else {
        pin_messages(players.drop_last()).push(
            to_observers(
                GUIResponseView::Pin(
                    players.last().id,
                    players.last().pos,
                    players.last().inventory,
                ),
            ),
        )
    }
}

/// How many units of `resource` a grid of `cells` cells is refilled to: the density
/// of the resource times the number of cells, rounded down. The densities are 0.5
/// for food, 0.3 for linemate, 0.15 for deraumere, 0.1 for sibur and for mendiane,
/// 0.08 for phiras and 0.05 for thystame.
pub open spec fn spec_refill_target(resource: Resource, cells: int) -> int {
    match resource {
        Resource::Food => cells * 50 / 100,
        Resource::Linemate => cells * 30 / 100,
        Resource::Deraumere => cells * 15 / 100,
        Resource::Sibur => cells * 10 / 100,
        Resource::Mendiane => cells * 10 / 100,
        Resource::Phiras => cells * 8 / 100,
        Resource::Thystame => cells * 5 / 100,
    }
}

/// How many units of `resource` a grid of `cells` cells is refilled to.
pub fn refill_target(resource: Resource, cells: u64) -> (target: u64)
    ensures
        target == spec_refill_target(resource, cells as int),
{
    let percent: u128 = match resource {
        Resource::Food => 50,
        Resource::Linemate => 30,
        Resource::Deraumere => 15,
        Resource::Sibur => 10,
        Resource::Mendiane => 10,
        Resource::Phiras => 8,
        Resource::Thystame => 5,
    };
    ((cells as u128) * percent / 100) as u64
}

/// Whether every answer is a notice for the observers of what lies on a cell.
pub open spec fn only_cell_notices(told: Seq<OutgoingView>) -> bool {
    forall|i: int|
        0 <= i < told.len() ==> exists|pos: UPosition, bag: Resources| #[trigger]
            told[i] == to_observers(GUIResponseView::Bct((pos, bag)))
}

impl Server {
    /// What an event does when it falls due, by its kind. A placeholder does nothing.
    pub open spec fn did_event(
        pre: &Server,
        post: &Server,
        id: Id,
        data: Event,
        before: Seq<OutgoingView>,
        after: Seq<OutgoingView>,
    ) -> bool {
        match data {
            Event::Broadcast(words) => Server::did_broadcast(pre, post, id, words@, before, after),
            Event::Forward => Server::did_forward(pre, post, id, before, after),
            Event::Right => Server::did_turn(pre, post, id, true, before, after),
            Event::Left => Server::did_turn(pre, post, id, false, before, after),
            Event::Look => Server::did_look(pre, post, id, before, after),
            Event::Inventory => Server::did_inventory(pre, post, id, before, after),
            Event::ConnectNbr => Server::did_connect_nbr(pre, post, id, before, after),
            Event::Fork => Server::did_fork(pre, post, id, before, after),
            Event::Eject => Server::did_eject(pre, post, id, before, after),
            Event::Take(resource) => Server::did_take(pre, post, id, resource, before, after),
            Event::SetObject(resource) => Server::did_set(pre, post, id, resource, before, after),
            Event::Incantation => Server::did_incantation(pre, post, id, before, after),
            Event::Ko => Server::did_ko(pre, post, id, before, after),
            Event::Phantom => Server::dropped(pre, post, before, after),
            Event::IncantationEnd(ids, needs, pos) => Server::did_incantation_end(
                pre,
                post,
                ids@,
                needs,
                pos,
                before,
                after,
            ),
        }
    }

    /// Applies an event that has fallen due.
    pub fn apply_event(&mut self, event: TimedEvent<Event>, outbox: &mut Vec<Outgoing>)
        requires
            old(self).wf(),
        ensures
            final(self).wf(),
            Server::did_event(
                old(self),
                final(self),
                event.player_id,
                event.data,
                outbox_view(old(outbox)@),
                outbox_view(final(outbox)@),
            ),
            final(self).teams == old(self).teams,
            final(self).pending_clients@ == old(self).pending_clients@,
            final(self).guis@ == old(self).guis@,
            final(self).frequency == old(self).frequency,
            final(self).next_client_id == old(self).next_client_id,
            final(self).event_scheduler.current_tick == old(self).event_scheduler.current_tick,
            final(self).map.size == old(self).map.size,
    {
        let id = event.player_id;
        match event.data {
            Event::Broadcast(words) => self.apply_broadcast(id, words, outbox),
            Event::Forward => self.apply_forward(id, outbox),
            Event::Right => self.apply_turn(id, true, outbox),
            Event::Left => self.apply_turn(id, false, outbox),
            Event::Look => self.apply_look(id, outbox),
            Event::Inventory => self.apply_inventory(id, outbox),
            Event::ConnectNbr => self.apply_connect_nbr(id, outbox),
            Event::Fork => self.apply_fork(id, outbox),
            Event::Eject => self.apply_eject(id, outbox),
            Event::Take(resource) => self.apply_take(id, resource, outbox),
            Event::SetObject(resource) => self.apply_set(id, resource, outbox),
            Event::Incantation => {
                self.apply_incantation(id, outbox);
                proof {
                    lemma_locked_clock(
                        old(self).event_scheduler@,
                        participants(
                            old(self).clients@,
                            old(self).clients@[player_index(old(self).clients@, id)].pos,
                            old(self).clients@[player_index(old(self).clients@, id)].elevation,
                        ),
                        id,
                    );
                }
            },
            Event::Ko => self.apply_ko(id, outbox),
            Event::Phantom => {},
            Event::IncantationEnd(ids, needs, pos) => self.apply_incantation_end(
                ids,
                needs,
                pos,
                outbox,
            ),
        }
    }

    /// What a tick of hunger does: every player loses one unit of satiety and eats
    /// where it reaches zero; a player that starves is told that it is dead, the
    /// observers are told so, and it leaves the world. Where `notify` holds, the
    /// observers are then told what each remaining player carries.
    pub open spec fn did_hunger(
        pre: &Server,
        post: &Server,
        notify: bool,
        before: Seq<OutgoingView>,
        after: Seq<OutgoingView>,
    ) -> bool {
        &&& post.clients@ == fed(pre.clients@)
        &&& post.same_except(pre, true, false, false)
        &&& after == before + death_messages(pre.clients@) + if notify {
            pin_messages(post.clients@)
        } else {
            Seq::empty()
        }
    }

    /// Lets a tick of hunger pass over every player.
    pub fn reduce_satiety(&mut self, notify: bool, outbox: &mut Vec<Outgoing>)
        requires
            old(self).wf(),
        ensures
            final(self).wf(),
            Server::did_hunger(
                old(self),
                final(self),
                notify,
                outbox_view(old(outbox)@),
                outbox_view(final(outbox)@),
            ),
    {
        let ghost before = outbox_view(outbox@);
        let ghost players = self.clients@;
        let ghost mut seen: int = 0;
        let mut i: usize = 0;
        proof {
            assert(players.subrange(0, 0) =~= Seq::<Player>::empty());
            assert(players.subrange(0, players.len() as int) =~= players);
            assert(self.clients@ =~= fed(players.subrange(0, 0)) + players.subrange(
                0,
                players.len() as int,
            ));
            assert(before + death_messages(players.subrange(0, 0)) =~= before);
        }
        while i < self.clients.len()
            invariant
                self.wf(),
                self.same_except(old(self), true, false, false),
                players == old(self).clients@,
                0 <= seen <= players.len(),
                i == fed(players.subrange(0, seen)).len(),
                self.clients@ == fed(players.subrange(0, seen)) + players.subrange(
                    seen,
                    players.len() as int,
                ),
                outbox_view(outbox@) == before + death_messages(players.subrange(0, seen)),
            decreases players.len() - seen,
        {
            let ghost earlier = self.clients@;
            let ghost done = fed(players.subrange(0, seen));
            assert(earlier[i as int] == players[seen]);
            assert(players.subrange(0, seen + 1).drop_last() =~= players.subrange(0, seen));
            let mut player = self.clients[i];
            let left = player.reduce_satiety(SATIETY_LOSS_PER_TICK);
            if left == 0 {
                send_to_player(outbox, player.id, AIResponse::Dead);
                send_to_observers(outbox, GUIResponse::Pdi(player.id));
                let _ = self.take_player(i);
                proof {
                    assert(self.clients@ =~= done + players.subrange(
                        seen + 1,
                        players.len() as int,
                    ));
                }
            } else {
                self.put_player(i, player);
                proof {
                    assert(self.clients@ =~= done.push(player) + players.subrange(
                        seen + 1,
                        players.len() as int,
                    ));
                }
                i += 1;
            }
            proof {
                seen = seen + 1;
                assert(outbox_view(outbox@) =~= before + death_messages(
                    players.subrange(0, seen),
                ));
            }
        }
        proof {
            assert(seen == players.len()) by {
                if seen < players.len() {
                    assert(self.clients@.len() == i + (players.len() - seen));
                }
            }
            assert(players.subrange(0, seen) =~= players);
            assert(self.clients@ =~= fed(players));
        }
        if notify {
            let ghost told = outbox_view(outbox@);
            let mut k: usize = 0;
            assert(self.clients@.subrange(0, 0) =~= Seq::<Player>::empty());
            assert(told + pin_messages(self.clients@.subrange(0, 0)) =~= told);
            while k < self.clients.len()
                invariant
                    k <= self.clients.len(),
                    outbox_view(outbox@) == told + pin_messages(
                        self.clients@.subrange(0, k as int),
                    ),
                decreases self.clients.len() - k,
            {
                assert(self.clients@.subrange(0, k + 1).drop_last() =~= self.clients@.subrange(
                    0,
                    k as int,
                ));
                let player = self.clients[k];
                send_to_observers(outbox, GUIResponse::Pin(player.id, player.pos, player.inventory));
                k += 1;
                assert(outbox_view(outbox@) =~= told + pin_messages(
                    self.clients@.subrange(0, k as int),
                ));
            }
            assert(self.clients@.subrange(0, k as int) =~= self.clients@);
        } else {
            assert(outbox_view(outbox@) =~= outbox_view(outbox@) + Seq::<OutgoingView>::empty());
        }
    }

    /// Refills the grid: of each resource of which less lies on the grid than its
    /// target, units are put on cells drawn at random, one by one, until the target
    /// is met. The observers are told of every cell that gets a unit.
    pub fn spawn_resources(&mut self, outbox: &mut Vec<Outgoing>)
        requires
            old(self).wf(),
        ensures
            final(self).wf(),
            Server::did_refill(
                old(self),
                final(self),
                outbox_view(old(outbox)@),
                outbox_view(final(outbox)@),
            ),
    {
        let ghost before = outbox_view(outbox@);
        assert(self.map.size.x * self.map.size.y <= 255 * 255) by (nonlinear_arith)
            requires
                self.map.size.x <= 255,
                self.map.size.y <= 255,
        ;
        let cells: u64 = self.map.size.x * self.map.size.y;
        let kinds = Resource::iter();
        let mut i: usize = 0;
        assert(before.subrange(0, before.len() as int) =~= before);
        while i < kinds.len()
            invariant
                i <= kinds.len(),
                kinds@ == all_resources(),
                self.wf(),
                self.same_except(old(self), false, true, false),
                self.map.size == old(self).map.size,
                self.map.eggs == old(self).map.eggs,
                self.map.next_egg_id == old(self).map.next_egg_id,
                cells == self.map.size.x * self.map.size.y,
                before == outbox_view(old(outbox)@),
                forall|resource: Resource| #[trigger]
                    self.map.resources.count(resource) == if storage_index(resource) < i && old(
                        self).map.resources.count(resource) < spec_refill_target(
                        resource,
                        cells as int,
                    ) {
                        spec_refill_target(resource, cells as int)
                    } else {
                        old(self).map.resources.count(resource) as int
                    },
                self.map.cells@.len() == old(self).map.cells@.len(),
                forall|at: int|
                    0 <= at < old(self).map.cells@.len() ==> (
                    #[trigger] self.map.cells@[at]).resources.covers(
                        old(self).map.cells@[at].resources,
                    ),
                outbox_view(outbox@).len() >= before.len(),
                outbox_view(outbox@).subrange(0, before.len() as int) == before,
                only_cell_notices(
                    outbox_view(outbox@).subrange(
                        before.len() as int,
                        outbox_view(outbox@).len() as int,
                    ),
                ),
            decreases kinds.len() - i,
        {
            let kind = kinds[i];
            assert(storage_index(kind) == i);
            let target = refill_target(kind, cells);
            while self.map.resources.get(kind) < target
                invariant
                    self.wf(),
                    self.same_except(old(self), false, true, false),
                    self.map.size == old(self).map.size,
                    self.map.eggs == old(self).map.eggs,
                    self.map.next_egg_id == old(self).map.next_egg_id,
                    before == outbox_view(old(outbox)@),
                    storage_index(kind) == i,
                    target == spec_refill_target(kind, cells as int),
                    old(self).map.resources.count(kind) <= self.map.resources.count(kind),
                    self.map.resources.count(kind) > old(self).map.resources.count(kind)
                        ==> self.map.resources.count(kind) <= target,
                    forall|resource: Resource|
                        resource != kind ==> #[trigger] self.map.resources.count(resource)
                            == if storage_index(resource) < i && old(self).map.resources.count(
                            resource,
                        ) < spec_refill_target(resource, cells as int) {
                            spec_refill_target(resource, cells as int)
                        } else {
                            old(self).map.resources.count(resource) as int
                        },
                    self.map.cells@.len() == old(self).map.cells@.len(),
                    forall|at: int|
                        0 <= at < old(self).map.cells@.len() ==> (
                        #[trigger] self.map.cells@[at]).resources.covers(
                            old(self).map.cells@[at].resources,
                        ),
                    outbox_view(outbox@).len() >= before.len(),
                    outbox_view(outbox@).subrange(0, before.len() as int) == before,
                    only_cell_notices(
                        outbox_view(outbox@).subrange(
                            before.len() as int,
                            outbox_view(outbox@).len() as int,
                        ),
                    ),
                decreases target - self.map.resources.count(kind),
            {
                let x = random_below(self.map.size.x);
                let y = random_below(self.map.size.y);
                let pos = Vec2 { x, y };
                let ghost middle = *self;
                let ghost told = outbox_view(outbox@);
                self.map.add_resource(kind, 1, pos, outbox);
                proof {
                    self.lemma_map_swapped(&middle);
                    middle.map.lemma_index(pos);
                    assert forall|resource: Resource| resource != kind implies #[trigger]
                        self.map.resources.count(resource) == middle.map.resources.count(
                            resource,
                        ) by {}
                    assert forall|at: int| 0 <= at < old(self).map.cells@.len() implies (
                    #[trigger] self.map.cells@[at]).resources.covers(
                        old(self).map.cells@[at].resources,
                    ) by {
                        assert(middle.map.cells@[at].resources.covers(
                            old(self).map.cells@[at].resources,
                        ));
                        lemma_total_bound(middle.map.cells@, middle.map.index_of(pos), kind);
                        assert forall|resource: Resource|
                            self.map.cells@[at].resources.count(resource) >= old(
                                self).map.cells@[at].resources.count(resource) by {
                            assert(middle.map.cells@[at].resources.count(resource) >= old(
                                self).map.cells@[at].resources.count(resource));
                            if at == middle.map.index_of(pos) {
                                let held = middle.map.cells@[at].resources;
                                assert(self.map.cells@[at].resources == held.with(
                                    kind,
                                    (held.count(kind) + 1) as u64,
                                ));
                            } else {
                                assert(self.map.cells@[at] == middle.map.cells@[at]);
                            }
                        }
                    }
                    let now = outbox_view(outbox@);
                    assert(now.subrange(0, before.len() as int) =~= told.subrange(
                        0,
                        before.len() as int,
                    ));
                    let tail = now.subrange(before.len() as int, now.len() as int);
                    let earlier = told.subrange(before.len() as int, told.len() as int);
                    assert forall|k: int| 0 <= k < tail.len() implies exists|
                        pos: UPosition,
                        bag: Resources,
                    | #[trigger]
                        tail[k] == to_observers(GUIResponseView::Bct((pos, bag))) by {
                        if k < earlier.len() {
                            assert(tail[k] == earlier[k]);
                        } else {
                            assert(tail[k] == to_observers(
                                GUIResponseView::Bct((pos, self.map.cell_at(pos).resources)),
                            ));
                        }
                    }
                }
            }
            i += 1;
        }
    }

    /// What a refill does, whatever cells are drawn: of each resource the grid holds
    /// its target or what it held before, whichever is more; no cell holds less than
    /// before; and the observers are told of cells, once for each unit that was put
    /// down, and of nothing else.
    pub open spec fn did_refill(
        pre: &Server,
        post: &Server,
        before: Seq<OutgoingView>,
        after: Seq<OutgoingView>,
    ) -> bool {
        let cells = pre.map.size.x * pre.map.size.y;
        &&& post.same_except(pre, false, true, false)
        &&& post.map.size == pre.map.size
        &&& post.map.eggs == pre.map.eggs
        &&& post.map.next_egg_id == pre.map.next_egg_id
        &&& forall|resource: Resource| #[trigger]
            post.map.resources.count(resource) == if pre.map.resources.count(resource)
                < spec_refill_target(resource, cells) {
                spec_refill_target(resource, cells)
            } else {
                pre.map.resources.count(resource) as int
            }
        &&& post.map.cells@.len() == pre.map.cells@.len()
        &&& forall|at: int|
            0 <= at < pre.map.cells@.len() ==> (#[trigger] post.map.cells@[at]).resources.covers(
                pre.map.cells@[at].resources,
            )
        &&& after.len() >= before.len()
        &&& after.subrange(0, before.len() as int) == before
        &&& only_cell_notices(after.subrange(before.len() as int, after.len() as int))
    }

    /// What the clock does on a tick: it moves one tick on, and the events that fall
    /// due by then leave the queue, in the order in which they fall due.
    pub open spec fn did_tick(pre: &Server, post: &Server, due: Seq<TimedEvent<Event>>) -> bool {
        &&& post.same_except(pre, false, false, true)
        &&& post.event_scheduler.current_tick == pre.event_scheduler.current_tick + 1
        &&& post.event_scheduler.next_event_id == pre.event_scheduler.next_event_id
        &&& due + post.event_scheduler.events@ == pre.event_scheduler.events@
        &&& forall|i: int|
            0 <= i < due.len() ==> (#[trigger] due[i]).expiration_tick
                <= post.event_scheduler.current_tick
        &&& forall|i: int|
            0 <= i < post.event_scheduler.events@.len() ==> (
            #[trigger] post.event_scheduler.events@[i]).expiration_tick
                > post.event_scheduler.current_tick
    }

    /// What the events that have fallen due do, one after the other.
    pub open spec fn did_events(
        pre: &Server,
        post: &Server,
        due: Seq<TimedEvent<Event>>,
        before: Seq<OutgoingView>,
        after: Seq<OutgoingView>,
    ) -> bool
        decreases due.len(),
    {
        if due.len() == 0 {
            Server::dropped(pre, post, before, after)
        } else {
            exists|middle: Server, told: Seq<OutgoingView>|
                #![trigger Server::did_event(
                    &middle,
                    post,
                    due.last().player_id,
                    due.last().data,
                    told,
                    after,
                )]
                {
                    &&& middle.wf()
                    &&& Server::did_events(pre, &middle, due.drop_last(), before, told)
                    &&& Server::did_event(
                        &middle,
                        post,
                        due.last().player_id,
                        due.last().data,
                        told,
                        after,
                    )
                }
        }
    }

    /// What a tick does: a refill, a tick of the clock, the events that fall due, and
    /// a tick of hunger, in that order.
    pub open spec fn did_update(
        pre: &Server,
        post: &Server,
        notify: bool,
        before: Seq<OutgoingView>,
        after: Seq<OutgoingView>,
    ) -> bool {
        exists|
            refilled: Server,
            ticked: Server,
            applied: Server,
            due: Seq<TimedEvent<Event>>,
            first: Seq<OutgoingView>,
            second: Seq<OutgoingView>,
        |
            #![trigger Server::did_tick(&refilled, &ticked, due), Server::did_events(&ticked, &applied, due, first, second)]
            {
                &&& refilled.wf()
                &&& ticked.wf()
                &&& applied.wf()
                &&& Server::did_refill(pre, &refilled, before, first)
                &&& Server::did_tick(&refilled, &ticked, due)
                &&& Server::did_events(&ticked, &applied, due, first, second)
                &&& Server::did_hunger(&applied, post, notify, second, after)
            }
    }

    /// Applies the events that have fallen due, one after the other.
    pub fn apply_events(&mut self, due: Vec<TimedEvent<Event>>, outbox: &mut Vec<Outgoing>)
        requires
            old(self).wf(),
        ensures
            final(self).wf(),
            Server::did_events(
                old(self),
                final(self),
                due@,
                outbox_view(old(outbox)@),
                outbox_view(final(outbox)@),
            ),
            final(self).teams == old(self).teams,
            final(self).pending_clients@ == old(self).pending_clients@,
            final(self).guis@ == old(self).guis@,
            final(self).frequency == old(self).frequency,
            final(self).next_client_id == old(self).next_client_id,
            final(self).event_scheduler.current_tick == old(self).event_scheduler.current_tick,
            final(self).map.size == old(self).map.size,
    {
        let mut due = due;
        let ghost all = due@;
        let ghost before = outbox_view(outbox@);
        let ghost mut done: int = 0;
        proof {
            assert(all.subrange(0, 0) =~= Seq::<TimedEvent<Event>>::empty());
            assert(all.subrange(0, all.len() as int) =~= all);
        }
        while due.len() > 0
            invariant
                self.wf(),
                0 <= done <= all.len(),
                due@ == all.subrange(done, all.len() as int),
                Server::did_events(
                    old(self),
                    self,
                    all.subrange(0, done),
                    before,
                    outbox_view(outbox@),
                ),
                self.teams == old(self).teams,
                self.pending_clients@ == old(self).pending_clients@,
                self.guis@ == old(self).guis@,
                self.frequency == old(self).frequency,
                self.next_client_id == old(self).next_client_id,
                self.event_scheduler.current_tick == old(self).event_scheduler.current_tick,
                self.map.size == old(self).map.size,
            decreases due.len(),
        {
            let ghost middle = *self;
            let ghost told = outbox_view(outbox@);
            let event = due.remove(0);
            let ghost shown = event;
            self.apply_event(event, outbox);
            proof {
                let upto = all.subrange(0, done + 1);
                assert(upto.drop_last() =~= all.subrange(0, done));
                assert(upto.last() == shown);
                assert(Server::did_event(
                    &middle,
                    self,
                    upto.last().player_id,
                    upto.last().data,
                    told,
                    outbox_view(outbox@),
                ));
                assert(due@ =~= all.subrange(done + 1, all.len() as int));
                done = done + 1;
            }
        }
        proof {
            assert(all.subrange(0, done) =~= all);
        }
    }

    /// Lets one tick pass: the grid is refilled, the clock moves one tick on, every
    /// event that has fallen due is applied in the order in which they fall due, and
    /// a tick of hunger passes over every player.
    pub fn update(&mut self, notify: bool, outbox: &mut Vec<Outgoing>)
        requires
            old(self).wf(),
            old(self).event_scheduler.current_tick < u64::MAX,
        ensures
            final(self).wf(),
            Server::did_update(
                old(self),
                final(self),
                notify,
                outbox_view(old(outbox)@),
                outbox_view(final(outbox)@),
            ),
            final(self).event_scheduler.current_tick == old(self).event_scheduler.current_tick
                + 1,
            final(self).teams == old(self).teams,
            final(self).pending_clients@ == old(self).pending_clients@,
            final(self).guis@ == old(self).guis@,
            final(self).frequency == old(self).frequency,
            final(self).next_client_id == old(self).next_client_id,
            final(self).map.size == old(self).map.size,
    {
        self.spawn_resources(outbox);
        let ghost refilled = *self;
        let ghost first = outbox_view(outbox@);
        let expired = self.event_scheduler.tick();
        let ghost ticked = *self;
        let ghost due = expired@;
        self.apply_events(expired, outbox);
        let ghost applied = *self;
        let ghost second = outbox_view(outbox@);
        self.reduce_satiety(notify, outbox);
        proof {
            assert(Server::did_tick(&refilled, &ticked, due));
            assert(Server::did_events(&ticked, &applied, due, first, second));
        }
    }
}

} // verus!
