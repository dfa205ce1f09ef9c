//! What the commands of the players do when their turn comes.
use crate::egg::Egg;
use crate::map::{cell_with, eggs_at, eggs_of, eggs_off, lemma_eggs_split, GameMap};
use crate::player::{lemma_forward, spec_forward, spec_visible, Player, RelativeDirection};
use crate::protocol::{
    outbox_view, send_to_observers, send_to_player, to_observers, to_player, AIResponse,
    AIResponseView, GUIResponse, GUIResponseView, Id, Outgoing, OutgoingView, SharedResponse,
};
use crate::resources::{Resource, Resources};
use crate::server::world::{has_team, player_index, Server};
use crate::sound::{get_sound_direction, spec_sound_direction, Emitter, Receiver};
use crate::text::copy_bytes;
use crate::vec2::{Size, UPosition, Vec2};
use vstd::prelude::*;

verus! {

/// Whether the grid `post` is the grid `pre` with the counter of `resource` on the cell
/// `pos` set to `amount` and the running total moved by as much.
pub open spec fn cell_changed(
    pre: &GameMap,
    post: &GameMap,
    pos: UPosition,
    resource: Resource,
    amount: int,
) -> bool {
    &&& post.cells@ == pre.cells@.update(
        pre.index_of(pos),
        cell_with(pre.cell_at(pos), resource, amount),
    )
    &&& post.resources == pre.resources.with(
        resource,
        (pre.resources.count(resource) - pre.cell_at(pos).resources.count(resource) + amount) as u64,
    )
    &&& post.size == pre.size
    &&& post.eggs == pre.eggs
    &&& post.next_egg_id == pre.next_egg_id
}

/// The plain answer `ok` for the player `id`.
pub open spec fn ok_to(id: Id) -> OutgoingView {
    to_player(id, AIResponseView::Shared(SharedResponse::Okay))
}

/// The plain answer `ko` for the player `id`.
pub open spec fn ko_to(id: Id) -> OutgoingView {
    to_player(id, AIResponseView::Shared(SharedResponse::Ko))
}

impl Server {
    /// What a `Ko` event does: the player is told `ko`. An event of a connection that
    /// is no player does nothing.
    pub open spec fn did_ko(
        pre: &Server,
        post: &Server,
        id: Id,
        before: Seq<OutgoingView>,
        after: Seq<OutgoingView>,
    ) -> bool {
        if player_index(pre.clients@, id) < pre.clients@.len() {
            post.same_except(pre, false, false, false) && after == before.push(ko_to(id))
        } else {
            Server::dropped(pre, post, before, after)
        }
    }

    /// Tells the player `ko`.
    pub fn apply_ko(&mut self, player_id: Id, outbox: &mut Vec<Outgoing>)
        requires
            old(self).wf(),
        ensures
            final(self).wf(),
            Server::did_ko(
                old(self),
                final(self),
                player_id,
                outbox_view(old(outbox)@),
                outbox_view(final(outbox)@),
            ),
    {
        if self.find_player(player_id).is_some() {
            send_to_player(outbox, player_id, AIResponse::Shared(SharedResponse::Ko));
        }
    }

    /// What a move forward does: the player stands one cell further along its heading,
    /// wrapped at the edges; it is told `ok` and the observers are told where it stands.
    pub open spec fn did_forward(
        pre: &Server,
        post: &Server,
        id: Id,
        before: Seq<OutgoingView>,
        after: Seq<OutgoingView>,
    ) -> bool {
        let at = player_index(pre.clients@, id);
        if at < pre.clients@.len() {
            let moved = pre.clients@[at].spec_moved_forward(pre.map.size);
            &&& post.clients@ == pre.clients@.update(at, moved)
            &&& post.same_except(pre, true, false, false)
            &&& after == before.push(ok_to(id)).push(
                to_observers(GUIResponseView::Ppo(id, moved.pos, moved.direction)),
            )
        } else {
            Server::dropped(pre, post, before, after)
        }
    }

    /// Moves the player one cell forward.
    pub fn apply_forward(&mut self, player_id: Id, outbox: &mut Vec<Outgoing>)
        requires
            old(self).wf(),
        ensures
            final(self).wf(),
            Server::did_forward(
                old(self),
                final(self),
                player_id,
                outbox_view(old(outbox)@),
                outbox_view(final(outbox)@),
            ),
    {
        let at = match self.find_player(player_id) {
            Some(at) => at,
            None => { return ; },
        };
        let mut player = self.clients[at];
        let size = self.map.size();
        proof {
            lemma_forward(player, size);
        }
        let _ = player.move_forward(&size);
        self.put_player(at, player);
        send_to_player(outbox, player_id, AIResponse::Shared(SharedResponse::Okay));
        send_to_observers(outbox, GUIResponse::Ppo(player_id, player.pos, player.direction));
    }

    /// What a quarter turn does: the heading of the player turns to the right or to
    /// the left; the player is told `ok` and the observers are told how it stands.
    pub open spec fn did_turn(
        pre: &Server,
        post: &Server,
        id: Id,
        right: bool,
        before: Seq<OutgoingView>,
        after: Seq<OutgoingView>,
    ) -> bool {
        let at = player_index(pre.clients@, id);
        if at < pre.clients@.len() {
            let heading = if right {
                pre.clients@[at].direction.right()
            } else {
                pre.clients@[at].direction.left()
            };
            &&& post.clients@ == pre.clients@.update(
                at,
                Player { direction: heading, ..pre.clients@[at] },
            )
            &&& post.same_except(pre, true, false, false)
            &&& after == before.push(ok_to(id)).push(
                to_observers(GUIResponseView::Ppo(id, pre.clients@[at].pos, heading)),
            )
        } else {
            Server::dropped(pre, post, before, after)
        }
    }

    /// Turns the player a quarter turn to the right, or to the left.
    pub fn apply_turn(&mut self, player_id: Id, right: bool, outbox: &mut Vec<Outgoing>)
        requires
            old(self).wf(),
        ensures
            final(self).wf(),
            Server::did_turn(
                old(self),
                final(self),
                player_id,
                right,
                outbox_view(old(outbox)@),
                outbox_view(final(outbox)@),
            ),
    {
        let at = match self.find_player(player_id) {
            Some(at) => at,
            None => { return ; },
        };
        let mut player = self.clients[at];
        if right {
            player.direction.rotate_right();
        } else {
            player.direction.rotate_left();
        }
        self.put_player(at, player);
        send_to_player(outbox, player_id, AIResponse::Shared(SharedResponse::Okay));
        send_to_observers(outbox, GUIResponse::Ppo(player_id, player.pos, player.direction));
    }

    /// What an inventory request does: the player is told what it carries.
    pub open spec fn did_inventory(
        pre: &Server,
        post: &Server,
        id: Id,
        before: Seq<OutgoingView>,
        after: Seq<OutgoingView>,
    ) -> bool {
        let at = player_index(pre.clients@, id);
        if at < pre.clients@.len() {
            post.same_except(pre, false, false, false) && after == before.push(
                to_player(id, AIResponseView::Inventory(pre.clients@[at].inventory)),
            )
        } else {
            Server::dropped(pre, post, before, after)
        }
    }

    /// Tells the player what it carries.
    pub fn apply_inventory(&mut self, player_id: Id, outbox: &mut Vec<Outgoing>)
        requires
            old(self).wf(),
        ensures
            final(self).wf(),
            Server::did_inventory(
                old(self),
                final(self),
                player_id,
                outbox_view(old(outbox)@),
                outbox_view(final(outbox)@),
            ),
    {
        match self.find_player(player_id) {
            Some(at) => {
                send_to_player(outbox, player_id, AIResponse::Inventory(self.clients[at].inventory));
            },
            None => {},
        }
    }

    /// What a request for the open slots does: the player is told how many eggs its
    /// team has.
    pub open spec fn did_connect_nbr(
        pre: &Server,
        post: &Server,
        id: Id,
        before: Seq<OutgoingView>,
        after: Seq<OutgoingView>,
    ) -> bool {
        let at = player_index(pre.clients@, id);
        if at < pre.clients@.len() {
            post.same_except(pre, false, false, false) && after == before.push(
                to_player(
                    id,
                    AIResponseView::ConnectNbr(
                        eggs_of(pre.map.eggs@, pre.clients@[at].team) as u64,
                    ),
                ),
            )
        } else {
            Server::dropped(pre, post, before, after)
        }
    }

    /// Tells the player how many eggs its team has.
    pub fn apply_connect_nbr(&mut self, player_id: Id, outbox: &mut Vec<Outgoing>)
        requires
            old(self).wf(),
        ensures
            final(self).wf(),
            Server::did_connect_nbr(
                old(self),
                final(self),
                player_id,
                outbox_view(old(outbox)@),
                outbox_view(final(outbox)@),
            ),
    {
        match self.find_player(player_id) {
            Some(at) => {
                let eggs = self.map.nb_eggs_by_team(self.clients[at].team);
                send_to_player(outbox, player_id, AIResponse::ConnectNbr(eggs));
            },
            None => {},
        }
    }

    /// What a fork does: a new egg of the player's team lies where the player stands;
    /// the observers are told of the fork and of the egg, and the player is told `ok`.
    /// Where no handle is left for an egg, nothing is laid and the player is told `ko`.
    pub open spec fn did_fork(
        pre: &Server,
        post: &Server,
        id: Id,
        before: Seq<OutgoingView>,
        after: Seq<OutgoingView>,
    ) -> bool {
        let at = player_index(pre.clients@, id);
        if at < pre.clients@.len() {
            let player = pre.clients@[at];
            if pre.map.next_egg_id < u64::MAX {
                let egg = Egg { id: pre.map.next_egg_id, team_id: player.team, pos: player.pos };
                &&& post.map.eggs@ == pre.map.eggs@.push(egg)
                &&& post.map.next_egg_id == pre.map.next_egg_id + 1
                &&& post.map.cells == pre.map.cells
                &&& post.map.resources == pre.map.resources
                &&& post.map.size == pre.map.size
                &&& post.same_except(pre, false, true, false)
                &&& after == before.push(to_observers(GUIResponseView::Pfk(id))).push(
                    to_observers(GUIResponseView::Enw(egg.id, id, player.pos)),
                ).push(ok_to(id))
            } else {
                post.same_except(pre, false, false, false) && after == before.push(ko_to(id))
            }
        } else {
            Server::dropped(pre, post, before, after)
        }
    }

    /// Lays an egg where the player stands.
    pub fn apply_fork(&mut self, player_id: Id, outbox: &mut Vec<Outgoing>)
        requires
            old(self).wf(),
        ensures
            final(self).wf(),
            Server::did_fork(
                old(self),
                final(self),
                player_id,
                outbox_view(old(outbox)@),
                outbox_view(final(outbox)@),
            ),
    {
        let at = match self.find_player(player_id) {
            Some(at) => at,
            None => { return ; },
        };
        let player = self.clients[at];
        if self.map.next_egg_id == u64::MAX {
            send_to_player(outbox, player_id, AIResponse::Shared(SharedResponse::Ko));
            return ;
        }
        let egg_id = self.map.spawn_egg(player.team, player.pos);
        proof {
            let eggs = self.map.eggs@;
            assert forall|i: int| 0 <= i < eggs.len() implies self.map.in_range(
                (#[trigger] eggs[i]).pos,
            ) && has_team(self.teams@, eggs[i].team_id) by {
                if i < old(self).map.eggs@.len() {
                    assert(eggs[i] == old(self).map.eggs@[i]);
                }
            }
        }
        send_to_observers(outbox, GUIResponse::Pfk(player_id));
        send_to_observers(outbox, GUIResponse::Enw(egg_id, player_id, player.pos));
        send_to_player(outbox, player_id, AIResponse::Shared(SharedResponse::Okay));
    }

    /// What a take does where one unit of `resource` lies on the player's cell and the
    /// player can carry one more: the unit moves from the cell into the inventory; the
    /// observers are told of the take, of what the player carries now and of what
    /// lies on the cell now, in that order, and the player is told `ok`. Otherwise
    /// nothing moves and the player is told `ko`.
    pub open spec fn did_take(
        pre: &Server,
        post: &Server,
        id: Id,
        resource: Resource,
        before: Seq<OutgoingView>,
        after: Seq<OutgoingView>,
    ) -> bool {
        let at = player_index(pre.clients@, id);
        if at < pre.clients@.len() {
            let player = pre.clients@[at];
            let lying = pre.map.cell_at(player.pos).resources.count(resource);
            let held = player.inventory.count(resource);
            if lying >= 1 && held < u64::MAX {
                let bag = player.inventory.with(resource, (held + 1) as u64);
                &&& post.clients@ == pre.clients@.update(at, Player { inventory: bag, ..player })
                &&& cell_changed(&pre.map, &post.map, player.pos, resource, lying - 1)
                &&& post.same_except(pre, true, true, false)
                &&& after == before.push(to_observers(GUIResponseView::Pgt(id, resource))).push(
                    to_observers(GUIResponseView::Pin(id, player.pos, bag)),
                ).push(
                    to_observers(
                        GUIResponseView::Bct((player.pos, post.map.cell_at(player.pos).resources)),
                    ),
                ).push(ok_to(id))
            } else {
                post.same_except(pre, false, false, false) && after == before.push(ko_to(id))
            }
        } else {
            Server::dropped(pre, post, before, after)
        }
    }

    /// Moves one unit of `resource` from the player's cell into its inventory.
    pub fn apply_take(&mut self, player_id: Id, resource: Resource, outbox: &mut Vec<Outgoing>)
        requires
            old(self).wf(),
        ensures
            final(self).wf(),
            Server::did_take(
                old(self),
                final(self),
                player_id,
                resource,
                outbox_view(old(outbox)@),
                outbox_view(final(outbox)@),
            ),
    {
        let at = match self.find_player(player_id) {
            Some(at) => at,
            None => { return ; },
        };
        let mut player = self.clients[at];
        let lying = self.map.get_ressources_at_pos(player.pos).get(resource);
        let held = player.inventory.get(resource);
        if lying < 1 || held == u64::MAX {
            send_to_player(outbox, player_id, AIResponse::Shared(SharedResponse::Ko));
            return ;
        }
        let _ = player.add_resource(resource, 1);
        self.put_player(at, player);
        send_to_observers(outbox, GUIResponse::Pgt(player_id, resource));
        send_to_observers(outbox, GUIResponse::Pin(player_id, player.pos, player.inventory));
        let ghost middle = *self;
        let _ = self.map.del_resource(resource, 1, player.pos, outbox);
        proof {
            self.lemma_map_swapped(&middle);
        }
        send_to_player(outbox, player_id, AIResponse::Shared(SharedResponse::Okay));
    }

    /// What a set does where the player carries one unit of `resource` and the grid
    /// can count one more: the unit moves from the inventory onto the player's cell;
    /// the observers are told of the set, of what the player carries now and of what
    /// lies on the cell now, in that order, and the player is told `ok`. Otherwise
    /// nothing moves and the player is told `ko`.
    pub open spec fn did_set(
        pre: &Server,
        post: &Server,
        id: Id,
        resource: Resource,
        before: Seq<OutgoingView>,
        after: Seq<OutgoingView>,
    ) -> bool {
        let at = player_index(pre.clients@, id);
        if at < pre.clients@.len() {
            let player = pre.clients@[at];
            let lying = pre.map.cell_at(player.pos).resources.count(resource);
            let held = player.inventory.count(resource);
            if held >= 1 && pre.map.resources.count(resource) < u64::MAX {
                let bag = player.inventory.with(resource, (held - 1) as u64);
                &&& post.clients@ == pre.clients@.update(at, Player { inventory: bag, ..player })
                &&& cell_changed(&pre.map, &post.map, player.pos, resource, lying + 1)
                &&& post.same_except(pre, true, true, false)
                &&& after == before.push(to_observers(GUIResponseView::Pdr(id, resource))).push(
                    to_observers(GUIResponseView::Pin(id, player.pos, bag)),
                ).push(
                    to_observers(
                        GUIResponseView::Bct((player.pos, post.map.cell_at(player.pos).resources)),
                    ),
                ).push(ok_to(id))
            } else {
                post.same_except(pre, false, false, false) && after == before.push(ko_to(id))
            }
        } else {
            Server::dropped(pre, post, before, after)
        }
    }

    /// Moves one unit of `resource` from the player's inventory onto its cell.
    pub fn apply_set(&mut self, player_id: Id, resource: Resource, outbox: &mut Vec<Outgoing>)
        requires
            old(self).wf(),
        ensures
            final(self).wf(),
            Server::did_set(
                old(self),
                final(self),
                player_id,
                resource,
                outbox_view(old(outbox)@),
                outbox_view(final(outbox)@),
            ),
    {
        let at = match self.find_player(player_id) {
            Some(at) => at,
            None => { return ; },
        };
        let mut player = self.clients[at];
        let held = player.inventory.get(resource);
        if held < 1 || self.map.resources().get(resource) == u64::MAX {
            send_to_player(outbox, player_id, AIResponse::Shared(SharedResponse::Ko));
            return ;
        }
        let _ = player.del_resource(resource, 1);
        self.put_player(at, player);
        send_to_observers(outbox, GUIResponse::Pdr(player_id, resource));
        send_to_observers(outbox, GUIResponse::Pin(player_id, player.pos, player.inventory));
        let ghost middle = *self;
        self.map.add_resource(resource, 1, player.pos, outbox);
        proof {
            self.lemma_map_swapped(&middle);
        }
        send_to_player(outbox, player_id, AIResponse::Shared(SharedResponse::Okay));
    }
}

/// What the players other than `emitter` hear of a broadcast, in the order of the
/// list: each is told the words and the sector from which they reach it.
pub open spec fn broadcast_messages(
    players: Seq<Player>,
    emitter: Player,
    size: Size,
    words: Seq<u8>,
) -> Seq<OutgoingView>
    decreases players.len(),
{
    if players.len() == 0 {
        Seq::empty()
    } else {
        let rest = broadcast_messages(players.drop_last(), emitter, size, words);
        let hearer = players.last();
        if hearer.id != emitter.id {
            rest.push(
                to_player(
                    hearer.id,
                    AIResponseView::Broadcast(
                        spec_sound_direction(
                            Emitter { pos: emitter.pos },
                            Receiver { pos: hearer.pos, direction: hearer.direction },
                            size,
                        ) as u8,
                        words,
                    ),
                ),
            )
        } else {
            rest
        }
    }
}

/// The number of players that stand on `pos`.
pub open spec fn players_at(players: Seq<Player>, pos: UPosition) -> nat
    decreases players.len(),
{
    if players.len() == 0 {
        0
    } else {
        players_at(players.drop_last(), pos) + if players.last().pos == pos {
            1nat
        } else {
            0nat
        }
    }
}

/// Whether `player` is pushed by an eject of `pusher` from the cell `from`: it stands
/// there and is not the pusher.
pub open spec fn is_pushed(player: Player, pusher: Id, from: UPosition) -> bool {
    player.pos == from && player.id != pusher
}

/// The players after an eject: every pushed player stands on `to`.
pub open spec fn spec_ejected(players: Seq<Player>, pusher: Id, from: UPosition, to: UPosition) -> Seq<
    Player,
> {
    Seq::new(
        players.len(),
        |i: int|
            if is_pushed(players[i], pusher, from) {
                Player { pos: to, ..players[i] }
            } else {
                players[i]
            },
    )
}

/// What an eject tells about the pushed players, in the order of the list: for each,
/// the observers are told where it stands now, and the player is told from which
/// side it was pushed.
pub open spec fn eject_messages(players: Seq<Player>, pusher: Player, to: UPosition) -> Seq<
    OutgoingView,
>
    decreases players.len(),
{
    if players.len() == 0 {
        Seq::empty()
    } else {
        let rest = eject_messages(players.drop_last(), pusher, to);
        let pushed = players.last();
        if is_pushed(pushed, pusher.id, pusher.pos) {
            rest.push(to_observers(GUIResponseView::Ppo(pushed.id, to, pushed.direction))).push(
                to_player(
                    pushed.id,
                    AIResponseView::Eject(
                        RelativeDirection::spec_of_push(
                            pusher.direction,
                            pushed.direction,
                        ).spec_sector() as u8,
                    ),
                ),
            )
        } else {
            rest
        }
    }
}

/// The notice of each broken egg for the observers, in order.
pub open spec fn edi_messages(eggs: Seq<Egg>) -> Seq<OutgoingView>
    decreases eggs.len(),
{
    if eggs.len() == 0 {
        Seq::empty()
    } else {
        edi_messages(eggs.drop_last()).push(to_observers(GUIResponseView::Edi(eggs.last().id)))
    }
}

impl Server {
    /// What a broadcast does: every other player hears the words from its sector; the
    /// observers are told of the broadcast, and the emitter is told `ok`.
    pub open spec fn did_broadcast(
        pre: &Server,
        post: &Server,
        id: Id,
        words: Seq<u8>,
        before: Seq<OutgoingView>,
        after: Seq<OutgoingView>,
    ) -> bool {
        let at = player_index(pre.clients@, id);
        if at < pre.clients@.len() {
            post.same_except(pre, false, false, false) && after == (before + broadcast_messages(
                pre.clients@,
                pre.clients@[at],
                pre.map.size,
                words,
            )).push(to_observers(GUIResponseView::Pbc(id, words))).push(ok_to(id))
        } else {
            Server::dropped(pre, post, before, after)
        }
    }

    /// Carries the words of the player to every other player.
    pub fn apply_broadcast(&mut self, player_id: Id, words: Vec<u8>, outbox: &mut Vec<Outgoing>)
        requires
            old(self).wf(),
        ensures
            final(self).wf(),
            Server::did_broadcast(
                old(self),
                final(self),
                player_id,
                words@,
                outbox_view(old(outbox)@),
                outbox_view(final(outbox)@),
            ),
    {
        let at = match self.find_player(player_id) {
            Some(at) => at,
            None => { return ; },
        };
        let emitter = self.clients[at];
        let size = self.map.size();
        let ghost before = outbox_view(outbox@);
        let mut i: usize = 0;
        assert(self.clients@.subrange(0, 0) =~= Seq::<Player>::empty());
        assert(before + broadcast_messages(self.clients@.subrange(0, 0), emitter, size, words@)
            =~= before);
        while i < self.clients.len()
            invariant
                i <= self.clients.len(),
                *self == *old(self),
                size == self.map.size,
                size.x > 0,
                size.y > 0,
                outbox_view(outbox@) == before + broadcast_messages(
                    self.clients@.subrange(0, i as int),
                    emitter,
                    size,
                    words@,
                ),
            decreases self.clients.len() - i,
        {
            assert(self.clients@.subrange(0, i + 1).drop_last() =~= self.clients@.subrange(
                0,
                i as int,
            ));
            let hearer = self.clients[i];
            if hearer.id != emitter.id {
                let sector = get_sound_direction(Emitter::of(&emitter), Receiver::of(&hearer), size);
                send_to_player(
                    outbox,
                    hearer.id,
                    AIResponse::Broadcast(sector, copy_bytes(words.as_slice())),
                );
            }
            i += 1;
            assert(outbox_view(outbox@) =~= before + broadcast_messages(
                self.clients@.subrange(0, i as int),
                emitter,
                size,
                words@,
            ));
        }
        assert(self.clients@.subrange(0, i as int) =~= self.clients@);
        send_to_observers(outbox, GUIResponse::Pbc(player_id, words));
        send_to_player(outbox, player_id, AIResponse::Shared(SharedResponse::Okay));
    }

    /// What a player sees on the cell `(x, y)`, wrapped onto the grid: the number of
    /// players on it and what lies on it.
    pub open spec fn spec_look_cell(&self, x: int, y: int) -> (u64, Resources) {
        let pos = self.map.spec_wrapped(x, y);
        (players_at(self.clients@, pos) as u64, self.map.cell_at(pos).resources)
    }

    /// What `player` sees: its own cell first, then the rows in front of it, one for
    /// each level of elevation, nearest first and each from left to right.
    pub open spec fn spec_look(&self, player: Player) -> Seq<(u64, Resources)> {
        let seen = spec_visible(player.pos, player.direction, player.elevation);
        Seq::new(seen.len(), |i: int| self.spec_look_cell(seen[i].0, seen[i].1))
    }

    /// What a look does: the player is told what it sees.
    pub open spec fn did_look(
        pre: &Server,
        post: &Server,
        id: Id,
        before: Seq<OutgoingView>,
        after: Seq<OutgoingView>,
    ) -> bool {
        let at = player_index(pre.clients@, id);
        if at < pre.clients@.len() {
            post.same_except(pre, false, false, false) && after == before.push(
                to_player(id, AIResponseView::Look(pre.spec_look(pre.clients@[at]))),
            )
        } else {
            Server::dropped(pre, post, before, after)
        }
    }

    /// The number of players that stand on `pos`.
    pub fn count_players_at(&self, pos: UPosition) -> (count: u64)
        ensures
            count == players_at(self.clients@, pos),
    {
        let mut count: u64 = 0;
        let mut i: usize = 0;
        assert(self.clients@.subrange(0, 0) =~= Seq::<Player>::empty());
        while i < self.clients.len()
            invariant
                i <= self.clients.len(),
                count <= i,
                count == players_at(self.clients@.subrange(0, i as int), pos),
            decreases self.clients.len() - i,
        {
            assert(self.clients@.subrange(0, i + 1).drop_last() =~= self.clients@.subrange(
                0,
                i as int,
            ));
            if self.clients[i].pos.x == pos.x && self.clients[i].pos.y == pos.y {
                count += 1;
            }
            i += 1;
        }
        assert(self.clients@.subrange(0, i as int) =~= self.clients@);
        count
    }

    /// Tells the player what it sees.
    pub fn apply_look(&mut self, player_id: Id, outbox: &mut Vec<Outgoing>)
        requires
            old(self).wf(),
        ensures
            final(self).wf(),
            Server::did_look(
                old(self),
                final(self),
                player_id,
                outbox_view(old(outbox)@),
                outbox_view(final(outbox)@),
            ),
    {
        let at = match self.find_player(player_id) {
            Some(at) => at,
            None => { return ; },
        };
        let player = self.clients[at];
        let seen = player.get_visible_positions();
        let ghost cells = spec_visible(player.pos, player.direction, player.elevation);
        let mut view: Vec<(u64, Resources)> = Vec::new();
        let mut i: usize = 0;
        while i < seen.len()
            invariant
                i <= seen.len(),
                *self == *old(self),
                self.wf(),
                seen@.len() == cells.len(),
                forall|k: int|
                    0 <= k < seen@.len() ==> (#[trigger] seen@[k].x as int, seen@[k].y as int)
                        == cells[k],
                view@.len() == i,
                forall|k: int|
                    0 <= k < i ==> #[trigger] view@[k] == self.spec_look_cell(
                        cells[k].0,
                        cells[k].1,
                    ),
            decreases seen.len() - i,
        {
            assert((seen@[i as int].x as int, seen@[i as int].y as int) == cells[i as int]);
            let pos = self.map.get_pos_signed(seen[i]);
            let count = self.count_players_at(pos);
            let bag = *self.map.get_ressources_at_pos(pos);
            view.push((count, bag));
            i += 1;
        }
        assert(view@ =~= self.spec_look(player));
        send_to_player(outbox, player_id, AIResponse::Look(view));
    }

    /// What an eject does: every other player on the pusher's cell is moved one cell
    /// along the pusher's heading and told from which side it was pushed, and the
    /// observers are told where it stands now; every egg on the cell is broken. Where
    /// a player was pushed or an egg broken, the observers are told of the eject and
    /// of each broken egg, and the pusher is told `ok`; otherwise it is told `ko`.
    pub open spec fn did_eject(
        pre: &Server,
        post: &Server,
        id: Id,
        before: Seq<OutgoingView>,
        after: Seq<OutgoingView>,
    ) -> bool {
        let at = player_index(pre.clients@, id);
        if at < pre.clients@.len() {
            let pusher = pre.clients@[at];
            let to = spec_forward(pusher.pos, pusher.direction, pre.map.size);
            let pushed = eject_messages(pre.clients@, pusher, to);
            let broken = eggs_at(pre.map.eggs@, pusher.pos);
            &&& post.clients@ == spec_ejected(pre.clients@, id, pusher.pos, to)
            &&& post.map.eggs@ == eggs_off(pre.map.eggs@, pusher.pos)
            &&& post.map.cells == pre.map.cells
            &&& post.map.resources == pre.map.resources
            &&& post.map.size == pre.map.size
            &&& post.map.next_egg_id == pre.map.next_egg_id
            &&& post.same_except(pre, true, true, false)
            &&& after == if pushed.len() > 0 || broken.len() > 0 {
                ((before + pushed).push(to_observers(GUIResponseView::Pex(id))) + edi_messages(
                    broken,
                )).push(ok_to(id))
            } else {
                before.push(ko_to(id))
            }
        } else {
            Server::dropped(pre, post, before, after)
        }
    }

    /// Pushes every other player off the player's cell and breaks the eggs on it.
    pub fn apply_eject(&mut self, player_id: Id, outbox: &mut Vec<Outgoing>)
        requires
            old(self).wf(),
        ensures
            final(self).wf(),
            Server::did_eject(
                old(self),
                final(self),
                player_id,
                outbox_view(old(outbox)@),
                outbox_view(final(outbox)@),
            ),
    {
        let at = match self.find_player(player_id) {
            Some(at) => at,
            None => { return ; },
        };
        let pusher = self.clients[at];
        let step = pusher.direction.step();
        let to = self.map.get_pos_with_offset(pusher.pos, Vec2 { x: step.0, y: step.1 });
        assert(to == spec_forward(pusher.pos, pusher.direction, self.map.size));
        let ghost before = outbox_view(outbox@);
        let ghost players = self.clients@;
        let mut pushed: bool = false;
        let mut i: usize = 0;
        assert(players.subrange(0, 0) =~= Seq::<Player>::empty());
        assert(before + eject_messages(players.subrange(0, 0), pusher, to) =~= before);
        while i < self.clients.len()
            invariant
                i <= self.clients.len(),
                self.wf(),
                self.same_except(old(self), true, false, false),
                players == old(self).clients@,
                self.clients@.len() == players.len(),
                self.map.in_range(to),
                pusher.id == player_id,
                forall|k: int|
                    0 <= k < i ==> #[trigger] self.clients@[k] == spec_ejected(
                        players,
                        player_id,
                        pusher.pos,
                        to,
                    )[k],
                forall|k: int| i <= k < players.len() ==> #[trigger] self.clients@[k] == players[k],
                outbox_view(outbox@) == before + eject_messages(
                    players.subrange(0, i as int),
                    pusher,
                    to,
                ),
                pushed == (eject_messages(players.subrange(0, i as int), pusher, to).len() > 0),
            decreases self.clients.len() - i,
        {
            assert(players.subrange(0, i + 1).drop_last() =~= players.subrange(0, i as int));
            let mut player = self.clients[i];
            assert(player == players[i as int]);
            if player.pos.x == pusher.pos.x && player.pos.y == pusher.pos.y && player.id
                != player_id {
                player.pos = to;
                let ghost earlier = self.clients@;
                self.put_player(i, player);
                let side = RelativeDirection::of_push(pusher.direction, player.direction);
                send_to_observers(outbox, GUIResponse::Ppo(player.id, to, player.direction));
                send_to_player(outbox, player.id, AIResponse::Eject(side.sector()));
                pushed = true;
                assert forall|k: int| 0 <= k < i + 1 implies #[trigger] self.clients@[k]
                    == spec_ejected(players, player_id, pusher.pos, to)[k] by {
                    if k < i {
                        assert(self.clients@[k] == earlier[k]);
                    }
                }
                assert forall|k: int| i + 1 <= k < players.len() implies #[trigger] self.clients@[k]
                    == players[k] by {
                    assert(self.clients@[k] == earlier[k]);
                }
            }
            i += 1;
            assert(outbox_view(outbox@) =~= before + eject_messages(
                players.subrange(0, i as int),
                pusher,
                to,
            ));
        }
        assert(players.subrange(0, i as int) =~= players);
        assert(self.clients@ =~= spec_ejected(players, player_id, pusher.pos, to));
        let ghost middle = *self;
        let broken = self.map.break_eggs_at_pos(pusher.pos);
        proof {
            lemma_eggs_split(middle.map.eggs@, pusher.pos);
            assert forall|k: int| 0 <= k < self.map.eggs@.len() implies self.map.in_range(
                (#[trigger] self.map.eggs@[k]).pos,
            ) && has_team(self.teams@, self.map.eggs@[k].team_id) by {
                let egg = self.map.eggs@[k];
                assert(middle.map.eggs@.contains(egg));
                let j = choose|j: int| 0 <= j < middle.map.eggs@.len() && middle.map.eggs@[j] == egg;
                assert(middle.map.in_range(middle.map.eggs@[j].pos));
            }
            assert forall|k: int| 0 <= k < self.clients@.len() implies self.map.in_range(
                (#[trigger] self.clients@[k]).pos,
            ) && has_team(self.teams@, self.clients@[k].team) && self.clients@[k].id
                < self.next_client_id by {
                assert(middle.map.in_range(middle.clients@[k].pos));
            }
        }
        if pushed || broken.len() > 0 {
            send_to_observers(outbox, GUIResponse::Pex(player_id));
            let ghost told = outbox_view(outbox@);
            let mut k: usize = 0;
            assert(broken@.subrange(0, 0) =~= Seq::<Egg>::empty());
            assert(told + edi_messages(broken@.subrange(0, 0)) =~= told);
            while k < broken.len()
                invariant
                    k <= broken.len(),
                    outbox_view(outbox@) == told + edi_messages(broken@.subrange(0, k as int)),
                decreases broken.len() - k,
            {
                assert(broken@.subrange(0, k + 1).drop_last() =~= broken@.subrange(0, k as int));
                send_to_observers(outbox, GUIResponse::Edi(broken[k].id));
                k += 1;
                assert(outbox_view(outbox@) =~= told + edi_messages(
                    broken@.subrange(0, k as int),
                ));
            }
            assert(broken@.subrange(0, k as int) =~= broken@);
            send_to_player(outbox, player_id, AIResponse::Shared(SharedResponse::Okay));
        } else {
            send_to_player(outbox, player_id, AIResponse::Shared(SharedResponse::Ko));
        }
    }
}

} // verus!
