//! What the server does with the requests of the connections, kind by kind.
use crate::constant::{REFILL_PER_FOOD, STARTING_FOOD};
use crate::event::Event;
use crate::map::{eggs_of, GameMap};
use crate::player::{Direction, Player, PlayerState};
use crate::protocol::{
    outbox_view, send_to_observer, send_to_observers, send_to_pending, to_observer, to_observers,
    to_pending, AIAction, BctResponse, EventType, EventView, GUIAction, GUIResponse,
    GUIResponseView, GameEvent, Id, Outgoing, OutgoingView, PendingAction, PendingResponse,
    SharedAction, SharedResponse, TeamType,
};
use crate::random::random_below;
use crate::resources::{ElevationLevel, Resource, Resources};
use crate::server::world::{has_team, lemma_without, player_index, without, Server};
use crate::team::Team;
use crate::text::{copy_bytes, is_text, same_bytes, text, views};
use crate::vec2::UPosition;
use vstd::prelude::*;

verus! {

/// The ticks that a player's command takes, for the commands that a player may send.
pub open spec fn spec_ai_cost(event: EventView) -> Option<u64> {
    match event {
        EventView::Broadcast(_) => Some(7),
        EventView::Forward => Some(7),
        EventView::Right => Some(7),
        EventView::Left => Some(7),
        EventView::Look => Some(7),
        EventView::Take(_) => Some(7),
        EventView::SetObject(_) => Some(7),
        EventView::Eject => Some(7),
        EventView::Inventory => Some(1),
        EventView::ConnectNbr => Some(0),
        EventView::Fork => Some(42),
        EventView::Incantation => Some(0),
        _ => None,
    }
}

/// Where the first team with the name `name` stands in the list, or the length of the
/// list if no team has the name.
pub open spec fn team_index(teams: Seq<Team>, name: Seq<u8>) -> int
    decreases teams.len(),
{
    if teams.len() == 0 || teams[0].name@ == name {
        0
    } else {
        1 + team_index(teams.drop_first(), name)
    }
}

/// The names of the teams, in order.
pub open spec fn team_names(teams: Seq<Team>) -> Seq<Seq<u8>> {
    Seq::new(teams.len(), |k: int| teams[k].name@)
}

/// Every cell of the grid with its position and what lies on it, row by row.
pub open spec fn all_cells(map: &GameMap) -> Seq<BctResponse> {
    Seq::new(map.cells@.len(), |k: int| (map.position_of(k), map.cells@[k].resources))
}

/// The player that is born from an egg on `pos`: ten units of food, the first level,
/// a full stomach, and free.
pub open spec fn newborn(team: Id, id: Id, pos: UPosition, heading: Direction) -> Player {
    Player {
        team,
        id,
        inventory: Resources::empty().with(Resource::Food, STARTING_FOOD),
        pos,
        direction: heading,
        elevation: ElevationLevel::Level1,
        satiety: REFILL_PER_FOOD,
        state: PlayerState::Idle,
    }
}

/// The nanoseconds between two ticks at `frequency` ticks a second: a thousand
/// million divided by the frequency, rounded down. At frequency zero the clock
/// stands still, which is spelled as the greatest number.
pub open spec fn spec_tick_period(frequency: u64) -> u64 {
    if frequency == 0 {
        u64::MAX
    } else {
        (1_000_000_000int / (frequency as int)) as u64
    }
}

impl Server {
    /// What the server answers to an observer's request, but for a disconnection,
    /// which gets no answer. A cell outside the grid and a handle of no player are
    /// answered as bad parameters.
    pub open spec fn spec_gui_answer(&self, action: GUIAction) -> Option<GUIResponseView> {
        match action {
            GUIAction::Shared(SharedAction::Disconnected) => None,
            GUIAction::Shared(SharedAction::InvalidParameters) => Some(GUIResponseView::Sbp),
            GUIAction::Shared(_) => Some(GUIResponseView::Shared(SharedResponse::Ko)),
            GUIAction::Msz => Some(GUIResponseView::Msz(self.map.size)),
            GUIAction::Bct(pos) => if self.map.in_range(pos) {
                Some(GUIResponseView::Bct((pos, self.map.cell_at(pos).resources)))
            } else {
                Some(GUIResponseView::Sbp)
            },
            GUIAction::Mct => Some(GUIResponseView::Mct(all_cells(&self.map))),
            GUIAction::Tna => Some(GUIResponseView::Tna(team_names(self.teams@))),
            GUIAction::Ppo(player) => {
                let at = player_index(self.clients@, player);
                if at < self.clients@.len() {
                    Some(
                        GUIResponseView::Ppo(
                            player,
                            self.clients@[at].pos,
                            self.clients@[at].direction,
                        ),
                    )
                } else {
                    Some(GUIResponseView::Sbp)
                }
            },
            GUIAction::Plv(player) => {
                let at = player_index(self.clients@, player);
                if at < self.clients@.len() {
                    Some(GUIResponseView::Plv(player, self.clients@[at].elevation))
                } else {
                    Some(GUIResponseView::Sbp)
                }
            },
            GUIAction::Pin(player) => {
                let at = player_index(self.clients@, player);
                if at < self.clients@.len() {
                    Some(
                        GUIResponseView::Pin(
                            player,
                            self.clients@[at].pos,
                            self.clients@[at].inventory,
                        ),
                    )
                } else {
                    Some(GUIResponseView::Sbp)
                }
            },
            GUIAction::Sgt => Some(GUIResponseView::Sgt(self.frequency)),
            GUIAction::Sst(frequency) => Some(GUIResponseView::Sst(frequency)),
        }
    }

    /// Whether `self` differs from `old` at most in the list of observers and in the
    /// tick frequency.
    pub open spec fn same_world(&self, old: &Server) -> bool {
        &&& self.clients@ == old.clients@
        &&& self.map == old.map
        &&& self.event_scheduler == old.event_scheduler
        &&& self.teams == old.teams
        &&& self.pending_clients@ == old.pending_clients@
        &&& self.next_client_id == old.next_client_id
    }

    /// What an observer's request does. A request of a connection that is no observer
    /// does nothing. An observer that disconnects leaves the list of observers. `sst`
    /// sets the tick frequency. Every request but a disconnection is answered to the
    /// observer that made it.
    pub open spec fn did_gui_request(
        pre: &Server,
        post: &Server,
        id: Id,
        action: GUIAction,
        before: Seq<OutgoingView>,
        after: Seq<OutgoingView>,
    ) -> bool {
        &&& post.same_world(pre)
        &&& if pre.guis@.contains(id) {
            &&& post.guis@ == if action == GUIAction::Shared(SharedAction::Disconnected) {
                without(pre.guis@, id)
            } else {
                pre.guis@
            }
            &&& post.frequency == (match action {
                GUIAction::Sst(frequency) => frequency,
                _ => pre.frequency,
            })
            &&& after == (match pre.spec_gui_answer(action) {
                Some(answer) => before.push(to_observer(id, answer)),
                None => before,
            })
        } else {
            post.guis@ == pre.guis@ && post.frequency == pre.frequency && after == before
        }
    }

    /// Whether `id` is in the list.
    pub(crate) fn listed(ids: &Vec<Id>, id: Id) -> (found: bool)
        ensures
            found == ids@.contains(id),
    {
        let mut i: usize = 0;
        while i < ids.len()
            invariant
                i <= ids.len(),
                forall|k: int| 0 <= k < i ==> ids@[k] != id,
            decreases ids.len() - i,
        {
            if ids[i] == id {
                return true;
            }
            i += 1;
        }
        false
    }

    /// The list without every entry equal to `id`.
    pub(crate) fn thinned(ids: &Vec<Id>, id: Id) -> (kept: Vec<Id>)
        ensures
            kept@ == without(ids@, id),
    {
        let mut kept: Vec<Id> = Vec::new();
        let mut i: usize = 0;
        assert(ids@.subrange(0, 0) =~= Seq::<Id>::empty());
        while i < ids.len()
            invariant
                i <= ids.len(),
                kept@ == without(ids@.subrange(0, i as int), id),
            decreases ids.len() - i,
        {
            assert(ids@.subrange(0, i + 1).drop_last() =~= ids@.subrange(0, i as int));
            if ids[i] != id {
                kept.push(ids[i]);
            }
            i += 1;
        }
        assert(ids@.subrange(0, i as int) =~= ids@);
        kept
    }

    /// Every cell of the grid with its position and what lies on it.
    pub(crate) fn list_cells(&self) -> (cells: Vec<BctResponse>)
        requires
            self.wf(),
        ensures
            cells@ == all_cells(&self.map),
    {
        let listed = self.map.cells_with_positions();
        let mut cells: Vec<BctResponse> = Vec::new();
        let mut i: usize = 0;
        while i < listed.len()
            invariant
                i <= listed.len(),
                listed@.len() == self.map.cells@.len(),
                forall|at: int|
                    0 <= at < listed@.len() ==> #[trigger] listed@[at] == (
                        self.map.position_of(at),
                        self.map.cells@[at],
                    ),
                cells@.len() == i,
                forall|k: int| 0 <= k < i ==> #[trigger] cells@[k] == all_cells(&self.map)[k],
            decreases listed.len() - i,
        {
            let entry = listed[i];
            cells.push((entry.0, entry.1.resources));
            i += 1;
        }
        assert(cells@ =~= all_cells(&self.map));
        cells
    }

    /// The names of the teams.
    pub(crate) fn list_teams(&self) -> (names: Vec<Vec<u8>>)
        ensures
            views(names@) == team_names(self.teams@),
    {
        let mut names: Vec<Vec<u8>> = Vec::new();
        let mut i: usize = 0;
        while i < self.teams.len()
            invariant
                i <= self.teams.len(),
                names@.len() == i,
                forall|k: int| 0 <= k < i ==> (#[trigger] names@[k])@ == self.teams@[k].name@,
            decreases self.teams.len() - i,
        {
            names.push(copy_bytes(self.teams[i].name()));
            i += 1;
        }
        assert(views(names@) =~= team_names(self.teams@));
        names
    }

    /// Takes in a request of the observer `id` and answers it.
    pub fn handle_gui_events(&mut self, id: Id, action: GUIAction, outbox: &mut Vec<Outgoing>)
        requires
            old(self).wf(),
        ensures
            final(self).wf(),
            Server::did_gui_request(
                old(self),
                final(self),
                id,
                action,
                outbox_view(old(outbox)@),
                outbox_view(final(outbox)@),
            ),
    {
        if !Self::listed(&self.guis, id) {
            return ;
        }
        let answer = match action {
            GUIAction::Shared(SharedAction::Disconnected) => {
                self.guis = Self::thinned(&self.guis, id);
                return ;
            },
            GUIAction::Shared(SharedAction::InvalidParameters) => GUIResponse::Sbp,
            GUIAction::Shared(_) => GUIResponse::Shared(SharedResponse::Ko),
            GUIAction::Msz => GUIResponse::Msz(self.map.size()),
            GUIAction::Bct(pos) => match self.map.get(pos) {
                Some(cell) => GUIResponse::Bct((pos, *cell.ressources())),
                None => GUIResponse::Sbp,
            },
            GUIAction::Mct => GUIResponse::Mct(self.list_cells()),
            GUIAction::Tna => GUIResponse::Tna(self.list_teams()),
            GUIAction::Ppo(player) => match self.find_player(player) {
                Some(at) => GUIResponse::Ppo(player, self.clients[at].pos, self.clients[at].direction),
                None => GUIResponse::Sbp,
            },
            GUIAction::Plv(player) => match self.find_player(player) {
                Some(at) => GUIResponse::Plv(player, self.clients[at].elevation),
                None => GUIResponse::Sbp,
            },
            GUIAction::Pin(player) => match self.find_player(player) {
                Some(at) => GUIResponse::Pin(player, self.clients[at].pos, self.clients[at].inventory),
                None => GUIResponse::Sbp,
            },
            GUIAction::Sgt => GUIResponse::Sgt(self.frequency),
            GUIAction::Sst(frequency) => {
                self.frequency = frequency;
                GUIResponse::Sst(frequency)
            },
        };
        send_to_observer(outbox, id, answer);
    }

    /// The nanoseconds between two ticks at the current frequency.
    pub fn tick_period_nanos(&self) -> (period: u64)
        ensures
            period == spec_tick_period(self.frequency),
    {
        if self.frequency == 0 {
            u64::MAX
        } else {
            1_000_000_000 / self.frequency
        }
    }

    /// What a log-in as a player does, once the egg and the heading are drawn: the
    /// egg of the team that has `number` eggs of the team before it is taken; the
    /// connection stops waiting; a newborn player with the heading `heading` stands
    /// where the egg lay; the connection is told how many eggs its team has left
    /// and how large the grid is; and the observers are told of the player and of
    /// the egg.
    pub open spec fn logged_in(
        pre: &Server,
        post: &Server,
        id: Id,
        team_at: int,
        number: u64,
        heading: Direction,
        before: Seq<OutgoingView>,
        after: Seq<OutgoingView>,
    ) -> bool {
        let team = pre.teams@[team_at];
        exists|at: int|
            {
                &&& 0 <= at < pre.map.eggs@.len()
                &&& (#[trigger] pre.map.eggs@[at]).team_id == team.id
                &&& eggs_of(pre.map.eggs@.subrange(0, at), team.id) == number
                &&& post.map.eggs@ == pre.map.eggs@.remove(at)
                &&& post.map.cells == pre.map.cells
                &&& post.map.resources == pre.map.resources
                &&& post.map.size == pre.map.size
                &&& post.map.next_egg_id == pre.map.next_egg_id
                &&& post.clients@ == pre.clients@.push(
                    newborn(team.id, id, pre.map.eggs@[at].pos, heading),
                )
                &&& post.pending_clients@ == without(pre.pending_clients@, id)
                &&& post.guis@ == pre.guis@
                &&& post.teams == pre.teams
                &&& post.event_scheduler == pre.event_scheduler
                &&& post.frequency == pre.frequency
                &&& post.next_client_id == pre.next_client_id
                &&& after == before.push(
                    to_pending(
                        id,
                        PendingResponse::LogAs(
                            TeamType::IA(
                                (eggs_of(pre.map.eggs@, team.id) - 1) as u64,
                                pre.map.size,
                            ),
                        ),
                    ),
                ).push(
                    to_observers(
                        GUIResponseView::Pnw(
                            id,
                            pre.map.eggs@[at].pos,
                            heading,
                            ElevationLevel::Level1,
                            team.name@,
                        ),
                    ),
                ).push(to_observers(GUIResponseView::Ebo(pre.map.eggs@[at].id)))
            }
    }

    /// Logs the waiting connection `id` in as a player of the team at `team_at`, born
    /// from the egg with the given number and looking along `heading`.
    pub fn login_with(
        &mut self,
        id: Id,
        team_at: usize,
        number: u64,
        heading: Direction,
        outbox: &mut Vec<Outgoing>,
    )
        requires
            old(self).wf(),
            old(self).pending_clients@.contains(id),
            team_at < old(self).teams@.len(),
            number < eggs_of(old(self).map.eggs@, old(self).teams@[team_at as int].id),
        ensures
            final(self).wf(),
            Server::logged_in(
                old(self),
                final(self),
                id,
                team_at as int,
                number,
                heading,
                outbox_view(old(outbox)@),
                outbox_view(final(outbox)@),
            ),
    {
        let team_id = self.teams[team_at].id;
        let name = copy_bytes(self.teams[team_at].name());
        let egg = self.map.drop_egg_number(team_id, number);
        let left = self.map.nb_eggs_by_team(team_id);
        let ghost at = choose|at: int|
            0 <= at < old(self).map.eggs@.len() && #[trigger] old(self).map.eggs@[at] == egg
                && eggs_of(old(self).map.eggs@.subrange(0, at), team_id) == number
                && self.map.eggs@ == old(self).map.eggs@.remove(at);
        self.pending_clients = Self::thinned(&self.pending_clients, id);
        let player = Player {
            team: team_id,
            id,
            inventory: Resources::builder().food(STARTING_FOOD).build(),
            pos: egg.pos,
            direction: heading,
            elevation: ElevationLevel::Level1,
            satiety: REFILL_PER_FOOD,
            state: PlayerState::Idle,
        };
        self.clients.push(player);
        proof {
            let eggs = self.map.eggs@;
            let olds = old(self).map.eggs@;
            assert(old(self).map.in_range(olds[at].pos));
            assert forall|i: int| 0 <= i < eggs.len() implies self.map.in_range(
                (#[trigger] eggs[i]).pos,
            ) && has_team(self.teams@, eggs[i].team_id) by {
                let i0 = if i < at {
                    i
                } else {
                    i + 1
                };
                assert(eggs[i] == olds[i0]);
                assert(old(self).map.in_range(olds[i0].pos));
            }
            lemma_without(old(self).pending_clients@, id);
            let waiting = self.pending_clients@;
            assert forall|i: int| 0 <= i < waiting.len() implies (#[trigger] waiting[i])
                < self.next_client_id by {
                assert(old(self).pending_clients@.contains(waiting[i]));
                let k = choose|k: int|
                    0 <= k < old(self).pending_clients@.len() && old(self).pending_clients@[k]
                        == waiting[i];
                assert(old(self).pending_clients@[k] < self.next_client_id);
            }
            let k0 = choose|k: int|
                0 <= k < old(self).pending_clients@.len() && old(self).pending_clients@[k] == id;
            assert(old(self).pending_clients@[k0] < old(self).next_client_id);
            let players = self.clients@;
            let before = old(self).clients@;
            assert(self.teams@[team_at as int].id == team_id);
            assert forall|i: int| 0 <= i < players.len() implies self.map.in_range(
                (#[trigger] players[i]).pos,
            ) && has_team(self.teams@, players[i].team) && players[i].id
                < self.next_client_id by {
                if i < before.len() {
                    assert(players[i] == before[i]);
                    assert(old(self).map.in_range(before[i].pos));
                }
            }
            assert forall|i: int, j: int| 0 <= i < j < players.len() implies (
            #[trigger] players[i]).id != (#[trigger] players[j]).id by {
                assert(players[i] == before[i]);
                if j < before.len() {
                    assert(players[j] == before[j]);
                } else {
                    assert(old(self).pending_clients@[k0] != before[i].id);
                }
            }
            assert forall|i: int, j: int|
                0 <= i < waiting.len() && 0 <= j < players.len() implies (#[trigger] waiting[i])
                != (#[trigger] players[j]).id by {
                assert(old(self).pending_clients@.contains(waiting[i]));
                let k = choose|k: int|
                    0 <= k < old(self).pending_clients@.len() && old(self).pending_clients@[k]
                        == waiting[i];
                if j < before.len() {
                    assert(players[j] == before[j]);
                    assert(old(self).pending_clients@[k] != before[j].id);
                }
            }
        }
        send_to_pending(outbox, id, PendingResponse::LogAs(TeamType::IA(left, self.map.size())));
        send_to_observers(
            outbox,
            GUIResponse::Pnw(id, egg.pos, heading, ElevationLevel::Level1, name),
        );
        send_to_observers(outbox, GUIResponse::Ebo(egg.id));
    }

    /// What a request of a connection that has not logged in does. A request of a
    /// connection that is not waiting does nothing. A connection that disconnects
    /// stops waiting. The name `GRAPHIC` logs the connection in as an observer. The
    /// name of a team that has an egg logs it in as a player, born from one of the
    /// eggs of the team with some heading. Everything else is answered `ko`.
    pub open spec fn did_pending_request(
        pre: &Server,
        post: &Server,
        id: Id,
        action: PendingAction,
        before: Seq<OutgoingView>,
        after: Seq<OutgoingView>,
    ) -> bool {
        if !pre.pending_clients@.contains(id) {
            Server::dropped(pre, post, before, after)
        } else {
            match action {
                PendingAction::Shared(SharedAction::Disconnected) => {
                    &&& post.pending_clients@ == without(pre.pending_clients@, id)
                    &&& post.guis@ == pre.guis@
                    &&& post.same_quiet(pre)
                    &&& after == before
                },
                PendingAction::Shared(_) => {
                    &&& Server::dropped(pre, post, before, before)
                    &&& after == before.push(
                        to_pending(id, PendingResponse::Shared(SharedResponse::Ko)),
                    )
                },
                PendingAction::Login(name) => {
                    let team_at = team_index(pre.teams@, name@);
                    if name@ == text("GRAPHIC") {
                        &&& post.pending_clients@ == without(pre.pending_clients@, id)
                        &&& post.guis@ == pre.guis@.push(id)
                        &&& post.same_quiet(pre)
                        &&& after == before.push(
                            to_pending(id, PendingResponse::LogAs(TeamType::Graphic)),
                        )
                    } else if team_at < pre.teams@.len() && eggs_of(
                        pre.map.eggs@,
                        pre.teams@[team_at].id,
                    ) > 0 {
                        exists|number: u64, heading: Direction|
                            number < eggs_of(pre.map.eggs@, pre.teams@[team_at].id)
                                && #[trigger] Server::logged_in(
                                pre,
                                post,
                                id,
                                team_at,
                                number,
                                heading,
                                before,
                                after,
                            )
                    } else {
                        &&& Server::dropped(pre, post, before, before)
                        &&& after == before.push(
                            to_pending(id, PendingResponse::Shared(SharedResponse::Ko)),
                        )
                    }
                },
            }
        }
    }

    /// Whether `self` differs from `old` at most in the lists of waiting connections
    /// and of observers.
    pub open spec fn same_quiet(&self, old: &Server) -> bool {
        &&& self.clients@ == old.clients@
        &&& self.map == old.map
        &&& self.event_scheduler == old.event_scheduler
        &&& self.teams == old.teams
        &&& self.frequency == old.frequency
        &&& self.next_client_id == old.next_client_id
    }

    /// Where the first team with the name `name` stands in the list of teams, if
    /// there is one.
    pub fn find_team(&self, name: &[u8]) -> (found: Option<usize>)
        ensures
            found matches Some(at) ==> at == team_index(self.teams@, name@) && at
                < self.teams@.len(),
            found.is_none() ==> team_index(self.teams@, name@) == self.teams@.len(),
    {
        let mut at: usize = 0;
        assert(self.teams@.subrange(0, self.teams@.len() as int) =~= self.teams@);
        while at < self.teams.len() && !same_bytes(self.teams[at].name(), name)
            invariant
                at <= self.teams.len(),
                team_index(self.teams@, name@) == at + team_index(
                    self.teams@.subrange(at as int, self.teams@.len() as int),
                    name@,
                ),
            decreases self.teams.len() - at,
        {
            assert(self.teams@.subrange(at as int, self.teams@.len() as int).drop_first()
                =~= self.teams@.subrange(at + 1, self.teams@.len() as int));
            at += 1;
        }
        if at < self.teams.len() {
            Some(at)
        } else {
            None
        }
    }

    /// The waiting connections stay sound when some of them stop waiting.
    pub(crate) proof fn lemma_thinned_pending(&self, old: &Server, id: Id)
        requires
            old.wf(),
            self.pending_clients@ == without(old.pending_clients@, id),
            self.same_quiet(old),
        ensures
            self.wf(),
    {
        lemma_without(old.pending_clients@, id);
        let waiting = self.pending_clients@;
        assert forall|i: int| 0 <= i < waiting.len() implies (#[trigger] waiting[i])
            < self.next_client_id by {
            let k = choose|k: int|
                0 <= k < old.pending_clients@.len() && old.pending_clients@[k] == waiting[i];
            assert(old.pending_clients@[k] < self.next_client_id);
        }
        assert forall|i: int, j: int|
            0 <= i < waiting.len() && 0 <= j < self.clients@.len() implies (#[trigger] waiting[i])
            != (#[trigger] self.clients@[j]).id by {
            let k = choose|k: int|
                0 <= k < old.pending_clients@.len() && old.pending_clients@[k] == waiting[i];
            assert(old.pending_clients@[k] != old.clients@[j].id);
        }
        assert forall|i: int| 0 <= i < self.clients@.len() implies self.map.in_range(
            (#[trigger] self.clients@[i]).pos,
        ) && has_team(self.teams@, self.clients@[i].team) && self.clients@[i].id
            < self.next_client_id by {
            assert(old.map.in_range(old.clients@[i].pos));
        }
    }

    /// Takes in a request of the waiting connection `id`.
    pub fn handle_pending_events(
        &mut self,
        id: Id,
        action: PendingAction,
        outbox: &mut Vec<Outgoing>,
    )
        requires
            old(self).wf(),
        ensures
            final(self).wf(),
            Server::did_pending_request(
                old(self),
                final(self),
                id,
                action,
                outbox_view(old(outbox)@),
                outbox_view(final(outbox)@),
            ),
    {
        if !Self::listed(&self.pending_clients, id) {
            return ;
        }
        match action {
            PendingAction::Shared(SharedAction::Disconnected) => {
                self.pending_clients = Self::thinned(&self.pending_clients, id);
                proof {
                    self.lemma_thinned_pending(old(self), id);
                }
            },
            PendingAction::Shared(_) => {
                send_to_pending(outbox, id, PendingResponse::Shared(SharedResponse::Ko));
            },
            PendingAction::Login(name) => {
                if is_text(name.as_slice(), "GRAPHIC") {
                    self.pending_clients = Self::thinned(&self.pending_clients, id);
                    self.guis.push(id);
                    proof {
                        self.lemma_thinned_pending(old(self), id);
                    }
                    send_to_pending(outbox, id, PendingResponse::LogAs(TeamType::Graphic));
                    return ;
                }
                let team_at = match self.find_team(name.as_slice()) {
                    Some(team_at) => team_at,
                    None => {
                        send_to_pending(outbox, id, PendingResponse::Shared(SharedResponse::Ko));
                        return ;
                    },
                };
                let eggs = self.map.nb_eggs_by_team(self.teams[team_at].id);
                if eggs == 0 {
                    send_to_pending(outbox, id, PendingResponse::Shared(SharedResponse::Ko));
                    return ;
                }
                let number = random_below(eggs);
                let heading = Direction::new();
                self.login_with(id, team_at, number, heading, outbox);
            },
        }
    }

    /// What a request does, by the kind of connection that makes it.
    pub open spec fn did_request(
        pre: &Server,
        post: &Server,
        event: EventType,
        before: Seq<OutgoingView>,
        after: Seq<OutgoingView>,
    ) -> bool {
        match event {
            EventType::AI(request) => Server::did_ai_request(
                pre,
                post,
                request.id,
                request.action,
                before,
                after,
            ),
            EventType::GUI(request) => Server::did_gui_request(
                pre,
                post,
                request.id,
                request.action,
                before,
                after,
            ),
            EventType::Pending(request) => Server::did_pending_request(
                pre,
                post,
                request.id,
                request.action,
                before,
                after,
            ),
        }
    }

    /// Takes in a request of a connection.
    pub fn process_events(&mut self, event: EventType, outbox: &mut Vec<Outgoing>)
        requires
            old(self).wf(),
        ensures
            final(self).wf(),
            Server::did_request(
                old(self),
                final(self),
                event,
                outbox_view(old(outbox)@),
                outbox_view(final(outbox)@),
            ),
    {
        match event {
            EventType::AI(GameEvent { id, action }) => self.handle_ai_events(id, action, outbox),
            EventType::GUI(GameEvent { id, action }) => self.handle_gui_events(id, action, outbox),
            EventType::Pending(GameEvent { id, action }) => self.handle_pending_events(
                id,
                action,
                outbox,
            ),
        }
    }
}

/// After an observer has set the tick frequency with `sst`, a request for the
/// frequency with `sgt` is answered with the frequency that was set.
pub proof fn lemma_sst_then_sgt(
    pre: &Server,
    post: &Server,
    id: Id,
    frequency: u64,
    before: Seq<OutgoingView>,
    after: Seq<OutgoingView>,
)
    requires
        pre.guis@.contains(id),
        Server::did_gui_request(pre, post, id, GUIAction::Sst(frequency), before, after),
    ensures
        post.spec_gui_answer(GUIAction::Sgt) == Some(GUIResponseView::Sgt(frequency)),
        after == before.push(to_observer(id, GUIResponseView::Sst(frequency))),
{
}

impl Server {
    /// What a player's request does to the world. A player that disconnects leaves
    /// the world, and the observers are told; a connection that is no player leaves
    /// nothing behind. An unreadable command is queued as `Ko` at no cost. A command
    /// is queued at its cost; an event that no player may send is queued as `Ko`.
    pub open spec fn did_ai_request(
        pre: &Server,
        post: &Server,
        id: Id,
        action: AIAction,
        before: Seq<OutgoingView>,
        after: Seq<OutgoingView>,
    ) -> bool {
        match action {
            AIAction::Shared(SharedAction::Disconnected) => {
                let at = player_index(pre.clients@, id);
                if at < pre.clients@.len() {
                    &&& post.clients@ == pre.clients@.remove(at)
                    &&& post.same_except(pre, true, false, false)
                    &&& after == before.push(to_observers(GUIResponseView::Pdi(id)))
                } else {
                    Server::dropped(pre, post, before, after)
                }
            },
            AIAction::Shared(_) => {
                &&& post.event_scheduler@ == pre.event_scheduler@.scheduled(Event::Ko, 0, id)
                &&& post.same_except(pre, false, false, true)
                &&& after == before
            },
            AIAction::Action(event) => {
                &&& post.event_scheduler@ == (match spec_ai_cost(event@) {
                    Some(cost) => pre.event_scheduler@.scheduled(event, cost, id),
                    None => pre.event_scheduler@.scheduled(Event::Ko, 0, id),
                })
                &&& post.same_except(pre, false, false, true)
                &&& after == before
            },
        }
    }

    /// Takes in a request of the player `id`.
    pub fn handle_ai_events(&mut self, id: Id, action: AIAction, outbox: &mut Vec<Outgoing>)
        requires
            old(self).wf(),
        ensures
            final(self).wf(),
            Server::did_ai_request(
                old(self),
                final(self),
                id,
                action,
                outbox_view(old(outbox)@),
                outbox_view(final(outbox)@),
            ),
    {
        match action {
            AIAction::Shared(SharedAction::Disconnected) => {
                match self.find_player(id) {
                    Some(at) => {
                        send_to_observers(outbox, GUIResponse::Pdi(id));
                        let _ = self.take_player(at);
                    },
                    None => {},
                }
            },
            AIAction::Shared(_) => {
                let _ = self.event_scheduler.schedule(Event::Ko, 0, id);
            },
            AIAction::Action(event) => {
                let cost: Option<u64> = match &event {
                    Event::Broadcast(_) => Some(7),
                    Event::Forward => Some(7),
                    Event::Right => Some(7),
                    Event::Left => Some(7),
                    Event::Look => Some(7),
                    Event::Take(_) => Some(7),
                    Event::SetObject(_) => Some(7),
                    Event::Eject => Some(7),
                    Event::Inventory => Some(1),
                    Event::ConnectNbr => Some(0),
                    Event::Fork => Some(42),
                    Event::Incantation => Some(0),
                    _ => None,
                };
                match cost {
                    Some(ticks) => {
                        let _ = self.event_scheduler.schedule(event, ticks, id);
                    },
                    None => {
                        let _ = self.event_scheduler.schedule(Event::Ko, 0, id);
                    },
                }
            },
        }
    }
}

} // verus!
