//! What the server is started with, and the world at the start.
use crate::event::EventScheduler;
use crate::map::{eggs_of, GameMap};
use crate::protocol::Id;
use crate::resources::Resources;
use crate::server::world::{has_team, Server};
use crate::team::Team;
use crate::text::{is_text, text, views};
use crate::vec2::{Size, Vec2};
use vstd::prelude::*;

verus! {

/// What the server is started with.
#[derive(Debug)]
pub struct ServerConfig {
    pub addr: String,
    pub port: u16,
    pub width: u8,
    pub height: u8,
    pub teams: Vec<Vec<u8>>,
    pub clients_nb: u64,
    pub freq: u16,
}

impl ServerConfig {
    /// A configuration with the given fields.
    pub fn new(
        addr: String,
        port: u16,
        width: u8,
        height: u8,
        teams: Vec<Vec<u8>>,
        clients_nb: u64,
        freq: u16,
    ) -> (config: Self)
        ensures
            config.addr == addr,
            config.port == port,
            config.width == width,
            config.height == height,
            config.teams == teams,
            config.clients_nb == clients_nb,
            config.freq == freq,
    {
        ServerConfig { addr, port, width, height, teams, clients_nb, freq }
    }
}

/// The name of a team as the server keeps it: spaces are dropped, and line feeds and
/// carriage returns become underscores.
pub open spec fn spec_sanitized(name: Seq<u8>) -> Seq<u8>
    decreases name.len(),
{
    if name.len() == 0 {
        Seq::empty()
    } else if name.last() == 32 {
        spec_sanitized(name.drop_last())
    } else if name.last() == 10 || name.last() == 13 {
        spec_sanitized(name.drop_last()).push(95)
    } else {
        spec_sanitized(name.drop_last()).push(name.last())
    }
}

/// The name of a team as the server keeps it.
pub fn sanitize_team_name(name: &[u8]) -> (kept: Vec<u8>)
    ensures
        kept@ == spec_sanitized(name@),
{
    let mut kept: Vec<u8> = Vec::new();
    let mut i: usize = 0;
    assert(name@.subrange(0, 0) =~= Seq::<u8>::empty());
    while i < name.len()
        invariant
            i <= name.len(),
            kept@ == spec_sanitized(name@.subrange(0, i as int)),
        decreases name.len() - i,
    {
        assert(name@.subrange(0, i + 1).drop_last() =~= name@.subrange(0, i as int));
        let byte = name[i];
        if byte == 32 {
        } else if byte == 10 || byte == 13 {
            kept.push(95);
        } else {
            kept.push(byte);
        }
        i += 1;
    }
    assert(name@.subrange(0, i as int) =~= name@);
    kept
}

/// The teams that a list of names gives: each name but `GRAPHIC`, which is kept for
/// observers, gives a team whose handle is the place of the name in the list.
pub open spec fn spec_team_list(names: Seq<Seq<u8>>) -> Seq<(Id, Seq<u8>)>
    decreases names.len(),
{
    if names.len() == 0 {
        Seq::empty()
    } else if names.last() == text("GRAPHIC") {
        spec_team_list(names.drop_last())
    } else {
        spec_team_list(names.drop_last()).push(
            ((names.len() - 1) as Id, spec_sanitized(names.last())),
        )
    }
}

/// The teams as plain values: handle and name.
pub open spec fn team_views(teams: Seq<Team>) -> Seq<(Id, Seq<u8>)> {
    Seq::new(teams.len(), |k: int| (teams[k].id, teams[k].name@))
}

impl Server {
    /// The teams that the names of a configuration give.
    pub(crate) fn make_teams(names: &Vec<Vec<u8>>) -> (teams: Vec<Team>)
        ensures
            team_views(teams@) == spec_team_list(views(names@)),
            teams@.len() <= names@.len(),
            forall|k: int| 0 <= k < teams@.len() ==> (#[trigger] teams@[k]).id < names@.len(),
            forall|j: int, k: int|
                0 <= j < k < teams@.len() ==> (#[trigger] teams@[j]).id < (#[trigger] teams@[k]).id,
    {
        let mut teams: Vec<Team> = Vec::new();
        let mut i: usize = 0;
        let ghost all = views(names@);
        assert(all.subrange(0, 0) =~= Seq::<Seq<u8>>::empty());
        assert(team_views(teams@) =~= spec_team_list(all.subrange(0, 0)));
        while i < names.len()
            invariant
                i <= names.len(),
                all == views(names@),
                team_views(teams@) == spec_team_list(all.subrange(0, i as int)),
                teams@.len() <= i,
                forall|k: int| 0 <= k < teams@.len() ==> (#[trigger] teams@[k]).id < i,
                forall|j: int, k: int|
                    0 <= j < k < teams@.len() ==> (#[trigger] teams@[j]).id < (
                    #[trigger] teams@[k]).id,
            decreases names.len() - i,
        {
            let ghost upto = all.subrange(0, i + 1);
            assert(upto.drop_last() =~= all.subrange(0, i as int));
            assert(upto.last() == names@[i as int]@);
            let ghost before = teams@;
            if !is_text(names[i].as_slice(), "GRAPHIC") {
                teams.push(Team::new(i as Id, sanitize_team_name(names[i].as_slice())));
                assert(team_views(teams@) =~= team_views(before).push(
                    (i as Id, spec_sanitized(names@[i as int]@)),
                ));
            }
            i += 1;
        }
        assert(all.subrange(0, i as int) =~= all);
        teams
    }

    /// The world at the start: the grid is empty and as large as the configuration
    /// says; every name of the configuration but `GRAPHIC` gives a team; every team
    /// has as many eggs as the configuration says, on cells drawn at random; there
    /// are no connections; the clock is at zero.
    pub fn from_config(config: ServerConfig) -> (server: Server)
        requires
            config.width > 0,
            config.height > 0,
            config.teams@.len() * config.clients_nb <= u64::MAX,
        ensures
            server.wf(),
            server.map.size == (Size { x: config.width as u64, y: config.height as u64 }),
            server.map.resources == Resources::empty(),
            team_views(server.teams@) == spec_team_list(views(config.teams@)),
            forall|k: int|
                0 <= k < server.teams@.len() ==> eggs_of(
                    server.map.eggs@,
                    (#[trigger] server.teams@[k]).id,
                ) == config.clients_nb,
            server.map.eggs@.len() == server.teams@.len() * config.clients_nb,
            server.clients@.len() == 0,
            server.pending_clients@.len() == 0,
            server.guis@.len() == 0,
            server.event_scheduler.events@.len() == 0,
            server.event_scheduler.current_tick == 0,
            server.frequency == config.freq,
            server.next_client_id == 0,
    {
        let teams = Self::make_teams(&config.teams);
        let size = Vec2 { x: config.width as u64, y: config.height as u64 };
        assert(size.x * size.y <= 255 * 255) by (nonlinear_arith)
            requires
                size.x <= 255,
                size.y <= 255,
        ;
        let mut map = GameMap::new(size);
        let amount = config.clients_nb;
        let mut k: usize = 0;
        assert(0 * amount == 0) by (nonlinear_arith);
        assert(teams@.len() * amount <= u64::MAX) by (nonlinear_arith)
            requires
                teams@.len() <= config.teams@.len(),
                config.teams@.len() * amount <= u64::MAX,
                0 <= amount,
        ;
        while k < teams.len()
            invariant
                k <= teams.len(),
                map.wf(),
                map.size == size,
                0 < size.x <= 255,
                0 < size.y <= 255,
                map.resources == Resources::empty(),
                teams@.len() * amount <= u64::MAX,
                map.next_egg_id == k * amount,
                map.eggs@.len() == k * amount,
                forall|j: int, i: int|
                    0 <= j < i < teams@.len() ==> (#[trigger] teams@[j]).id < (#[trigger] teams@[i]).id,
                forall|i: int|
                    0 <= i < teams@.len() ==> eggs_of(map.eggs@, (#[trigger] teams@[i]).id) == if i
                        < k {
                        amount as nat
                    } else {
                        0nat
                    },
                forall|i: int|
                    0 <= i < map.eggs@.len() ==> map.in_range((#[trigger] map.eggs@[i]).pos)
                        && has_team(teams@, map.eggs@[i].team_id),
            decreases teams.len() - k,
        {
            let team_id = teams[k].id;
            let ghost before = map.eggs@;
            proof {
                let n = teams@.len() as int;
                let a = amount as int;
                let kk = k as int;
                assert((kk + 1) * a == kk * a + a) by (nonlinear_arith);
                assert((kk + 1) * a <= n * a) by (nonlinear_arith)
                    requires
                        kk + 1 <= n,
                        0 <= a,
                ;
            }
            map.spawn_eggs(team_id, amount);
            proof {
                assert forall|i: int| 0 <= i < teams@.len() implies eggs_of(
                    map.eggs@,
                    (#[trigger] teams@[i]).id,
                ) == if i < k + 1 {
                    amount as nat
                } else {
                    0nat
                } by {
                    if i != k {
                        if i < k {
                            assert(teams@[i].id < teams@[k as int].id);
                        } else {
                            assert(teams@[k as int].id < teams@[i].id);
                        }
                    }
                }
                assert forall|i: int| 0 <= i < map.eggs@.len() implies map.in_range(
                    (#[trigger] map.eggs@[i]).pos,
                ) && has_team(teams@, map.eggs@[i].team_id) by {
                    if i < before.len() {
                        assert(map.eggs@.subrange(0, before.len() as int)[i] == before[i]);
                        assert(map.eggs@[i] == before[i]);
                    } else {
                        assert(teams@[k as int].id == team_id);
                    }
                }
            }
            k += 1;
        }
        Server {
            map,
            teams,
            pending_clients: Vec::new(),
            clients: Vec::new(),
            guis: Vec::new(),
            event_scheduler: EventScheduler::new(),
            frequency: config.freq as u64,
            next_client_id: 0,
        }
    }
}

} // verus!
