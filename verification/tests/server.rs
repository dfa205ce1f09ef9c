use zappy_server::connection::{Connection, ConnectionEvent, HandlerKind};
use zappy_server::event::{Event, EventScheduler, TimedEvent};
use zappy_server::handler::ai::AiHandler;
use zappy_server::handler::command::{CommandHandler, CommandRes, State};
use zappy_server::handler::graphics::gui_line;
use zappy_server::handler::login::LoginHandler;
use zappy_server::map::GameMap;
use zappy_server::player::{Direction, Player, PlayerState};
use zappy_server::protocol::{
    fan_out, send_to_observers, send_to_player, AIAction, AIResponse, Audience, EventType,
    GUIAction, GUIResponse, GameEvent, Outgoing, PendingAction, ServerResponse, SharedAction,
};
use zappy_server::resources::{level_requirement, ElevationLevel, Resource, Resources};
use zappy_server::server::config::sanitize_team_name;
use zappy_server::server::tick::refill_target;
use zappy_server::server::{Server, ServerConfig};
use zappy_server::team::Team;
use zappy_server::vec2::{Size, UPosition};

const OBSERVERS: u64 = u64::MAX;

fn world(width: u64, height: u64) -> Server {
    Server {
        map: GameMap::new(Size::new(width, height)),
        teams: vec![Team::new(0, b"alpha".to_vec()), Team::new(1, b"beta".to_vec())],
        pending_clients: vec![],
        clients: vec![],
        guis: vec![],
        event_scheduler: EventScheduler::new(),
        frequency: 100,
        next_client_id: 1000,
    }
}

fn add_player(server: &mut Server, id: u64, team: u64, x: u64, y: u64, heading: Direction) {
    let player = Player::builder()
        .team(team)
        .id(id)
        .position(UPosition::new(x, y))
        .direction(heading)
        .build()
        .unwrap();
    server.clients.push(player);
}

fn player(server: &Server, id: u64) -> Player {
    *server.clients.iter().find(|player| player.id == id).unwrap()
}

fn spell(response: ServerResponse) -> String {
    let made = match response {
        ServerResponse::AI(answer) => AiHandler::new(0).handle_command(ServerResponse::AI(answer)),
        ServerResponse::Gui(answer) => CommandRes::Response(gui_line(&answer)),
        ServerResponse::Pending(answer) => {
            LoginHandler::new(0).handle_command(ServerResponse::Pending(answer))
        }
    };
    let text = match made {
        CommandRes::Response(text) => text,
        CommandRes::ChangeState(State::IA(text)) => text,
        CommandRes::ChangeState(State::DEAD(text)) => text,
        CommandRes::ChangeState(State::GUI) => b"<observer>".to_vec(),
    };
    String::from_utf8(text).unwrap()
}

/// Everything in the outbox as `(receiver, line)`; the receiver of a notice for all
/// observers is `OBSERVERS`.
fn wire(outbox: Vec<Outgoing>) -> Vec<(u64, String)> {
    outbox
        .into_iter()
        .map(|message| {
            let to = match message.to {
                Audience::Client(id) => id,
                Audience::Observers => OBSERVERS,
            };
            (to, spell(message.response))
        })
        .collect()
}

fn lines(list: &[(u64, &str)]) -> Vec<(u64, String)> {
    list.iter().map(|(to, line)| (*to, line.to_string())).collect()
}

fn apply(server: &mut Server, id: u64, data: Event) -> Vec<(u64, String)> {
    let mut outbox = Vec::new();
    let event = TimedEvent { data, event_id: 1, player_id: id, expiration_tick: 0 };
    server.apply_event(event, &mut outbox);
    wire(outbox)
}

fn request(server: &mut Server, event: EventType) -> Vec<(u64, String)> {
    let mut outbox = Vec::new();
    server.process_events(event, &mut outbox);
    wire(outbox)
}

fn tick(server: &mut Server) -> Vec<(u64, String)> {
    let mut outbox = Vec::new();
    server.update(false, &mut outbox);
    wire(outbox)
}

fn without_cell_notices(told: Vec<(u64, String)>) -> Vec<(u64, String)> {
    told.into_iter().filter(|(_, line)| !line.starts_with("bct ")).collect()
}

fn material(server: &Server, kind: Resource) -> u64 {
    let lying: u64 = server.map.cells().iter().map(|cell| cell.ressources().get(kind)).sum();
    let carried: u64 = server.clients.iter().map(|player| player.inventory.get(kind)).sum();
    lying + carried
}

#[test]
fn login_of_a_player() {
    let config = ServerConfig::new(
        "0.0.0.0".to_string(),
        4242,
        5,
        5,
        vec![b"alpha".to_vec()],
        1,
        100,
    );
    let mut server = Server::from_config(config);
    assert_eq!(server.map.nb_eggs_by_team(0), 1);
    let egg = server.map.eggs[0];
    let id = server.accept_client();
    assert_eq!(id, 0);
    let (mut connection, greeting) = Connection::new(id);
    assert_eq!(greeting, b"WELCOME\n".to_vec());
    let step = connection.handle(ConnectionEvent::ClientMessage(b"alpha\n".to_vec()));
    let mut outbox = Vec::new();
    server.process_events(step.to_server.unwrap(), &mut outbox);
    assert_eq!(outbox.len(), 3);
    let first = outbox.remove(0);
    assert_eq!(first.to, Audience::Client(id));
    let step = connection.handle(ConnectionEvent::ServerResponse(first.response));
    assert_eq!(step.to_client, Some(b"0\n5 5\n".to_vec()));
    assert_eq!(connection.kind, HandlerKind::AI);
    let born = player(&server, id);
    assert_eq!(born.pos, egg.pos);
    assert_eq!(born.team, 0);
    assert_eq!(born.elevation, ElevationLevel::Level1);
    assert_eq!(born.satiety, 126);
    assert_eq!(born.inventory, Resources::builder().food(10).build());
    assert_eq!(born.state, PlayerState::Idle);
    let heading = born.direction.number();
    assert_eq!(
        wire(outbox),
        vec![
            (
                OBSERVERS,
                format!("pnw #0 {} {} {} 1 alpha\n", egg.pos.x(), egg.pos.y(), heading)
            ),
            (OBSERVERS, format!("ebo #{}\n", egg.id)),
        ]
    );
    assert_eq!(server.map.nb_eggs_by_team(0), 0);
    assert!(server.pending_clients.is_empty());
    let late = server.accept_client();
    let login = |name: &str| {
        EventType::Pending(GameEvent { id: late, action: PendingAction::Login(name.as_bytes().to_vec()) })
    };
    assert_eq!(request(&mut server, login("alpha")), lines(&[(late, "ko\n")]));
    assert_eq!(request(&mut server, login("gamma")), lines(&[(late, "ko\n")]));
    assert_eq!(request(&mut server, login("")), lines(&[(late, "ko\n")]));
    assert_eq!(server.pending_clients, vec![late]);
}

#[test]
fn login_with_several_eggs_tells_how_many_are_left() {
    let mut server = world(4, 4);
    server.map.spawn_egg(0, UPosition::new(1, 1));
    server.map.spawn_egg(1, UPosition::new(2, 2));
    server.map.spawn_egg(0, UPosition::new(3, 3));
    server.pending_clients = vec![5, 6];
    let mut outbox = Vec::new();
    server.login_with(5, 0, 1, Direction::West, &mut outbox);
    assert_eq!(
        wire(outbox),
        lines(&[(5, "1\n4 4\n"), (OBSERVERS, "pnw #5 3 3 4 1 alpha\n"), (OBSERVERS, "ebo #2\n")])
    );
    assert_eq!(server.pending_clients, vec![6]);
    assert_eq!(player(&server, 5).pos, UPosition::new(3, 3));
    assert_eq!(server.map.nb_eggs_by_team(0), 1);
    assert_eq!(server.map.nb_eggs_by_team(1), 1);
}

#[test]
fn login_of_an_observer_and_requests_of_strangers() {
    let mut server = world(3, 3);
    let id = server.accept_client();
    let login = EventType::Pending(GameEvent { id, action: PendingAction::Login(b"GRAPHIC".to_vec()) });
    assert_eq!(request(&mut server, login), lines(&[(id, "<observer>")]));
    assert_eq!(server.guis, vec![id]);
    assert!(server.pending_clients.is_empty());
    let again = EventType::Pending(GameEvent { id, action: PendingAction::Login(b"alpha".to_vec()) });
    assert_eq!(request(&mut server, again), vec![]);
    let stranger = EventType::GUI(GameEvent { id: 77, action: GUIAction::Msz });
    assert_eq!(request(&mut server, stranger), vec![]);
    let waiting = server.accept_client();
    for action in [
        SharedAction::ReachedTakeLimit,
        SharedAction::InvalidEncoding,
        SharedAction::InvalidAction,
        SharedAction::InvalidParameters,
    ] {
        let event = EventType::Pending(GameEvent { id: waiting, action: PendingAction::Shared(action) });
        assert_eq!(request(&mut server, event), lines(&[(waiting, "ko\n")]));
    }
    let gone = EventType::Pending(GameEvent {
        id: waiting,
        action: PendingAction::Shared(SharedAction::Disconnected),
    });
    assert_eq!(request(&mut server, gone), vec![]);
    assert!(server.pending_clients.is_empty());
}

#[test]
fn incantation_of_one_player_at_level_one() {
    let mut server = world(5, 5);
    server.guis.push(9);
    add_player(&mut server, 1, 0, 2, 2, Direction::North);
    let mut setup = Vec::new();
    server.map.add_resource(Resource::Linemate, 1, UPosition::new(2, 2), &mut setup);
    let mut outbox = Vec::new();
    server.handle_ai_events(1, AIAction::Action(Event::Incantation), &mut outbox);
    assert!(outbox.is_empty());
    assert_eq!(
        without_cell_notices(tick(&mut server)),
        lines(&[(1, "Elevation underway\n"), (OBSERVERS, "pic 2 2 1 #1\n")])
    );
    assert!(player(&server, 1).is_incantating());
    for _ in 0..299 {
        assert_eq!(without_cell_notices(tick(&mut server)), vec![]);
    }
    assert_eq!(server.event_scheduler.current_tick(), 300);
    let lying = server.map.get_ressources_at_pos(UPosition::new(2, 2)).get(Resource::Linemate);
    let told = tick(&mut server);
    assert_eq!(
        without_cell_notices(told.clone()),
        lines(&[
            (1, "Current level: 2\n"),
            (OBSERVERS, "plv #1 2\n"),
            (OBSERVERS, "pie 2 2 1\n")
        ])
    );
    assert!(told.iter().any(|(to, line)| *to == OBSERVERS && line.starts_with("bct 2 2 ")));
    assert_eq!(player(&server, 1).elevation, ElevationLevel::Level2);
    assert!(!player(&server, 1).is_incantating());
    assert_eq!(
        server.map.get_ressources_at_pos(UPosition::new(2, 2)).get(Resource::Linemate),
        lying - 1
    );
}

#[test]
fn incantation_without_the_stones_or_the_players_is_refused() {
    let mut server = world(5, 5);
    add_player(&mut server, 1, 0, 2, 2, Direction::North);
    assert_eq!(apply(&mut server, 1, Event::Incantation), lines(&[(1, "ko\n")]));
    let mut setup = Vec::new();
    server.map.add_resource(Resource::Linemate, 1, UPosition::new(2, 2), &mut setup);
    server.map.add_resource(Resource::Deraumere, 1, UPosition::new(2, 2), &mut setup);
    server.map.add_resource(Resource::Sibur, 1, UPosition::new(2, 2), &mut setup);
    server.clients[0].elevation = ElevationLevel::Level2;
    assert_eq!(apply(&mut server, 1, Event::Incantation), lines(&[(1, "ko\n")]));
    server.clients[0].elevation = ElevationLevel::Level8;
    assert_eq!(apply(&mut server, 1, Event::Incantation), lines(&[(1, "ko\n")]));
    assert!(!player(&server, 1).is_incantating());
    assert_eq!(server.event_scheduler.pending_count(), 0);
}

#[test]
fn incantation_of_two_players_locks_the_other_out() {
    let mut server = world(5, 5);
    add_player(&mut server, 1, 0, 2, 2, Direction::North);
    add_player(&mut server, 2, 1, 2, 2, Direction::East);
    add_player(&mut server, 3, 1, 2, 2, Direction::East);
    add_player(&mut server, 4, 1, 1, 2, Direction::East);
    for index in 0..4 {
        server.clients[index].elevation = ElevationLevel::Level2;
    }
    server.clients[2].elevation = ElevationLevel::Level3;
    let mut setup = Vec::new();
    for kind in [Resource::Linemate, Resource::Deraumere, Resource::Sibur] {
        server.map.add_resource(kind, 1, UPosition::new(2, 2), &mut setup);
    }
    server.handle_ai_events(1, AIAction::Action(Event::Forward), &mut setup);
    server.handle_ai_events(2, AIAction::Action(Event::Forward), &mut setup);
    server.handle_ai_events(2, AIAction::Action(Event::Inventory), &mut setup);
    assert_eq!(
        apply(&mut server, 1, Event::Incantation),
        lines(&[
            (1, "Elevation underway\n"),
            (2, "Elevation underway\n"),
            (OBSERVERS, "pic 2 2 2 #1 #2\n")
        ])
    );
    assert!(player(&server, 1).is_incantating());
    assert!(player(&server, 2).is_incantating());
    assert!(!player(&server, 3).is_incantating());
    assert!(!player(&server, 4).is_incantating());
    let queue: Vec<(u64, u64, u64)> = server
        .event_scheduler
        .events
        .iter()
        .map(|event| (event.expiration_tick, event.event_id, event.player_id))
        .collect();
    assert_eq!(
        queue,
        vec![(7, 1, 1), (300, 4, 2), (300, 5, 1), (307, 2, 2), (308, 3, 2)]
    );
    assert!(matches!(server.event_scheduler.events[1].data, Event::Phantom));
    let needs = level_requirement(ElevationLevel::Level2).unwrap();
    assert!(matches!(
        &server.event_scheduler.events[2].data,
        Event::IncantationEnd(ids, row, pos)
            if ids == &vec![1, 2] && *row == needs && *pos == UPosition::new(2, 2)
    ));
}

#[test]
fn end_of_an_incantation() {
    let mut server = world(5, 5);
    add_player(&mut server, 1, 0, 2, 2, Direction::North);
    add_player(&mut server, 2, 1, 2, 2, Direction::East);
    add_player(&mut server, 3, 1, 0, 0, Direction::East);
    let here = UPosition::new(2, 2);
    let needs = level_requirement(ElevationLevel::Level2).unwrap();
    for index in 0..3 {
        server.clients[index].elevation = ElevationLevel::Level2;
        server.clients[index].state = PlayerState::Incantating;
    }
    let mut setup = Vec::new();
    server.map.add_resource(Resource::Linemate, 2, here, &mut setup);
    server.map.add_resource(Resource::Deraumere, 1, here, &mut setup);
    let failed = apply(&mut server, 1, Event::IncantationEnd(vec![1, 2, 3, 8], needs, here));
    assert_eq!(
        failed,
        lines(&[(OBSERVERS, "pie 2 2 0\n"), (1, "ko\n"), (2, "ko\n"), (3, "ko\n")])
    );
    assert!(!player(&server, 1).is_incantating());
    assert!(!player(&server, 2).is_incantating());
    assert!(player(&server, 3).is_incantating());
    assert_eq!(server.map.get_ressources_at_pos(here).get(Resource::Linemate), 2);
    server.map.add_resource(Resource::Sibur, 1, here, &mut setup);
    for index in 0..2 {
        server.clients[index].state = PlayerState::Incantating;
    }
    let done = apply(&mut server, 1, Event::IncantationEnd(vec![1, 2, 3, 8], needs, here));
    assert_eq!(
        done,
        lines(&[
            (OBSERVERS, "bct 2 2 0 2 0 1 0 0 0\n"),
            (OBSERVERS, "bct 2 2 0 1 0 1 0 0 0\n"),
            (OBSERVERS, "bct 2 2 0 1 0 0 0 0 0\n"),
            (1, "Current level: 3\n"),
            (OBSERVERS, "plv #1 3\n"),
            (2, "Current level: 3\n"),
            (OBSERVERS, "plv #2 3\n"),
            (OBSERVERS, "pie 2 2 1\n"),
        ])
    );
    assert_eq!(player(&server, 1).elevation, ElevationLevel::Level3);
    assert_eq!(player(&server, 2).elevation, ElevationLevel::Level3);
    assert_eq!(player(&server, 3).elevation, ElevationLevel::Level2);
    assert_eq!(*server.map.get_ressources_at_pos(here), Resources::builder().linemate(1).build());
    assert_eq!(*server.map.resources(), Resources::builder().linemate(1).build());
    server.clients[0].state = PlayerState::Incantating;
    let alone = apply(&mut server, 1, Event::IncantationEnd(vec![1, 2], needs, here));
    assert_eq!(alone, lines(&[(OBSERVERS, "pie 2 2 0\n"), (1, "ko\n"), (2, "ko\n")]));
    let outside = apply(
        &mut server,
        1,
        Event::IncantationEnd(vec![], level_requirement(ElevationLevel::Level1).unwrap(), UPosition::new(9, 9)),
    );
    assert_eq!(outside, lines(&[(OBSERVERS, "pie 9 9 0\n")]));
}

#[test]
fn broadcast_reaches_the_others_from_their_sector() {
    let mut server = world(10, 8);
    add_player(&mut server, 1, 0, 0, 6, Direction::North);
    add_player(&mut server, 2, 0, 9, 3, Direction::North);
    add_player(&mut server, 3, 1, 0, 6, Direction::West);
    assert_eq!(
        apply(&mut server, 1, Event::Broadcast(b"hello".to_vec())),
        lines(&[
            (2, "message 1, hello\n"),
            (3, "message 0, hello\n"),
            (OBSERVERS, "pbc #1 hello\n"),
            (1, "ok\n")
        ])
    );
    assert_eq!(
        apply(&mut server, 2, Event::Broadcast(b"hello".to_vec())),
        lines(&[
            (1, "message 5, hello\n"),
            (3, "message 3, hello\n"),
            (OBSERVERS, "pbc #2 hello\n"),
            (2, "ok\n")
        ])
    );
}

#[test]
fn eject_pushes_the_others_and_breaks_the_eggs() {
    let mut server = world(5, 5);
    add_player(&mut server, 1, 0, 3, 3, Direction::East);
    add_player(&mut server, 2, 1, 3, 3, Direction::North);
    add_player(&mut server, 3, 1, 3, 2, Direction::North);
    add_player(&mut server, 4, 1, 3, 3, Direction::West);
    server.map.spawn_egg(0, UPosition::new(3, 3));
    server.map.spawn_egg(1, UPosition::new(4, 3));
    server.map.spawn_egg(1, UPosition::new(3, 3));
    assert_eq!(
        apply(&mut server, 1, Event::Eject),
        lines(&[
            (OBSERVERS, "ppo #2 4 3 1\n"),
            (2, "eject 3\n"),
            (OBSERVERS, "ppo #4 4 3 4\n"),
            (4, "eject 1\n"),
            (OBSERVERS, "pex #1\n"),
            (OBSERVERS, "edi #0\n"),
            (OBSERVERS, "edi #2\n"),
            (1, "ok\n"),
        ])
    );
    assert_eq!(player(&server, 1).pos, UPosition::new(3, 3));
    assert_eq!(player(&server, 2).pos, UPosition::new(4, 3));
    assert_eq!(player(&server, 3).pos, UPosition::new(3, 2));
    assert_eq!(player(&server, 4).pos, UPosition::new(4, 3));
    assert_eq!(server.map.eggs.len(), 1);
    assert_eq!(apply(&mut server, 1, Event::Eject), lines(&[(1, "ko\n")]));
    assert_eq!(
        apply(&mut server, 2, Event::Eject),
        lines(&[
            (OBSERVERS, "ppo #4 4 4 4\n"),
            (4, "eject 3\n"),
            (OBSERVERS, "pex #2\n"),
            (OBSERVERS, "edi #1\n"),
            (2, "ok\n"),
        ])
    );
}

#[test]
fn take_on_an_empty_cell_fails_after_seven_ticks() {
    let mut server = world(1, 1);
    add_player(&mut server, 1, 0, 0, 0, Direction::North);
    let (mut connection, _) = Connection::new(1);
    connection.kind = HandlerKind::AI;
    let step = connection.handle(ConnectionEvent::ClientMessage(b"Take food\n".to_vec()));
    assert_eq!(request(&mut server, step.to_server.unwrap()), vec![]);
    for _ in 0..6 {
        assert_eq!(tick(&mut server), vec![]);
    }
    assert_eq!(tick(&mut server), lines(&[(1, "ko\n")]));
    assert_eq!(server.event_scheduler.current_tick(), 7);
    assert_eq!(tick(&mut server), vec![]);
}

#[test]
fn set_is_mirrored_to_the_observers_in_order() {
    let mut server = world(4, 4);
    add_player(&mut server, 1, 0, 1, 2, Direction::North);
    server.clients[0].inventory = Resources::builder().food(3).linemate(2).build();
    let before = material(&server, Resource::Linemate);
    assert_eq!(
        apply(&mut server, 1, Event::SetObject(Resource::Linemate)),
        lines(&[
            (OBSERVERS, "pdr #1 1\n"),
            (OBSERVERS, "pin #1 1 2 3 1 0 0 0 0 0\n"),
            (OBSERVERS, "bct 1 2 0 1 0 0 0 0 0\n"),
            (1, "ok\n"),
        ])
    );
    assert_eq!(player(&server, 1).inventory.get(Resource::Linemate), 1);
    assert_eq!(
        server.map.get_ressources_at_pos(UPosition::new(1, 2)).get(Resource::Linemate),
        1
    );
    assert_eq!(server.map.resources().get(Resource::Linemate), 1);
    assert_eq!(material(&server, Resource::Linemate), before);
    assert_eq!(apply(&mut server, 1, Event::SetObject(Resource::Sibur)), lines(&[(1, "ko\n")]));
    assert_eq!(
        apply(&mut server, 1, Event::Take(Resource::Linemate)),
        lines(&[
            (OBSERVERS, "pgt #1 1\n"),
            (OBSERVERS, "pin #1 1 2 3 2 0 0 0 0 0\n"),
            (OBSERVERS, "bct 1 2 0 0 0 0 0 0 0\n"),
            (1, "ok\n"),
        ])
    );
    assert_eq!(player(&server, 1).inventory.get(Resource::Linemate), 2);
    assert_eq!(server.map.resources().get(Resource::Linemate), 0);
    assert_eq!(material(&server, Resource::Linemate), before);
    assert_eq!(apply(&mut server, 1, Event::Take(Resource::Linemate)), lines(&[(1, "ko\n")]));
    server.clients[0].inventory = Resources::builder().sibur(u64::MAX).build();
    let mut setup = Vec::new();
    server.map.add_resource(Resource::Sibur, 1, UPosition::new(1, 2), &mut setup);
    assert_eq!(apply(&mut server, 1, Event::Take(Resource::Sibur)), lines(&[(1, "ko\n")]));
}

#[test]
fn moves_and_turns_are_answered_and_mirrored() {
    let mut server = world(3, 2);
    add_player(&mut server, 1, 0, 2, 1, Direction::North);
    assert_eq!(
        apply(&mut server, 1, Event::Forward),
        lines(&[(1, "ok\n"), (OBSERVERS, "ppo #1 2 0 1\n")])
    );
    assert_eq!(
        apply(&mut server, 1, Event::Right),
        lines(&[(1, "ok\n"), (OBSERVERS, "ppo #1 2 0 2\n")])
    );
    assert_eq!(
        apply(&mut server, 1, Event::Forward),
        lines(&[(1, "ok\n"), (OBSERVERS, "ppo #1 0 0 2\n")])
    );
    assert_eq!(
        apply(&mut server, 1, Event::Left),
        lines(&[(1, "ok\n"), (OBSERVERS, "ppo #1 0 0 1\n")])
    );
    assert_eq!(
        apply(&mut server, 1, Event::Left),
        lines(&[(1, "ok\n"), (OBSERVERS, "ppo #1 0 0 4\n")])
    );
    assert_eq!(
        apply(&mut server, 1, Event::Forward),
        lines(&[(1, "ok\n"), (OBSERVERS, "ppo #1 2 0 4\n")])
    );
    assert_eq!(apply(&mut server, 1, Event::Ko), lines(&[(1, "ko\n")]));
    assert_eq!(apply(&mut server, 1, Event::Phantom), vec![]);
    for data in [
        Event::Forward,
        Event::Right,
        Event::Left,
        Event::Look,
        Event::Inventory,
        Event::ConnectNbr,
        Event::Fork,
        Event::Eject,
        Event::Take(Resource::Food),
        Event::SetObject(Resource::Food),
        Event::Incantation,
        Event::Ko,
        Event::Broadcast(b"x".to_vec()),
    ] {
        assert_eq!(apply(&mut server, 99, data), vec![]);
    }
    assert_eq!(server.clients.len(), 1);
}

#[test]
fn look_inventory_slots_and_fork() {
    let mut server = world(4, 4);
    add_player(&mut server, 1, 0, 0, 0, Direction::North);
    add_player(&mut server, 2, 1, 3, 1, Direction::South);
    add_player(&mut server, 3, 1, 0, 1, Direction::South);
    let mut setup = Vec::new();
    server.map.add_resource(Resource::Food, 2, UPosition::new(0, 0), &mut setup);
    server.map.add_resource(Resource::Linemate, 1, UPosition::new(1, 1), &mut setup);
    assert_eq!(
        apply(&mut server, 1, Event::Look),
        lines(&[(1, "[player food food, player, player, linemate]\n")])
    );
    server.clients[0].elevation = ElevationLevel::Level2;
    assert_eq!(
        apply(&mut server, 1, Event::Look),
        lines(&[(1, "[player food food, player, player, linemate,,,,,]\n")])
    );
    server.clients[0].direction = Direction::West;
    server.clients[0].elevation = ElevationLevel::Level1;
    assert_eq!(
        apply(&mut server, 1, Event::Look),
        lines(&[(1, "[player food food,,, player]\n")])
    );
    assert_eq!(
        apply(&mut server, 1, Event::Inventory),
        lines(&[(
            1,
            "[deraumere 0, linemate 0, mendiane 0, phiras 0, sibur 0, thystame 0, food 10]\n"
        )])
    );
    assert_eq!(apply(&mut server, 2, Event::ConnectNbr), lines(&[(2, "0\n")]));
    assert_eq!(
        apply(&mut server, 2, Event::Fork),
        lines(&[(OBSERVERS, "pfk #2\n"), (OBSERVERS, "enw #0 #2 3 1\n"), (2, "ok\n")])
    );
    assert_eq!(apply(&mut server, 3, Event::ConnectNbr), lines(&[(3, "1\n")]));
    assert_eq!(apply(&mut server, 1, Event::ConnectNbr), lines(&[(1, "0\n")]));
    server.map.next_egg_id = u64::MAX;
    assert_eq!(apply(&mut server, 2, Event::Fork), lines(&[(2, "ko\n")]));
}

#[test]
fn commands_of_players_are_queued_at_their_cost() {
    let mut server = world(1, 1);
    add_player(&mut server, 1, 0, 0, 0, Direction::North);
    let mut outbox = Vec::new();
    let costs = [
        (Event::Forward, 7),
        (Event::Inventory, 8),
        (Event::ConnectNbr, 8),
        (Event::Fork, 50),
        (Event::Incantation, 50),
        (Event::Take(Resource::Food), 57),
        (Event::SetObject(Resource::Food), 64),
        (Event::Broadcast(b"x".to_vec()), 71),
        (Event::Look, 78),
        (Event::Eject, 85),
    ];
    for (event, due) in costs {
        server.handle_ai_events(1, AIAction::Action(event), &mut outbox);
        assert_eq!(server.event_scheduler.get_nb_events_by_player_id(1).1, due);
    }
    server.handle_ai_events(1, AIAction::Action(Event::Forward), &mut outbox);
    assert_eq!(server.event_scheduler.pending_count(), 10);
    server.handle_ai_events(2, AIAction::Shared(SharedAction::InvalidAction), &mut outbox);
    server.handle_ai_events(2, AIAction::Action(Event::Phantom), &mut outbox);
    server.handle_ai_events(2, AIAction::Action(Event::Right), &mut outbox);
    let last: Vec<(u64, bool)> = server
        .event_scheduler
        .events
        .iter()
        .filter(|event| event.player_id == 2)
        .map(|event| (event.expiration_tick, matches!(event.data, Event::Ko)))
        .collect();
    assert_eq!(last, vec![(0, true), (0, true), (7, false)]);
    assert!(outbox.is_empty());
}

#[test]
fn a_player_that_disconnects_leaves_the_world() {
    let mut server = world(2, 2);
    add_player(&mut server, 1, 0, 0, 0, Direction::North);
    add_player(&mut server, 2, 0, 1, 0, Direction::North);
    let gone = |id: u64| EventType::AI(GameEvent { id, action: AIAction::Shared(SharedAction::Disconnected) });
    assert_eq!(request(&mut server, gone(1)), lines(&[(OBSERVERS, "pdi #1\n")]));
    assert_eq!(request(&mut server, gone(1)), vec![]);
    assert_eq!(server.clients.len(), 1);
    assert_eq!(server.clients[0].id, 2);
}

#[test]
fn hunger_eats_and_kills() {
    let mut server = world(1, 1);
    add_player(&mut server, 1, 0, 0, 0, Direction::North);
    add_player(&mut server, 2, 0, 0, 0, Direction::North);
    add_player(&mut server, 3, 0, 0, 0, Direction::North);
    server.clients[0].satiety = 1;
    server.clients[0].inventory = Resources::new();
    server.clients[1].satiety = 1;
    server.clients[2].satiety = 5;
    let mut outbox = Vec::new();
    server.reduce_satiety(true, &mut outbox);
    assert_eq!(
        wire(outbox),
        lines(&[
            (1, "dead\n"),
            (OBSERVERS, "pdi #1\n"),
            (OBSERVERS, "pin #2 0 0 9 0 0 0 0 0 0\n"),
            (OBSERVERS, "pin #3 0 0 10 0 0 0 0 0 0\n"),
        ])
    );
    assert_eq!(server.clients.len(), 2);
    assert_eq!(player(&server, 2).satiety, 126);
    assert_eq!(player(&server, 3).satiety, 4);
    let mut outbox = Vec::new();
    server.reduce_satiety(false, &mut outbox);
    assert!(outbox.is_empty());
    assert_eq!(player(&server, 2).satiety, 125);
}

#[test]
fn a_player_lives_on_its_food_and_no_longer() {
    let mut server = world(1, 1);
    add_player(&mut server, 1, 0, 0, 0, Direction::North);
    let days = 126 * 11;
    for _ in 0..days - 1 {
        assert_eq!(tick(&mut server), vec![]);
    }
    assert_eq!(tick(&mut server), lines(&[(1, "dead\n"), (OBSERVERS, "pdi #1\n")]));
    assert!(server.clients.is_empty());
}

#[test]
fn the_grid_is_refilled_to_its_targets() {
    assert_eq!(refill_target(Resource::Food, 100), 50);
    assert_eq!(refill_target(Resource::Linemate, 100), 30);
    assert_eq!(refill_target(Resource::Deraumere, 100), 15);
    assert_eq!(refill_target(Resource::Sibur, 100), 10);
    assert_eq!(refill_target(Resource::Mendiane, 100), 10);
    assert_eq!(refill_target(Resource::Phiras, 100), 8);
    assert_eq!(refill_target(Resource::Thystame, 100), 5);
    assert_eq!(refill_target(Resource::Food, 25), 12);
    assert_eq!(refill_target(Resource::Linemate, 25), 7);
    assert_eq!(refill_target(Resource::Deraumere, 25), 3);
    assert_eq!(refill_target(Resource::Phiras, 25), 2);
    assert_eq!(refill_target(Resource::Thystame, 25), 1);
    assert_eq!(refill_target(Resource::Thystame, 19), 0);
    assert_eq!(refill_target(Resource::Food, u64::MAX), u64::MAX / 2);
    let mut server = world(10, 10);
    let mut setup = Vec::new();
    server.map.add_resource(Resource::Thystame, 9, UPosition::new(0, 0), &mut setup);
    let mut outbox = Vec::new();
    server.spawn_resources(&mut outbox);
    let expected = Resources::builder()
        .food(50)
        .linemate(30)
        .deraumere(15)
        .sibur(10)
        .mendiane(10)
        .phiras(8)
        .thystame(9)
        .build();
    assert_eq!(*server.map.resources(), expected);
    assert_eq!(outbox.len(), 123);
    let told = wire(outbox);
    assert!(told.iter().all(|(to, line)| *to == OBSERVERS && line.starts_with("bct ")));
    for kind in Resource::iter() {
        assert_eq!(material(&server, kind), expected.get(kind));
    }
    let mut again = Vec::new();
    server.spawn_resources(&mut again);
    assert!(again.is_empty());
}

#[test]
fn observers_are_answered_at_once() {
    let mut server = world(2, 2);
    server.guis.push(9);
    add_player(&mut server, 1, 0, 1, 0, Direction::South);
    let mut setup = Vec::new();
    server.map.add_resource(Resource::Food, 3, UPosition::new(1, 0), &mut setup);
    server.map.add_resource(Resource::Thystame, 1, UPosition::new(0, 1), &mut setup);
    let mut ask = |action: GUIAction| {
        let told = request(&mut server, EventType::GUI(GameEvent { id: 9, action }));
        assert!(told.iter().all(|(to, _)| *to == 9));
        told.into_iter().map(|(_, line)| line).collect::<Vec<_>>().concat()
    };
    assert_eq!(ask(GUIAction::Msz), "msz 2 2\n");
    assert_eq!(ask(GUIAction::Bct(UPosition::new(1, 0))), "bct 1 0 3 0 0 0 0 0 0\n");
    assert_eq!(ask(GUIAction::Bct(UPosition::new(2, 0))), "sbp\n");
    assert_eq!(ask(GUIAction::Bct(UPosition::new(0, 2))), "sbp\n");
    assert_eq!(
        ask(GUIAction::Mct),
        "bct 0 0 0 0 0 0 0 0 0\nbct 1 0 3 0 0 0 0 0 0\nbct 0 1 0 0 0 0 0 0 1\nbct 1 1 0 0 0 0 0 0 0\n"
    );
    assert_eq!(ask(GUIAction::Tna), "tna alpha\ntna beta\n");
    assert_eq!(ask(GUIAction::Ppo(1)), "ppo #1 1 0 3\n");
    assert_eq!(ask(GUIAction::Plv(1)), "plv #1 1\n");
    assert_eq!(ask(GUIAction::Pin(1)), "pin #1 1 0 10 0 0 0 0 0 0\n");
    assert_eq!(ask(GUIAction::Ppo(2)), "sbp\n");
    assert_eq!(ask(GUIAction::Plv(2)), "sbp\n");
    assert_eq!(ask(GUIAction::Pin(2)), "sbp\n");
    assert_eq!(ask(GUIAction::Sgt), "sgt 100\n");
    assert_eq!(ask(GUIAction::Sst(250)), "sst 250\n");
    assert_eq!(ask(GUIAction::Sgt), "sgt 250\n");
    assert_eq!(ask(GUIAction::Shared(SharedAction::InvalidAction)), "suc\n");
    assert_eq!(ask(GUIAction::Shared(SharedAction::InvalidParameters)), "sbp\n");
    assert_eq!(ask(GUIAction::Shared(SharedAction::ReachedTakeLimit)), "suc\n");
    assert_eq!(ask(GUIAction::Shared(SharedAction::InvalidEncoding)), "suc\n");
    assert_eq!(ask(GUIAction::Shared(SharedAction::Disconnected)), "");
    assert_eq!(ask(GUIAction::Msz), "");
    assert!(server.guis.is_empty());
    assert_eq!(server.frequency, 250);
    assert_eq!(server.tick_period_nanos(), 4_000_000);
    server.frequency = 0;
    assert_eq!(server.tick_period_nanos(), u64::MAX);
    server.frequency = 3;
    assert_eq!(server.tick_period_nanos(), 333_333_333);
}

#[test]
fn the_world_starts_from_its_configuration() {
    let config = ServerConfig::new(
        "127.0.0.1".to_string(),
        4242,
        20,
        10,
        vec![
            b"team one".to_vec(),
            b"GRAPHIC".to_vec(),
            b"two\r\n".to_vec(),
            b"team one".to_vec(),
        ],
        4,
        50,
    );
    let server = Server::from_config(config);
    assert_eq!(server.map.size(), Size::new(20, 10));
    let teams: Vec<(u64, Vec<u8>)> =
        server.teams.iter().map(|team| (team.id, team.name.clone())).collect();
    assert_eq!(
        teams,
        vec![(0, b"teamone".to_vec()), (2, b"two__".to_vec()), (3, b"teamone".to_vec())]
    );
    assert_eq!(server.map.eggs.len(), 12);
    for team in [0, 2, 3] {
        assert_eq!(server.map.nb_eggs_by_team(team), 4);
    }
    assert_eq!(server.map.nb_eggs_by_team(1), 0);
    assert!(server.map.eggs.iter().all(|egg| egg.pos.x() < 20 && egg.pos.y() < 10));
    assert_eq!(server.frequency, 50);
    assert_eq!(server.event_scheduler.current_tick(), 0);
    assert!(server.clients.is_empty() && server.guis.is_empty());
    assert_eq!(server.find_team(b"teamone"), Some(0));
    assert_eq!(server.find_team(b"two__"), Some(1));
    assert_eq!(server.find_team(b"team one"), None);
    assert_eq!(sanitize_team_name(b" a b\nc\r "), b"ab_c_".to_vec());
}

#[test]
fn the_amount_of_every_resource_stays_while_events_are_applied() {
    let mut server = world(3, 3);
    add_player(&mut server, 1, 0, 1, 1, Direction::North);
    add_player(&mut server, 2, 1, 1, 1, Direction::East);
    let mut setup = Vec::new();
    server.map.add_resource(Resource::Linemate, 3, UPosition::new(1, 1), &mut setup);
    server.map.add_resource(Resource::Food, 2, UPosition::new(1, 2), &mut setup);
    let before: Vec<u64> = Resource::iter().into_iter().map(|kind| material(&server, kind)).collect();
    let events = vec![
        Event::Take(Resource::Linemate),
        Event::Forward,
        Event::Take(Resource::Food),
        Event::SetObject(Resource::Linemate),
        Event::Eject,
        Event::Left,
        Event::Look,
        Event::Fork,
        Event::Broadcast(b"x".to_vec()),
        Event::Incantation,
        Event::SetObject(Resource::Food),
    ];
    for (turn, event) in events.into_iter().enumerate() {
        apply(&mut server, 1 + (turn as u64 % 2), event);
        let now: Vec<u64> = Resource::iter().into_iter().map(|kind| material(&server, kind)).collect();
        assert_eq!(now, before);
    }
}

#[test]
fn answers_for_the_observers_go_to_each_of_them() {
    let mut outbox = Vec::new();
    send_to_observers(&mut outbox, GUIResponse::Pex(1));
    send_to_player(&mut outbox, 1, AIResponse::Broadcast(2, b"hi".to_vec()));
    send_to_observers(&mut outbox, GUIResponse::Tna(vec![b"alpha".to_vec()]));
    let deliveries = fan_out(&outbox, &vec![8, 9]);
    let told: Vec<(u64, String)> =
        deliveries.into_iter().map(|(to, response)| (to, spell(response))).collect();
    assert_eq!(
        told,
        lines(&[
            (8, "pex #1\n"),
            (9, "pex #1\n"),
            (1, "message 2, hi\n"),
            (8, "tna alpha\n"),
            (9, "tna alpha\n"),
        ])
    );
    assert_eq!(fan_out(&outbox, &vec![]).len(), 1);
}

#[test]
fn an_egg_laid_by_a_fork_takes_a_login_at_once() {
    let mut server = world(6, 6);
    add_player(&mut server, 1, 1, 4, 2, Direction::North);
    let waiting = server.accept_client();
    let login = || {
        EventType::Pending(GameEvent { id: waiting, action: PendingAction::Login(b"beta".to_vec()) })
    };
    assert_eq!(request(&mut server, login()), lines(&[(waiting, "ko\n")]));
    apply(&mut server, 1, Event::Fork);
    let told = request(&mut server, login());
    assert_eq!(told[0], (waiting, "0\n6 6\n".to_string()));
    assert_eq!(told[2], (OBSERVERS, "ebo #0\n".to_string()));
    assert!(told[1].1.starts_with(&format!("pnw #{} 4 2 ", waiting)));
    assert!(told[1].1.ends_with(" 1 beta\n"));
    assert_eq!(player(&server, waiting).pos, UPosition::new(4, 2));
    assert_eq!(player(&server, waiting).team, 1);
}
