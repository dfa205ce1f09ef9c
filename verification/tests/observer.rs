use zappy_server::handler::graphics::gui_line;
use zappy_server::observer::{parse_server_message, Orientation, ServerMessage};
use zappy_server::player::Direction;
use zappy_server::protocol::GUIResponse;
use zappy_server::resources::ElevationLevel;
use zappy_server::vec2::{Size, UPosition};

#[test]
fn headings_are_numbered_from_one_to_four() {
    assert_eq!(Orientation::try_from(1), Ok(Orientation::North));
    assert_eq!(Orientation::try_from(2), Ok(Orientation::East));
    assert_eq!(Orientation::try_from(3), Ok(Orientation::South));
    assert_eq!(Orientation::try_from(4), Ok(Orientation::West));
    assert_eq!(Orientation::try_from(0), Err(()));
    assert_eq!(Orientation::try_from(5), Err(()));
}

#[test]
fn lines_of_the_server_are_read() {
    assert!(matches!(
        parse_server_message(b"msz 10 8"),
        Some(ServerMessage::MapSize { width: 10, height: 8 })
    ));
    assert!(matches!(
        parse_server_message(b"  msz  10 8 9\n"),
        Some(ServerMessage::MapSize { width: 10, height: 8 })
    ));
    assert!(parse_server_message(b"msz 10").is_none());
    assert!(parse_server_message(b"msz ten 8").is_none());
    assert!(parse_server_message(b"msz 4294967296 8").is_none());
    assert!(matches!(
        parse_server_message(b"msz 4294967295 0"),
        Some(ServerMessage::MapSize { width: u32::MAX, height: 0 })
    ));
    assert!(matches!(
        parse_server_message(b"tna alpha"),
        Some(ServerMessage::TeamName { name }) if name == b"alpha"
    ));
    assert!(parse_server_message(b"tna").is_none());
    assert!(matches!(
        parse_server_message(b"pnw #7 2 3 3 1 alpha"),
        Some(ServerMessage::PlayerConnected {
            id: 7,
            pos: (2, 3),
            orientation: 3,
            level: 1,
            team_name
        }) if team_name == b"alpha"
    ));
    assert!(parse_server_message(b"pnw #7 2 3 3 1").is_none());
    assert!(parse_server_message(b"pnw #7 2 3 300 1 alpha").is_none());
    assert!(matches!(
        parse_server_message(b"ppo ##9 0 1 4"),
        Some(ServerMessage::PlayerPosition { id: 9, pos: (0, 1), orientation: 4 })
    ));
    assert!(matches!(
        parse_server_message(b"ppo 9 0 1 4"),
        Some(ServerMessage::PlayerPosition { id: 9, pos: (0, 1), orientation: 4 })
    ));
    assert!(parse_server_message(b"ppo #9 0 1").is_none());
    assert!(parse_server_message(b"ppo #9 0 1 x").is_none());
    assert!(matches!(
        parse_server_message(b"pdi #12"),
        Some(ServerMessage::PlayerDied { id: 12 })
    ));
    assert!(parse_server_message(b"pdi").is_none());
    assert!(parse_server_message(b"pdi #").is_none());
    assert!(matches!(parse_server_message(b"bct 0 0 1 2 3 4 5 6 7"), Some(ServerMessage::Other(()))));
    assert!(matches!(parse_server_message(b"WELCOME"), Some(ServerMessage::Other(()))));
    assert!(parse_server_message(b"").is_none());
    assert!(parse_server_message(b"   \n").is_none());
}

#[test]
fn what_the_server_writes_the_observer_reads() {
    let pos = UPosition::new(4, 5);
    assert!(matches!(
        parse_server_message(&gui_line(&GUIResponse::Msz(Size::new(20, 30)))),
        Some(ServerMessage::MapSize { width: 20, height: 30 })
    ));
    assert!(matches!(
        parse_server_message(&gui_line(&GUIResponse::Ppo(3, pos, Direction::West))),
        Some(ServerMessage::PlayerPosition { id: 3, pos: (4, 5), orientation: 4 })
    ));
    assert!(matches!(
        parse_server_message(&gui_line(&GUIResponse::Pdi(3))),
        Some(ServerMessage::PlayerDied { id: 3 })
    ));
    assert!(matches!(
        parse_server_message(&gui_line(&GUIResponse::Pnw(
            3,
            pos,
            Direction::East,
            ElevationLevel::Level1,
            b"beta".to_vec()
        ))),
        Some(ServerMessage::PlayerConnected {
            id: 3,
            pos: (4, 5),
            orientation: 2,
            level: 1,
            team_name
        }) if team_name == b"beta"
    ));
}
