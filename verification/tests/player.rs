use zappy_server::player::{
    BuildError, Direction, Player, PlayerBuilder, PlayerState, RelativeDirection,
};
use zappy_server::protocol::HasId;
use zappy_server::resources::ElevationLevel::{Level1, Level2, Level3};
use zappy_server::resources::{Resource, Resources};
use zappy_server::vec2::{HasPosition, Position, Size, UPosition};

#[test]
fn test_player_builder() {
    let player = PlayerBuilder::new()
        .team(42)
        .id(1)
        .position(UPosition::new(10, 20))
        .direction(Direction::North)
        .elevation(Level2)
        .satiety(200)
        .state(PlayerState::Idle)
        .build()
        .unwrap();

    assert_eq!(player.id(), 1);
    assert_eq!(player.position(), UPosition::new(10, 20));
    assert_eq!(player.direction(), Direction::North);
    assert_eq!(player.state(), PlayerState::Idle);
}

#[test]
fn test_direction_rotate_right() {
    let mut direction = Direction::North;
    direction.rotate_right();
    assert_eq!(direction, Direction::East);
}

#[test]
fn test_direction_rotate_left() {
    let mut direction = Direction::North;
    direction.rotate_left();
    assert_eq!(direction, Direction::West);
}

#[test]
fn four_quarter_turns_bring_a_heading_back() {
    for start in [Direction::North, Direction::East, Direction::South, Direction::West] {
        let mut heading = start;
        for _ in 0..4 {
            heading.rotate_right();
        }
        assert_eq!(heading, start);
        for _ in 0..4 {
            heading.rotate_left();
        }
        assert_eq!(heading, start);
        heading.rotate_left();
        heading.rotate_right();
        assert_eq!(heading, start);
    }
}

#[test]
fn heading_from_draw_and_numbers() {
    assert_eq!(Direction::from_draw(0), Direction::North);
    assert_eq!(Direction::from_draw(5), Direction::East);
    assert_eq!(Direction::from_draw(250), Direction::South);
    assert_eq!(Direction::from_draw(255), Direction::West);
    assert_eq!(Direction::North.number(), 1);
    assert_eq!(Direction::East.number(), 2);
    assert_eq!(Direction::South.number(), 3);
    assert_eq!(Direction::West.number(), 4);
    assert_eq!(Direction::North.step(), (0, 1));
    assert_eq!(Direction::West.step(), (-1, 0));
    let drawn = Direction::new();
    assert!((1..=4).contains(&drawn.number()));
}

#[test]
fn push_sides_and_sectors() {
    assert_eq!(RelativeDirection::Back.sector(), 5);
    assert_eq!(RelativeDirection::Left.sector(), 3);
    assert_eq!(RelativeDirection::Front.sector(), 1);
    assert_eq!(RelativeDirection::Right.sector(), 7);
    assert_eq!(
        RelativeDirection::of_push(Direction::East, Direction::North),
        RelativeDirection::Left
    );
    assert_eq!(
        RelativeDirection::of_push(Direction::North, Direction::North),
        RelativeDirection::Back
    );
    assert_eq!(
        RelativeDirection::of_push(Direction::South, Direction::North),
        RelativeDirection::Front
    );
    assert_eq!(
        RelativeDirection::of_push(Direction::North, Direction::East),
        RelativeDirection::Right
    );
}

fn player_at(x: u64, y: u64, heading: Direction) -> Player {
    Player::builder()
        .team(0)
        .id(7)
        .position(UPosition::new(x, y))
        .direction(heading)
        .build()
        .unwrap()
}

#[test]
fn builder_defaults_and_errors() {
    let player = player_at(0, 0, Direction::South);
    assert_eq!(player.inventory(), Resources::builder().food(10).build());
    assert_eq!(player.level(), Level1);
    assert_eq!(player.satiety, 126);
    assert!(!player.is_incantating());
    assert_eq!(player.team_id(), 0);
    assert_eq!(PlayerBuilder::new().id(1).build(), Err(BuildError::MissingTeam));
    assert_eq!(PlayerBuilder::new().team(1).build(), Err(BuildError::MissingId));
    assert_eq!(BuildError::MissingTeam.message(), b"Team ID is required".to_vec());
    assert_eq!(BuildError::MissingId.message(), b"Player ID is required".to_vec());
    let made = Player::new(3, 9);
    assert_eq!((made.team_id(), made.id()), (3, 9));
    assert_eq!(PlayerBuilder::default().inventory(Resources::new()).team(1).id(2).build().unwrap().inventory(), Resources::new());
}

#[test]
fn move_forward_wraps_on_the_torus() {
    let size = Size::new(5, 4);
    let mut north = player_at(2, 3, Direction::North);
    north.move_forward(&size);
    assert_eq!(north.position(), UPosition::new(2, 0));
    let mut west = player_at(0, 1, Direction::West);
    west.move_forward(&size);
    assert_eq!(west.position(), UPosition::new(4, 1));
    let mut south = player_at(1, 0, Direction::South);
    south.move_forward(&size);
    assert_eq!(south.position(), UPosition::new(1, 3));
    let mut east = player_at(4, 2, Direction::East);
    east.move_forward(&size).move_forward(&size);
    assert_eq!(east.position(), UPosition::new(1, 2));
    let mut moved = player_at(1, 1, Direction::East);
    moved.move_player(-7, 9, &size);
    assert_eq!(moved.position(), UPosition::new(4, 2));
}

#[test]
fn hunger_eats_or_starves() {
    let mut player = player_at(0, 0, Direction::North);
    assert_eq!(player.reduce_satiety(1), 125);
    assert_eq!(player.inventory().get(Resource::Food), 10);
    let mut at_one = PlayerBuilder::new().team(0).id(1).satiety(1).build().unwrap();
    assert_eq!(at_one.reduce_satiety(1), 126);
    assert_eq!(at_one.inventory().get(Resource::Food), 9);
    let mut at_zero = PlayerBuilder::new().team(0).id(1).satiety(0).build().unwrap();
    assert_eq!(at_zero.reduce_satiety(1), 126);
    assert_eq!(at_zero.inventory().get(Resource::Food), 9);
    let mut starving = PlayerBuilder::new()
        .team(0)
        .id(1)
        .satiety(0)
        .inventory(Resources::new())
        .build()
        .unwrap();
    assert_eq!(starving.reduce_satiety(1), 0);
    let mut last = PlayerBuilder::new()
        .team(0)
        .id(1)
        .satiety(1)
        .inventory(Resources::new())
        .build()
        .unwrap();
    assert_eq!(last.reduce_satiety(1), 0);
}

#[test]
fn inventory_adds_and_takes() {
    let mut player = player_at(0, 0, Direction::North);
    player.add_resource(Resource::Linemate, 2).add_resource(Resource::Sibur, 1);
    assert_eq!(player.inventory().get(Resource::Linemate), 2);
    assert_eq!(player.del_resource(Resource::Linemate, 1), Some(Resource::Linemate));
    assert_eq!(player.del_resource(Resource::Linemate, 2), None);
    assert_eq!(player.inventory().get(Resource::Linemate), 1);
    *player.level_mut() = Level3;
    *player.state_mut() = PlayerState::Incantating;
    player.direction_mut().rotate_right();
    player.position_mut().replace(UPosition::new(3, 3));
    assert_eq!(player.level(), Level3);
    assert!(player.is_incantating());
    assert_eq!(player.direction(), Direction::East);
    assert_eq!(player.position(), UPosition::new(3, 3));
}

#[test]
fn visible_positions_have_the_shape_of_the_level() {
    let first = player_at(2, 2, Direction::North);
    assert_eq!(
        first.get_visible_positions(),
        vec![
            Position::new(2, 2),
            Position::new(1, 3),
            Position::new(2, 3),
            Position::new(3, 3)
        ]
    );
    let east = player_at(0, 0, Direction::East);
    assert_eq!(
        east.get_visible_positions(),
        vec![
            Position::new(0, 0),
            Position::new(1, 1),
            Position::new(1, 0),
            Position::new(1, -1)
        ]
    );
    let south = player_at(0, 0, Direction::South);
    assert_eq!(
        south.get_visible_positions(),
        vec![
            Position::new(0, 0),
            Position::new(1, -1),
            Position::new(0, -1),
            Position::new(-1, -1)
        ]
    );
    let west = player_at(0, 0, Direction::West);
    assert_eq!(
        west.get_visible_positions(),
        vec![
            Position::new(0, 0),
            Position::new(-1, -1),
            Position::new(-1, 0),
            Position::new(-1, 1)
        ]
    );
    for (level, cells) in [(Level1, 4), (Level2, 9), (Level3, 16)] {
        let player = Player::builder().team(0).id(1).elevation(level).build().unwrap();
        let seen = player.get_visible_positions();
        assert_eq!(seen.len(), cells);
        assert_eq!(seen[0], Position::new(0, 0));
    }
}
