use zappy_server::player::Direction;
use zappy_server::sound::{get_shortest_path_torique, get_sound_direction, Emitter, Receiver};
use zappy_server::vec2::{Size, UPosition};

#[test]
fn test_sound_same_position() {
    let map_size = Size::new(10, 10);

    let emitter = Emitter {
        pos: UPosition::new(5, 5),
    };
    let receiver = Receiver {
        pos: UPosition::new(5, 5),
        direction: Direction::North,
    };

    let direction = get_sound_direction(emitter, receiver, map_size);

    assert_eq!(direction, 0);
}

#[test]
fn test_sound_direction_edges() {
    let map_size = Size::new(21, 21);

    let emitter = Emitter {
        pos: UPosition::new(20, 20),
    };
    let receiver = Receiver {
        pos: UPosition::new(0, 0),
        direction: Direction::South,
    };

    let direction = get_sound_direction(emitter, receiver, map_size);

    assert_eq!(direction, 8);
}

#[test]
fn test_sound_direction_pp() {
    let map_size = Size::new(8, 10);

    let emitter = Emitter {
        pos: UPosition::new(5, 6),
    };
    let receiver = Receiver {
        pos: UPosition::new(3, 2),
        direction: Direction::North,
    };

    let direction = get_sound_direction(emitter, receiver, map_size);

    assert_eq!(direction, 8);
}

#[test]
fn test_sound_direction_pp2() {
    let map_size = Size::new(8, 10);

    let emitter = Emitter {
        pos: UPosition::new(5, 6),
    };
    let receiver = Receiver {
        pos: UPosition::new(0, 5),
        direction: Direction::South,
    };

    let direction = get_sound_direction(emitter, receiver, map_size);

    assert_eq!(direction, 7);
}

#[test]
fn test_sound_direction_pp3() {
    let map_size = Size::new(8, 10);

    let emitter = Emitter {
        pos: UPosition::new(5, 6),
    };
    let receiver = Receiver {
        pos: UPosition::new(6, 6),
        direction: Direction::East,
    };

    let direction = get_sound_direction(emitter, receiver, map_size);

    assert_eq!(direction, 5);
}

#[test]
fn test_sound_direction_pp4() {
    let map_size = Size::new(8, 10);

    let emitter = Emitter {
        pos: UPosition::new(5, 6),
    };
    let receiver = Receiver {
        pos: UPosition::new(0, 7),
        direction: Direction::West,
    };

    let direction = get_sound_direction(emitter, receiver, map_size);

    assert_eq!(direction, 1);
}

#[test]
fn test_sound_direction_pp5() {
    let map_size = Size::new(8, 10);

    let emitter = Emitter {
        pos: UPosition::new(7, 1),
    };
    let receiver = Receiver {
        pos: UPosition::new(6, 0),
        direction: Direction::North,
    };

    let direction = get_sound_direction(emitter, receiver, map_size);

    assert_eq!(direction, 8);
}

#[test]
fn test_sound_direction_pp6() {
    let map_size = Size::new(8, 10);

    let emitter = Emitter {
        pos: UPosition::new(2, 4),
    };
    let receiver = Receiver {
        pos: UPosition::new(0, 9),
        direction: Direction::North,
    };

    let direction = get_sound_direction(emitter, receiver, map_size);

    assert_eq!(direction, 1);
}

#[test]
fn test_sound_direction_no_edges() {
    let map_size = Size::new(50, 50);

    let emitter = Emitter {
        pos: UPosition::new(20, 20),
    };
    let receiver = Receiver {
        pos: UPosition::new(0, 0),
        direction: Direction::South,
    };

    let direction = get_sound_direction(emitter, receiver, map_size);

    assert_eq!(direction, 4);
}

#[test]
fn test_shortest_path() {
    let map_size = Size::new(10, 8);

    let emitter = Emitter {
        pos: UPosition::new(0, 6),
    };
    let receiver = Receiver {
        pos: UPosition::new(9, 3),
        direction: Direction::North,
    };

    let (dx, dy) = get_shortest_path_torique(emitter.pos, receiver.pos, map_size);

    assert_eq!(dx, -1);
    assert_eq!(dy, -3);
}

#[test]
fn test_shortest_path_wraparound() {
    let map_size = Size::new(10, 8);

    let emitter = Emitter {
        pos: UPosition::new(9, 3),
    };
    let receiver = Receiver {
        pos: UPosition::new(0, 6),
        direction: Direction::North,
    };

    let (dx, dy) = get_shortest_path_torique(emitter.pos, receiver.pos, map_size);

    assert_eq!(dx, 1);
    assert_eq!(dy, 3);
}

#[test]
fn test_shortest_path_wraparound_negative() {
    let map_size = Size::new(10, 8);

    let emitter = Emitter {
        pos: UPosition::new(0, 3),
    };
    let receiver = Receiver {
        pos: UPosition::new(9, 6),
        direction: Direction::North,
    };

    let (dx, dy) = get_shortest_path_torique(emitter.pos, receiver.pos, map_size);

    assert_eq!(dx, -1);
    assert_eq!(dy, 3);
}

#[test]
fn test_shortest_path_wraparound_negative_y() {
    let map_size = Size::new(10, 8);

    let emitter = Emitter {
        pos: UPosition::new(5, 0),
    };
    let receiver = Receiver {
        pos: UPosition::new(5, 7),
        direction: Direction::North,
    };

    let (dx, dy) = get_shortest_path_torique(emitter.pos, receiver.pos, map_size);

    assert_eq!(dx, 0);
    assert_eq!(dy, -1);
}

#[test]
fn test_shortest_path_wraparound_negative_x() {
    let map_size = Size::new(10, 8);

    let emitter = Emitter {
        pos: UPosition::new(0, 3),
    };
    let receiver = Receiver {
        pos: UPosition::new(9, 3),
        direction: Direction::North,
    };

    let (dx, dy) = get_shortest_path_torique(emitter.pos, receiver.pos, map_size);

    assert_eq!(dx, -1);
    assert_eq!(dy, 0);
}

#[test]
fn test_shortest_path_wraparound_negative_x_y() {
    let map_size = Size::new(10, 8);

    let emitter = Emitter {
        pos: UPosition::new(0, 0),
    };
    let receiver = Receiver {
        pos: UPosition::new(9, 7),
        direction: Direction::North,
    };

    let (dx, dy) = get_shortest_path_torique(emitter.pos, receiver.pos, map_size);

    assert_eq!(dx, -1);
    assert_eq!(dy, -1);
}

#[test]
fn test_shortest_path_wraparound_negative_x_y_2() {
    let map_size = Size::new(10, 8);

    let emitter = Emitter {
        pos: UPosition::new(9, 7),
    };
    let receiver = Receiver {
        pos: UPosition::new(0, 0),
        direction: Direction::North,
    };

    let (dx, dy) = get_shortest_path_torique(emitter.pos, receiver.pos, map_size);

    assert_eq!(dx, 1);
    assert_eq!(dy, 1);
}

#[test]
fn shortest_path_keeps_the_positive_way_at_exactly_half() {
    let size = Size::new(10, 8);
    let way = get_shortest_path_torique(UPosition::new(0, 0), UPosition::new(5, 4), size);
    assert_eq!(way, (5, 4));
    let back = get_shortest_path_torique(UPosition::new(5, 4), UPosition::new(0, 0), size);
    assert_eq!(back, (5, 4));
}

#[test]
fn sound_direction_is_zero_only_on_the_same_cell() {
    let size = Size::new(6, 5);
    let headings = [Direction::North, Direction::East, Direction::South, Direction::West];
    for ex in 0..6 {
        for ey in 0..5 {
            for rx in 0..6 {
                for ry in 0..5 {
                    for heading in headings {
                        let sector = get_sound_direction(
                            Emitter { pos: UPosition::new(ex, ey) },
                            Receiver { pos: UPosition::new(rx, ry), direction: heading },
                            size,
                        );
                        if ex == rx && ey == ry {
                            assert_eq!(sector, 0);
                        } else {
                            assert!((1..=8).contains(&sector));
                        }
                    }
                }
            }
        }
    }
}

#[test]
fn sound_direction_for_an_emitter_straight_ahead_of_each_heading() {
    let size = Size::new(11, 11);
    let at = |x: u64, y: u64, heading: Direction| {
        get_sound_direction(
            Emitter { pos: UPosition::new(x, y) },
            Receiver { pos: UPosition::new(5, 5), direction: heading },
            size,
        )
    };
    assert_eq!(at(5, 7, Direction::North), 1);
    assert_eq!(at(7, 5, Direction::East), 1);
    assert_eq!(at(5, 3, Direction::South), 1);
    assert_eq!(at(3, 5, Direction::West), 1);
    assert_eq!(at(5, 3, Direction::North), 5);
    assert_eq!(at(3, 5, Direction::North), 3);
    assert_eq!(at(7, 5, Direction::North), 7);
    assert_eq!(at(7, 7, Direction::North), 8);
    assert_eq!(at(3, 7, Direction::North), 2);
}

#[test]
fn sound_direction_on_a_ten_by_eight_grid() {
    let size = Size::new(10, 8);
    let heard = get_sound_direction(
        Emitter { pos: UPosition::new(0, 6) },
        Receiver { pos: UPosition::new(9, 3), direction: Direction::North },
        size,
    );
    assert_eq!(heard, 1);
    let swapped = get_sound_direction(
        Emitter { pos: UPosition::new(9, 3) },
        Receiver { pos: UPosition::new(0, 6), direction: Direction::North },
        size,
    );
    assert_eq!(swapped, 5);
}
