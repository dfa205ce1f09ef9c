use zappy_server::vec2::{wrap_add, Position, Size, UPosition, Vec2};

#[test]
fn test_vec2() {
    let pos = UPosition::new(1, 2);
    assert_eq!(pos.x(), 1);
    assert_eq!(pos.y(), 2);
}

#[test]
fn test_vec2_from_tuple() {
    let pos: UPosition = (1, 2).into();
    assert_eq!(pos.x(), 1);
    assert_eq!(pos.y(), 2);
}

#[test]
fn test_vec2_eq() {
    let pos1 = UPosition::new(1, 2);
    let pos2 = UPosition::new(1, 2);
    assert_eq!(pos1, pos2);
}

#[test]
fn test_vec2_ne() {
    let pos1 = UPosition::new(1, 2);
    let pos2 = UPosition::new(2, 1);
    assert_ne!(pos1, pos2);
}

#[test]
fn test_vec2_clone() {
    let pos = UPosition::new(1, 2);
    let pos_clone = pos;
    assert_eq!(pos, pos_clone);
}

#[test]
fn vec2_test_vec2() {
    let pos = Size::new(1, 2);
    assert_eq!(pos.x(), 1);
    assert_eq!(pos.y(), 2);
}

#[test]
fn vec2_test_vec2_from_tuple() {
    let pos: Size = (1, 2).into();
    assert_eq!(pos.x(), 1);
    assert_eq!(pos.y(), 2);
}

#[test]
fn vec2_test_vec2_eq() {
    let pos1 = Size::new(1, 2);
    let pos2 = Size::new(1, 2);
    assert_eq!(pos1, pos2);
}

#[test]
fn vec2_test_vec2_ne() {
    let pos1 = Size::new(1, 2);
    let pos2 = Size::new(2, 1);
    assert_ne!(pos1, pos2);
}

#[test]
fn vec2_test_vec2_clone() {
    let pos = Size::new(1, 2);
    let pos_clone = pos;
    assert_eq!(pos, pos_clone);
}

#[test]
fn vec2_default_is_the_origin() {
    assert_eq!(UPosition::default(), UPosition::new(0, 0));
}

#[test]
fn vec2_mutable_handles_and_replace() {
    let mut pos = Position::new(-3, 4);
    *pos.x_mut() = 7;
    *pos.y_mut() -= 1;
    assert_eq!(pos, Vec2 { x: 7, y: 3 });
    pos.replace(Position::new(1, -1));
    assert_eq!(pos, Position::new(1, -1));
}

#[test]
fn wrap_add_wraps_both_ways() {
    assert_eq!(wrap_add(9, 1, 10), 0);
    assert_eq!(wrap_add(0, -1, 10), 9);
    assert_eq!(wrap_add(3, -25, 10), 8);
    assert_eq!(wrap_add(u64::MAX, 1, 7), ((u64::MAX % 7) + 1) % 7);
    assert_eq!(wrap_add(0, i64::MIN, 1), 0);
}
