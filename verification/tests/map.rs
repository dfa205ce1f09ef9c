use zappy_server::cell::Cell;
use zappy_server::egg::Egg;
use zappy_server::map::GameMap;
use zappy_server::protocol::{Audience, GUIResponse, HasId, Outgoing, ServerResponse};
use zappy_server::resources::{Resource, Resources};
use zappy_server::team::Team;
use zappy_server::vec2::{HasPosition, Position, Size, UPosition};

fn bct_of(message: &Outgoing) -> (UPosition, Resources) {
    assert_eq!(message.to, Audience::Observers);
    match &message.response {
        ServerResponse::Gui(GUIResponse::Bct(cell)) => *cell,
        other => panic!("not a cell notice: {:?}", other),
    }
}

#[test]
fn a_new_grid_is_empty() {
    let map = GameMap::new(Size::new(3, 2));
    assert_eq!(map.size(), Size::new(3, 2));
    assert_eq!(map.cells().len(), 6);
    assert_eq!(*map.resources(), Resources::new());
    assert_eq!(map.nb_eggs_by_team(0), 0);
    assert_eq!(map.get(UPosition::new(2, 1)), Some(&Cell::new()));
    assert_eq!(map.get(UPosition::new(3, 1)), None);
    assert_eq!(map.get(UPosition::new(0, 2)), None);
    let none = GameMap::new(Size::new(0, 4));
    assert_eq!(none.cells().len(), 0);
    assert_eq!(none.cells_with_positions().len(), 0);
}

#[test]
fn positions_wrap_onto_the_grid() {
    let map = GameMap::new(Size::new(5, 4));
    assert_eq!(map.get_pos(UPosition::new(7, 9)), UPosition::new(2, 1));
    assert_eq!(map.get_pos_signed(Position::new(-1, -5)), UPosition::new(4, 3));
    assert_eq!(map.get_pos_signed(Position::new(5, 4)), UPosition::new(0, 0));
    assert_eq!(
        map.get_pos_with_offset(UPosition::new(0, 0), Position::new(-1, 1)),
        UPosition::new(4, 1)
    );
    assert_eq!(
        map.get_pos_with_offset(UPosition::new(4, 3), Position::new(1, 1)),
        UPosition::new(0, 0)
    );
    assert_eq!(
        map.get_pos_signed(Position::new(i64::MIN, i64::MAX)),
        UPosition::new(2, 3)
    );
}

#[test]
fn resources_are_added_and_taken_with_a_notice() {
    let mut map = GameMap::new(Size::new(3, 2));
    let mut outbox = Vec::new();
    let pos = UPosition::new(2, 1);
    map.add_resource(Resource::Linemate, 2, pos, &mut outbox);
    map.add_resource(Resource::Food, 1, UPosition::new(0, 0), &mut outbox);
    assert_eq!(map.get_ressources_at_pos(pos).get(Resource::Linemate), 2);
    assert_eq!(map.resources().get(Resource::Linemate), 2);
    assert_eq!(map.resources().get(Resource::Food), 1);
    assert_eq!(outbox.len(), 2);
    assert_eq!(bct_of(&outbox[0]), (pos, Resources::builder().linemate(2).build()));
    assert_eq!(
        map.del_resource(Resource::Linemate, 1, pos, &mut outbox),
        Some(Resource::Linemate)
    );
    assert_eq!(bct_of(&outbox[2]), (pos, Resources::builder().linemate(1).build()));
    assert_eq!(map.del_resource(Resource::Linemate, 2, pos, &mut outbox), None);
    assert_eq!(map.del_resource(Resource::Food, 1, pos, &mut outbox), None);
    assert_eq!(outbox.len(), 3);
    assert_eq!(map.resources().get(Resource::Linemate), 1);
    let listed = map.cells_with_positions();
    assert_eq!(listed.len(), 6);
    assert_eq!(listed[0].0, UPosition::new(0, 0));
    assert_eq!(listed[1].0, UPosition::new(1, 0));
    assert_eq!(listed[3].0, UPosition::new(0, 1));
    assert_eq!(listed[5].0, pos);
    assert_eq!(listed[5].1.ressources().get(Resource::Linemate), 1);
    assert_eq!(listed[0].1.ressources().get(Resource::Food), 1);
}

#[test]
fn eggs_are_laid_counted_dropped_and_broken() {
    let mut map = GameMap::new(Size::new(4, 4));
    let here = UPosition::new(1, 1);
    let there = UPosition::new(2, 3);
    assert_eq!(map.spawn_egg(7, here), 0);
    assert_eq!(map.spawn_egg(8, here), 1);
    assert_eq!(map.spawn_egg(7, there), 2);
    assert_eq!(map.spawn_egg(7, here), 3);
    assert_eq!(map.nb_eggs_by_team(7), 3);
    assert_eq!(map.nb_eggs_by_team(8), 1);
    assert_eq!(map.nb_eggs_by_team(9), 0);
    assert_eq!(map.drop_egg_number(7, 1), Egg::new(2, 7, there));
    assert_eq!(map.nb_eggs_by_team(7), 2);
    let broken = map.break_eggs_at_pos(here);
    assert_eq!(
        broken,
        vec![Egg::new(0, 7, here), Egg::new(1, 8, here), Egg::new(3, 7, here)]
    );
    assert_eq!(map.eggs.len(), 0);
    assert_eq!(map.break_eggs_at_pos(here), vec![]);
    assert_eq!(map.drop_egg(7), None);
    assert_eq!(map.spawn_egg(7, there), 4);
}

#[test]
fn random_eggs_lie_on_the_grid() {
    let mut map = GameMap::new(Size::new(3, 2));
    map.spawn_eggs(1, 20);
    map.spawn_eggs(2, 5);
    assert_eq!(map.nb_eggs_by_team(1), 20);
    assert_eq!(map.nb_eggs_by_team(2), 5);
    for egg in &map.eggs {
        assert!(egg.position().x() < 3 && egg.position().y() < 2);
    }
    let mut seen = Vec::new();
    for _ in 0..20 {
        let egg = map.drop_egg(1).unwrap();
        assert_eq!(egg.team_id(), 1);
        assert!(!seen.contains(&egg.id()));
        seen.push(egg.id());
    }
    assert_eq!(map.drop_egg(1), None);
    assert_eq!(map.nb_eggs_by_team(2), 5);
}

#[test]
fn teams_and_eggs_carry_their_handles() {
    let team = Team::new(4, b"alpha".to_vec());
    assert_eq!(team.id(), 4);
    assert_eq!(team.name(), b"alpha");
    let mut egg = Egg::new(1, 4, UPosition::new(2, 2));
    assert_eq!(egg.id(), 1);
    assert_eq!(egg.team_id(), 4);
    *egg.position_mut() = UPosition::new(0, 1);
    assert_eq!(egg.position(), UPosition::new(0, 1));
}

#[test]
fn a_cell_can_be_changed_in_place() {
    let mut map = GameMap::new(Size::new(2, 2));
    assert!(map.get_mut(UPosition::new(2, 0)).is_none());
    let cell = map.get_mut(UPosition::new(1, 1)).unwrap();
    cell.add_resource(Resource::Sibur, 4);
    assert_eq!(map.get_ressources_at_pos(UPosition::new(1, 1)).get(Resource::Sibur), 4);
    assert_eq!(map.get_ressources_at_pos(UPosition::new(0, 1)).get(Resource::Sibur), 0);
    assert_eq!(map.resources().get(Resource::Sibur), 0);
}
