use zappy_server::cell::Cell;
use zappy_server::resources::Resource::{Deraumere, Food, Linemate, Mendiane, Phiras, Sibur, Thystame};
use zappy_server::resources::{level_requirement, ElevationLevel, Resource, Resources};

#[test]
fn test_resources_builder() {
    let resources = Resources::builder()
        .deraumere(5)
        .linemate(3)
        .food(10)
        .build();

    assert_eq!(resources[Deraumere], 5);
    assert_eq!(resources[Linemate], 3);
    assert_eq!(resources[Food], 10);
    assert_eq!(resources[Mendiane], 0);
}

#[test]
fn resources_builder_sets_every_kind() {
    let bag = Resources::builder()
        .mendiane(1)
        .phiras(2)
        .sibur(3)
        .thystame(4)
        .resource(Food, 9)
        .build();
    assert_eq!(bag.get(Mendiane), 1);
    assert_eq!(bag.get(Phiras), 2);
    assert_eq!(bag.get(Sibur), 3);
    assert_eq!(bag.get(Thystame), 4);
    assert_eq!(bag.get(Food), 9);
    assert_eq!(bag.get(Deraumere), 0);
    assert_eq!(Resources::new(), Resources::default());
}

#[test]
fn resources_iter_lists_seven_kinds_in_storage_order() {
    assert_eq!(
        Resource::iter(),
        vec![Deraumere, Linemate, Mendiane, Phiras, Sibur, Thystame, Food]
    );
}

#[test]
fn has_at_least_compares_every_counter() {
    let have = Resources::builder().linemate(2).sibur(1).build();
    let need = Resources::builder().linemate(1).sibur(1).build();
    assert!(have.has_at_least(&need));
    assert!(!need.has_at_least(&have));
    assert!(have.has_at_least(&Resources::new()));
    let other = Resources::builder().linemate(5).food(1).build();
    assert!(!have.has_at_least(&other));
}

#[test]
fn elevation_upgrade_stops_at_eight() {
    assert_eq!(ElevationLevel::default(), ElevationLevel::Level1);
    assert_eq!(ElevationLevel::Level1.upgrade(), ElevationLevel::Level2);
    assert_eq!(ElevationLevel::Level7.upgrade(), ElevationLevel::Level8);
    assert_eq!(ElevationLevel::Level8.upgrade(), ElevationLevel::Level8);
    assert_eq!(ElevationLevel::Level0.upgrade(), ElevationLevel::Level1);
    assert_eq!(ElevationLevel::Level5.number(), 5);
}

#[test]
fn elevation_table_rows() {
    let row = |level: ElevationLevel| level_requirement(level).unwrap();
    let stones = |l: u64, d: u64, s: u64, m: u64, p: u64, t: u64| {
        Resources::builder()
            .linemate(l)
            .deraumere(d)
            .sibur(s)
            .mendiane(m)
            .phiras(p)
            .thystame(t)
            .build()
    };
    assert_eq!(row(ElevationLevel::Level1).needed_players(), 1);
    assert_eq!(*row(ElevationLevel::Level1).needed_resources(), stones(1, 0, 0, 0, 0, 0));
    assert_eq!(row(ElevationLevel::Level2).needed_players(), 2);
    assert_eq!(*row(ElevationLevel::Level2).needed_resources(), stones(1, 1, 1, 0, 0, 0));
    assert_eq!(row(ElevationLevel::Level3).needed_players(), 2);
    assert_eq!(*row(ElevationLevel::Level3).needed_resources(), stones(2, 0, 1, 0, 2, 0));
    assert_eq!(row(ElevationLevel::Level4).needed_players(), 4);
    assert_eq!(*row(ElevationLevel::Level4).needed_resources(), stones(1, 1, 2, 0, 1, 0));
    assert_eq!(row(ElevationLevel::Level5).needed_players(), 4);
    assert_eq!(*row(ElevationLevel::Level5).needed_resources(), stones(1, 2, 1, 3, 0, 0));
    assert_eq!(row(ElevationLevel::Level6).needed_players(), 6);
    assert_eq!(*row(ElevationLevel::Level6).needed_resources(), stones(1, 2, 3, 0, 1, 0));
    assert_eq!(row(ElevationLevel::Level7).needed_players(), 6);
    assert_eq!(*row(ElevationLevel::Level7).needed_resources(), stones(2, 2, 2, 2, 2, 1));
    assert!(level_requirement(ElevationLevel::Level0).is_none());
    assert!(level_requirement(ElevationLevel::Level8).is_none());
}

#[test]
fn cell_adds_and_takes() {
    let mut cell = Cell::new();
    assert_eq!(*cell.ressources(), Resources::new());
    cell.add_resource(Food, 3);
    assert_eq!(cell.ressources().get(Food), 3);
    assert_eq!(cell.del_resource(Food, 2), Some(Food));
    assert_eq!(cell.ressources().get(Food), 1);
    assert_eq!(cell.del_resource(Food, 2), None);
    assert_eq!(cell.ressources().get(Food), 1);
    assert_eq!(cell.del_resource(Linemate, 1), None);
}
