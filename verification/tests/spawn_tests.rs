use rustyhack::assoc::StrMap;
use rustyhack::background_map::{BackgroundMap, Tile};
use rustyhack::combat::Defender;
use rustyhack::components::{
    DisplayDetails, Entity, EntityDetails, Inventory, MonsterDetails, Position, Stats,
};
use rustyhack::map_state::{get_current_map_states, is_colliding_with_entity, MapState};
use rustyhack::monsters::{
    initialise_all_monster_definitions, spawn_initial_monsters, spawn_single_monster, Monster,
    MonsterSpawns, PositionWithoutMap, Spawns,
};

fn template(kind: &str, hp: i64, level: u32, gold: u64) -> Monster {
    let pos = Position {
        update_available: false,
        pos_x: 0,
        pos_y: 0,
        current_map: "default".to_string(),
        velocity_x: 0,
        velocity_y: 0,
    };
    Monster {
        monster_details: MonsterDetails {
            id: 0,
            monster_type: kind.to_string(),
            spawn_position: pos.clone(),
        },
        display_details: DisplayDetails { icon: 'r', visible: true },
        position: pos,
        stats: Stats { current_hp: hp, max_hp: hp, level, exp: 0, update_available: false },
        inventory: Inventory { gold, update_available: false },
    }
}

fn monster_fields(e: &Entity) -> &MonsterDetails {
    match &e.details {
        EntityDetails::Monster(m) => m,
        EntityDetails::Player(_) => panic!("spawned entity is not a monster"),
    }
}

#[test]
fn catalog_lookup_finds_template_by_name() {
    let catalog = initialise_all_monster_definitions(vec![
        ("rat".to_string(), template("rat", 10, 1, 5)),
        ("bat".to_string(), template("bat", 6, 2, 2)),
    ]);
    let rat = catalog.get(&"rat".to_string()).expect("rat template");
    assert_eq!(rat.stats.max_hp, 10);
    let bat = catalog.get(&"bat".to_string()).expect("bat template");
    assert_eq!(bat.stats.level, 2);
    assert!(catalog.get(&"owl".to_string()).is_none());
}

#[test]
fn catalog_keeps_the_later_of_two_equal_names() {
    let catalog = initialise_all_monster_definitions(vec![
        ("rat".to_string(), template("rat", 10, 1, 5)),
        ("rat".to_string(), template("rat", 12, 3, 9)),
    ]);
    let rat = catalog.get(&"rat".to_string()).expect("rat template");
    assert_eq!(rat.stats.max_hp, 12);
    assert_eq!(rat.stats.level, 3);
}

#[test]
fn spawn_initial_monsters_spawns_one_per_coordinate() {
    let catalog = initialise_all_monster_definitions(vec![(
        "rat".to_string(),
        template("rat", 10, 1, 5),
    )]);
    let spawn_table = StrMap {
        entries: vec![(
            "town".to_string(),
            Spawns {
                monsters: vec![MonsterSpawns {
                    monster_type: "rat".to_string(),
                    spawn_positions: vec![
                        PositionWithoutMap { x: 1, y: 1 },
                        PositionWithoutMap { x: 2, y: 2 },
                    ],
                }],
            },
        )],
    };
    let mut world: Vec<Entity> = Vec::new();
    spawn_initial_monsters(&mut world, &catalog, &spawn_table);
    assert_eq!(world.len(), 2);
    let first = monster_fields(&world[0]);
    let second = monster_fields(&world[1]);
    assert_ne!(first.id, second.id);
    for (entity, (x, y)) in world.iter().zip([(1u32, 1u32), (2, 2)]) {
        let md = monster_fields(entity);
        assert_eq!(md.monster_type, "rat");
        assert_eq!(entity.position.pos_x, x);
        assert_eq!(entity.position.pos_y, y);
        assert_eq!(entity.position.current_map, "town");
        assert_eq!(entity.position.velocity_x, 0);
        assert_eq!(entity.position.velocity_y, 0);
        assert!(!entity.position.update_available);
        assert_eq!(md.spawn_position.pos_x, x);
        assert_eq!(md.spawn_position.pos_y, y);
        assert_eq!(
            entity.stats,
            Stats { current_hp: 10, max_hp: 10, level: 1, exp: 0, update_available: false }
        );
        assert_eq!(entity.inventory, Inventory { gold: 5, update_available: false });
    }
}

#[test]
fn spawn_single_monster_uses_a_configured_coordinate() {
    let catalog = initialise_all_monster_definitions(vec![(
        "rat".to_string(),
        template("rat", 10, 1, 5),
    )]);
    let coordinates =
        vec![PositionWithoutMap { x: 4, y: 7 }, PositionWithoutMap { x: 9, y: 9 }];
    let more_coordinates = vec![PositionWithoutMap { x: 6, y: 2 }];
    let spawn_table = StrMap {
        entries: vec![(
            "town".to_string(),
            Spawns {
                monsters: vec![
                    MonsterSpawns {
                        monster_type: "rat".to_string(),
                        spawn_positions: coordinates.clone(),
                    },
                    MonsterSpawns {
                        monster_type: "bat".to_string(),
                        spawn_positions: vec![PositionWithoutMap { x: 0, y: 0 }],
                    },
                    MonsterSpawns {
                        monster_type: "rat".to_string(),
                        spawn_positions: more_coordinates.clone(),
                    },
                ],
            },
        )],
    };
    let mut commands: Vec<Entity> = Vec::new();
    spawn_single_monster(
        &catalog,
        &spawn_table,
        &"town".to_string(),
        &"rat".to_string(),
        &mut commands,
    );
    // Exactly one spawn, even with two rat groups on the map; its coordinate
    // comes from the union of the rat groups' coordinates, never the bat's.
    assert_eq!(commands.len(), 1);
    let spawned = &commands[0];
    let md = monster_fields(spawned);
    assert_eq!(md.monster_type, "rat");
    let at = (spawned.position.pos_x, spawned.position.pos_y);
    assert!(coordinates.iter().chain(more_coordinates.iter()).any(|c| (c.x, c.y) == at));
    assert_eq!(spawned.position.velocity_x, 0);
    assert_eq!(spawned.position.velocity_y, 0);
}

#[test]
fn get_tile_at_reads_the_grid() {
    let map = BackgroundMap {
        data: vec![vec![Tile::Wall, Tile::Wall], vec![Tile::Wall, Tile::Floor]],
    };
    assert_eq!(map.get_tile_at(1, 1), Tile::Floor);
    assert_eq!(map.get_tile_at(0, 1), Tile::Wall);
    assert_eq!(map.data()[0].len(), 2);
}

#[test]
fn collision_query_reports_the_occupant() {
    let occupant = Defender {
        id: 5,
        name: "rat".to_string(),
        client_addr: String::new(),
        currently_online: true,
    };
    let state = MapState { occupants: vec![(2, 3, occupant)] };
    let hit = is_colliding_with_entity(2, 3, &state);
    assert!(hit.0);
    assert_eq!(hit.1.id, 5);
    assert_eq!(hit.1.name, "rat");
    let miss = is_colliding_with_entity(2, 4, &state);
    assert!(!miss.0);
    assert_eq!(miss.1.id, 0);
    assert_eq!(miss.1.name, "");
}

#[test]
fn unknown_map_falls_back_to_the_default_map_state() {
    let occupant = Defender {
        id: 6,
        name: "bat".to_string(),
        client_addr: String::new(),
        currently_online: true,
    };
    let states = StrMap {
        entries: vec![
            ("town".to_string(), MapState { occupants: vec![] }),
            ("default".to_string(), MapState { occupants: vec![(1, 1, occupant)] }),
        ],
    };
    let town = get_current_map_states(&states, &"town".to_string());
    assert!(town.occupants.is_empty());
    let fallback = get_current_map_states(&states, &"atlantis".to_string());
    assert_eq!(fallback.occupants.len(), 1);
    assert_eq!(fallback.occupants[0].2.id, 6);
}
