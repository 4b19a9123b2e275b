use rustyhack::assoc::{IdMap, StrMap};
use rustyhack::combat::{Attacker, CombatAttackerStats, CombatParties, DamageRolls, Defender};
use rustyhack::combat_systems::{
    apply_combat_gains, apply_damage, check_and_apply_gains, check_for_combat, get_attacker,
    move_coordinate, resolve_combat,
};
use rustyhack::components::{
    DisplayDetails, Entity, EntityDetails, Inventory, MonsterDetails, PlayerDetails, Position,
    Stats,
};
use rustyhack::map_state::{AllMapStates, MapState};

fn position(map: &str, x: u32, y: u32, vx: i32, vy: i32) -> Position {
    Position {
        update_available: false,
        pos_x: x,
        pos_y: y,
        current_map: map.to_string(),
        velocity_x: vx,
        velocity_y: vy,
    }
}

fn player(id: u128, name: &str, pos: Position, hp: i64, level: u32, exp: u64, gold: u64) -> Entity {
    Entity {
        details: EntityDetails::Player(PlayerDetails {
            id,
            player_name: name.to_string(),
            client_addr: "127.0.0.1:50201".to_string(),
            currently_online: true,
        }),
        display_details: DisplayDetails { icon: '@', visible: true },
        position: pos,
        stats: Stats { current_hp: hp, max_hp: hp, level, exp, update_available: false },
        inventory: Inventory { gold, update_available: false },
    }
}

fn monster(id: u128, kind: &str, pos: Position, hp: i64, level: u32, gold: u64) -> Entity {
    let spawn = pos.clone();
    Entity {
        details: EntityDetails::Monster(MonsterDetails {
            id,
            monster_type: kind.to_string(),
            spawn_position: spawn,
        }),
        display_details: DisplayDetails { icon: 'r', visible: true },
        position: pos,
        stats: Stats { current_hp: hp, max_hp: hp, level, exp: 0, update_available: false },
        inventory: Inventory { gold, update_available: false },
    }
}

fn defender_for(e: &Entity) -> Defender {
    match &e.details {
        EntityDetails::Player(p) => Defender {
            id: p.id,
            name: p.player_name.clone(),
            client_addr: p.client_addr.clone(),
            currently_online: p.currently_online,
        },
        EntityDetails::Monster(m) => Defender {
            id: m.id,
            name: m.monster_type.clone(),
            client_addr: String::new(),
            currently_online: true,
        },
    }
}

fn entity_id(e: &Entity) -> u128 {
    match &e.details {
        EntityDetails::Player(p) => p.id,
        EntityDetails::Monster(m) => m.id,
    }
}

/// An occupancy index for one map holding the given entities at their
/// current positions, plus an empty default map.
fn map_states_for(map: &str, entities: &[&Entity]) -> AllMapStates {
    let mut occupants = Vec::new();
    for e in entities {
        occupants.push((e.position.pos_x, e.position.pos_y, defender_for(e)));
    }
    let mut entries = Vec::new();
    entries.push((map.to_string(), MapState { occupants }));
    if map != "default" {
        entries.push(("default".to_string(), MapState { occupants: Vec::new() }));
    }
    StrMap { entries }
}

/// Run detection, then compute a fixed rounded damage for every detected
/// pairing, as the external combat formula would.
fn detect_with_damage(
    world: &mut Vec<Entity>,
    all_map_states: &AllMapStates,
    damage: u32,
) -> (CombatParties, CombatAttackerStats, DamageRolls) {
    let mut parties: CombatParties = IdMap::new();
    let mut snapshots: CombatAttackerStats = IdMap::new();
    check_for_combat(world, all_map_states, &mut parties, &mut snapshots);
    let mut damages: DamageRolls = IdMap::new();
    let mut i = 0;
    while i < parties.len() {
        let defender_id = parties.entry_at(i).0;
        damages.insert(defender_id, damage);
        i += 1;
    }
    (parties, snapshots, damages)
}

#[test]
fn zero_velocity_entity_detects_no_combat() {
    let a = player(1, "alice", position("town", 1, 1, 0, 0), 30, 2, 0, 0);
    let b = monster(2, "rat", position("town", 2, 1, 0, 0), 10, 1, 5);
    let states = map_states_for("town", &[&a, &b]);
    let mut world = vec![a, b];
    let mut parties: CombatParties = IdMap::new();
    let mut snapshots: CombatAttackerStats = IdMap::new();
    check_for_combat(&mut world, &states, &mut parties, &mut snapshots);
    assert!(parties.is_empty());
    assert!(snapshots.is_empty());
}

#[test]
fn moving_into_occupied_tile_records_pairing_and_cancels_move() {
    let a = player(1, "alice", position("town", 1, 1, 1, 0), 30, 2, 7, 3);
    let b = monster(2, "rat", position("town", 2, 1, 0, 0), 10, 1, 5);
    let states = map_states_for("town", &[&a, &b]);
    let mut world = vec![a, b];
    let mut parties: CombatParties = IdMap::new();
    let mut snapshots: CombatAttackerStats = IdMap::new();
    check_for_combat(&mut world, &states, &mut parties, &mut snapshots);
    let attacker: &Attacker = parties.get(2).expect("pairing for the rat");
    assert_eq!(attacker.id, 1);
    assert_eq!(attacker.name, "alice");
    assert!(attacker.currently_online);
    assert_eq!(world[0].position.velocity_x, 0);
    assert_eq!(world[0].position.velocity_y, 0);
    let snap = snapshots.get(1).expect("snapshot for alice");
    assert_eq!(snap.stats.exp, 7);
    assert_eq!(snap.inventory.gold, 3);
}

#[test]
fn missing_map_falls_back_to_default_map() {
    // The mover stands on a map the index does not know; the default map
    // holds an occupant on its destination tile, so combat is detected
    // against the default map's state.
    let a = player(1, "alice", position("nowhere", 1, 1, 1, 0), 30, 2, 0, 0);
    let b = monster(2, "rat", position("default", 2, 1, 0, 0), 10, 1, 5);
    let states = map_states_for("default", &[&b]);
    let mut world = vec![a, b];
    let mut parties: CombatParties = IdMap::new();
    let mut snapshots: CombatAttackerStats = IdMap::new();
    check_for_combat(&mut world, &states, &mut parties, &mut snapshots);
    assert!(parties.contains_key(2));
}

#[test]
fn tick_maps_are_empty_after_resolution_and_gain_application() {
    let a = player(1, "alice", position("town", 1, 1, 1, 0), 30, 2, 0, 0);
    let b = monster(2, "rat", position("town", 2, 1, 0, 0), 10, 4, 20);
    let states = map_states_for("town", &[&a, &b]);
    let mut world = vec![a, b];
    let (mut parties, mut snapshots, damages) = detect_with_damage(&mut world, &states, 11);
    assert!(!parties.is_empty());
    assert!(!snapshots.is_empty());
    let _ = resolve_combat(&mut world, &mut parties, &mut snapshots, &damages);
    assert!(parties.is_empty());
    apply_combat_gains(&mut world, &mut snapshots);
    assert!(snapshots.is_empty());
}

#[test]
fn paired_defender_is_damaged_exactly_once() {
    let a = player(1, "alice", position("town", 1, 1, 1, 0), 30, 2, 0, 0);
    let b = monster(2, "rat", position("town", 2, 1, 0, 0), 10, 1, 5);
    let states = map_states_for("town", &[&a, &b]);
    let mut world = vec![a, b];
    let (mut parties, mut snapshots, damages) = detect_with_damage(&mut world, &states, 3);
    let notifications = resolve_combat(&mut world, &mut parties, &mut snapshots, &damages);
    assert_eq!(notifications.len(), 1);
    assert_eq!(world[1].stats.current_hp, 7);
    assert_eq!(world[0].stats.current_hp, 30);
}

#[test]
fn dead_defender_is_never_damaged_or_rewarded() {
    let a = player(1, "alice", position("town", 1, 1, 1, 0), 30, 2, 0, 0);
    let mut b = monster(2, "rat", position("town", 2, 1, 0, 0), 10, 4, 20);
    b.stats.current_hp = 0;
    let states = map_states_for("town", &[&a, &b]);
    let mut world = vec![a, b];
    let (mut parties, mut snapshots, damages) = detect_with_damage(&mut world, &states, 11);
    let notifications = resolve_combat(&mut world, &mut parties, &mut snapshots, &damages);
    assert!(notifications.is_empty());
    assert_eq!(world[1].stats.current_hp, 0);
    let snap = snapshots.get(1).expect("snapshot for alice");
    assert_eq!(snap.stats.exp, 0);
    assert_eq!(snap.inventory.gold, 0);
    assert!(!snap.stats.update_available);
}

#[test]
fn dead_attacker_is_skipped() {
    let mut a = player(1, "alice", position("town", 1, 1, 1, 0), 30, 2, 0, 0);
    a.stats.current_hp = -1;
    let b = monster(2, "rat", position("town", 2, 1, 0, 0), 10, 1, 5);
    let states = map_states_for("town", &[&a, &b]);
    let mut world = vec![a, b];
    let (mut parties, mut snapshots, damages) = detect_with_damage(&mut world, &states, 3);
    let notifications = resolve_combat(&mut world, &mut parties, &mut snapshots, &damages);
    assert!(notifications.is_empty());
    assert_eq!(world[1].stats.current_hp, 10);
}

#[test]
fn rounded_damage_below_defender_hp_gives_no_reward() {
    // The external formula produced 5.4 damage; rounding applies before
    // subtraction, so the monster drops from 10 to 5 hit points and lives.
    let damage = (5.4f32).round() as u32;
    assert_eq!(damage, 5);
    let a = player(1, "alice", position("town", 1, 1, 1, 0), 30, 2, 0, 0);
    let b = monster(2, "rat", position("town", 2, 1, 0, 0), 10, 3, 20);
    let states = map_states_for("town", &[&a, &b]);
    let mut world = vec![a, b];
    let (mut parties, mut snapshots, damages) = detect_with_damage(&mut world, &states, damage);
    let notifications = resolve_combat(&mut world, &mut parties, &mut snapshots, &damages);
    assert_eq!(world[1].stats.current_hp, 5);
    assert_eq!(notifications.len(), 1);
    let n = &notifications[0];
    assert_eq!(n.damage, 5);
    assert_eq!(n.remaining_hp, 5);
    assert_eq!(n.exp_gain, 0);
    assert_eq!(n.gold_gain, 0);
    assert_eq!(n.defender.id, 2);
    assert_eq!(n.attacker.id, 1);
    // No kill: the snapshot carries no reward for gain application.
    let snap = snapshots.get(1).expect("snapshot for alice");
    assert!(!snap.stats.update_available);
}

#[test]
fn monster_kill_awards_level_scaled_exp_and_full_gold() {
    // 11 rounded damage against 10 hit points: the monster dies at -1, the
    // attacker gains level 4 times the experience factor, and all 20 gold.
    let a = player(1, "alice", position("town", 1, 1, 1, 0), 30, 2, 7, 3);
    let b = monster(2, "rat", position("town", 2, 1, 0, 0), 10, 4, 20);
    let states = map_states_for("town", &[&a, &b]);
    let mut world = vec![a, b];
    let (mut parties, mut snapshots, damages) = detect_with_damage(&mut world, &states, 11);
    let notifications = resolve_combat(&mut world, &mut parties, &mut snapshots, &damages);
    assert_eq!(world[1].stats.current_hp, -1);
    assert_eq!(notifications.len(), 1);
    let n = &notifications[0];
    assert_eq!(n.damage, 11);
    assert_eq!(n.remaining_hp, -1);
    assert_eq!(n.exp_gain, 4 * 10);
    assert_eq!(n.gold_gain, 20);
    // Gain application flushes the rewards onto the player's live components
    // and flags both for the network sync.
    apply_combat_gains(&mut world, &mut snapshots);
    assert_eq!(world[0].stats.exp, 7 + 40);
    assert_eq!(world[0].inventory.gold, 3 + 20);
    assert!(world[0].stats.update_available);
    assert!(world[0].inventory.update_available);
    assert!(snapshots.is_empty());
}

#[test]
fn killing_a_player_awards_nothing() {
    let a = monster(2, "rat", position("town", 2, 1, -1, 0), 10, 4, 20);
    let b = player(1, "alice", position("town", 1, 1, 0, 0), 5, 2, 7, 3);
    let states = map_states_for("town", &[&a, &b]);
    let mut world = vec![a, b];
    let (mut parties, mut snapshots, damages) = detect_with_damage(&mut world, &states, 11);
    let notifications = resolve_combat(&mut world, &mut parties, &mut snapshots, &damages);
    assert_eq!(world[1].stats.current_hp, -6);
    // The defeated player's stats delta is flagged for the network layer.
    assert!(world[1].stats.update_available);
    assert_eq!(notifications.len(), 1);
    assert_eq!(notifications[0].exp_gain, 0);
    assert_eq!(notifications[0].gold_gain, 0);
    // The monster's snapshot gained nothing, so gain application changes no
    // player either.
    apply_combat_gains(&mut world, &mut snapshots);
    assert_eq!(world[0].inventory.gold, 20);
}

#[test]
fn get_attacker_prefers_player_details() {
    let p = PlayerDetails {
        id: 9,
        player_name: "bob".to_string(),
        client_addr: "10.0.0.1:4000".to_string(),
        currently_online: true,
    };
    let m = MonsterDetails {
        id: 8,
        monster_type: "bat".to_string(),
        spawn_position: position("town", 0, 0, 0, 0),
    };
    let from_player = get_attacker(Some(&p), Some(&m));
    assert_eq!(from_player.id, 9);
    assert_eq!(from_player.name, "bob");
    assert_eq!(from_player.client_addr, "10.0.0.1:4000");
    let from_monster = get_attacker(None, Some(&m));
    assert_eq!(from_monster.id, 8);
    assert_eq!(from_monster.name, "bat");
    assert_eq!(from_monster.client_addr, "");
    assert!(from_monster.currently_online);
}

#[test]
fn apply_damage_decrements_hp() {
    let mut stats = Stats { current_hp: 10, max_hp: 10, level: 1, exp: 0, update_available: false };
    apply_damage(&mut stats, 4);
    assert_eq!(stats.current_hp, 6);
    apply_damage(&mut stats, 9);
    assert_eq!(stats.current_hp, -3);
}

#[test]
fn check_and_apply_gains_on_live_defender_gives_nothing() {
    let mut snapshots: CombatAttackerStats = IdMap::new();
    let mut stats = Stats { current_hp: 20, max_hp: 20, level: 3, exp: 5, update_available: false };
    let mut inventory = Inventory { gold: 2, update_available: false };
    let defender_stats =
        Stats { current_hp: 4, max_hp: 10, level: 2, exp: 0, update_available: false };
    let defender_inventory = Inventory { gold: 50, update_available: false };
    let gains = check_and_apply_gains(
        &mut snapshots,
        7,
        &mut stats,
        &mut inventory,
        &defender_stats,
        &defender_inventory,
    );
    assert_eq!(gains, (0, 0));
    assert_eq!(stats.exp, 5);
    assert_eq!(inventory.gold, 2);
    assert!(snapshots.is_empty());
}

#[test]
fn move_coordinate_clamps_at_zero() {
    assert_eq!(move_coordinate(1, -3), 0);
    assert_eq!(move_coordinate(5, -3), 2);
    assert_eq!(move_coordinate(5, 3), 8);
    assert_eq!(move_coordinate(u32::MAX, 2), u32::MAX);
}

#[test]
fn last_writer_wins_on_duplicate_defender() {
    // Two entities move into the rat's tile in one tick: only the
    // later-scanned attacker's pairing survives.
    let a = player(1, "alice", position("town", 1, 1, 1, 0), 30, 2, 0, 0);
    let c = player(3, "carol", position("town", 3, 1, -1, 0), 30, 2, 0, 0);
    let b = monster(2, "rat", position("town", 2, 1, 0, 0), 10, 1, 5);
    let states = map_states_for("town", &[&a, &b, &c]);
    let mut world = vec![a, c, b];
    let mut parties: CombatParties = IdMap::new();
    let mut snapshots: CombatAttackerStats = IdMap::new();
    check_for_combat(&mut world, &states, &mut parties, &mut snapshots);
    assert_eq!(parties.len(), 1);
    assert_eq!(parties.get(2).expect("pairing for the rat").id, 3);
    // Both attempted moves were cancelled.
    assert_eq!(world[0].position.velocity_x, 0);
    assert_eq!(world[1].position.velocity_x, 0);
    let _ = entity_id(&world[2]);
}
