//! The three per-tick combat systems, in the order the scheduler runs them:
//! detection, resolution, gain application.
//!
//! Detection scans moving entities and records pairings; resolution applies
//! rounded damage per pairing, credits kill rewards to the attacker's
//! snapshot and emits one notification per pairing; gain application copies
//! accumulated rewards onto the attacking players' live components. The two
//! tick-scoped maps are cleared on the way, so nothing leaks into the next
//! tick.

use crate::assoc::IdMap;
use crate::combat::{
    attacker_of, defender_of, lemma_parties_view_insert, parties_view, Attacker,
    AttackerSnapshot, AttackerV, CombatAttackerStats, CombatNotification, CombatParties,
    DamageRolls, Defender, DefenderV, NotificationV, MONSTER_EXP_MULTIPLICATION_FACTOR,
};
use crate::components::{Entity, EntityDetails, Inventory, MonsterDetails, PlayerDetails, Position, Stats};
use crate::map_state::{
    default_map_name, effective_state, get_current_map_states, is_colliding_with_entity,
    occupant_at, AllMapStates, MapState,
};
use vstd::prelude::*;

verus! {

/// Where a move from `pos` by `vel` lands, clamped into the unsigned tile
/// coordinate space.
pub open spec fn clamp_to_u32(t: int) -> u32 {
    if t < 0 {
        0u32
    } else if t > u32::MAX as int {
        u32::MAX
    } else {
        t as u32
    }
}

pub open spec fn tile_coord(pos: u32, vel: i32) -> u32 {
    clamp_to_u32(pos as int + vel as int)
}

pub fn move_coordinate(pos: u32, vel: i32) -> (r: u32)
    ensures
        r == tile_coord(pos, vel),
{
    let t: i64 = pos as i64 + vel as i64;
    if t < 0 {
        0
    } else if t > u32::MAX as i64 {
        u32::MAX
    } else {
        t as u32
    }
}

/// Whom entity `e` runs into this tick: the occupant of the tile its
/// velocity points at, on the map the index makes effective for it. A
/// stationary entity runs into nobody.
pub open spec fn detect_target(e: Entity, states: Map<Seq<char>, MapState>) -> Option<DefenderV> {
    if e.position.is_stationary() {
        None
    } else {
        occupant_at(
            effective_state(states, e.position.current_map@).occupants@,
            tile_coord(e.position.pos_x, e.position.velocity_x),
            tile_coord(e.position.pos_y, e.position.velocity_y),
        )
    }
}

/// How detection leaves entity `e`: the move is cancelled (velocity zeroed)
/// exactly when it collided.
pub open spec fn detected_entity(e: Entity, states: Map<Seq<char>, MapState>) -> Entity {
    if detect_target(e, states) is Some {
        Entity { position: Position { velocity_x: 0, velocity_y: 0, ..e.position }, ..e }
    } else {
        e
    }
}

pub open spec fn snapshot_of(e: Entity) -> AttackerSnapshot {
    AttackerSnapshot { stats: e.stats, inventory: e.inventory }
}

/// What one entity adds to the two tick maps.
pub open spec fn detect_step(
    e: Entity,
    states: Map<Seq<char>, MapState>,
    pm: Map<u128, AttackerV>,
    sm: Map<u128, AttackerSnapshot>,
) -> (Map<u128, AttackerV>, Map<u128, AttackerSnapshot>) {
    match detect_target(e, states) {
        Some(d) => (pm.insert(d.id, attacker_of(e)), sm.insert(e.id(), snapshot_of(e))),
        None => (pm, sm),
    }
}

/// The two tick maps after detection has scanned `es` front to back.
pub open spec fn detect_tick(
    es: Seq<Entity>,
    states: Map<Seq<char>, MapState>,
    pm: Map<u128, AttackerV>,
    sm: Map<u128, AttackerSnapshot>,
) -> (Map<u128, AttackerV>, Map<u128, AttackerSnapshot>)
    decreases es.len(),
{
    if es.len() == 0 {
        (pm, sm)
    } else {
        let s = detect_step(es[0], states, pm, sm);
        detect_tick(es.drop_first(), states, s.0, s.1)
    }
}

pub proof fn lemma_detect_tick_push(
    es: Seq<Entity>,
    states: Map<Seq<char>, MapState>,
    pm: Map<u128, AttackerV>,
    sm: Map<u128, AttackerSnapshot>,
    e: Entity,
)
    ensures
        detect_tick(es.push(e), states, pm, sm) == detect_step(
            e,
            states,
            detect_tick(es, states, pm, sm).0,
            detect_tick(es, states, pm, sm).1,
        ),
    decreases es.len(),
{
    if es.len() == 0 {
        assert(es.push(e)[0] == e);
        assert(es.push(e).drop_first() =~= Seq::<Entity>::empty());
        let s = detect_step(e, states, pm, sm);
        assert(detect_tick(es.push(e), states, pm, sm) == detect_tick(
            es.push(e).drop_first(),
            states,
            s.0,
            s.1,
        ));
        assert(detect_tick(es.push(e).drop_first(), states, s.0, s.1) == (s.0, s.1));
        assert(detect_tick(es, states, pm, sm) == (pm, sm));
        assert(s == (s.0, s.1));
    } else {
        assert(es.push(e)[0] == es[0]);
        assert(es.push(e).drop_first() =~= es.drop_first().push(e));
        let s = detect_step(es[0], states, pm, sm);
        lemma_detect_tick_push(es.drop_first(), states, s.0, s.1, e);
        let r = detect_tick(es.drop_first(), states, s.0, s.1);
        assert(detect_tick(es, states, pm, sm) == r);
        assert(detect_tick(es.push(e), states, pm, sm) == detect_tick(
            es.drop_first().push(e),
            states,
            s.0,
            s.1,
        ));
        assert(detect_step(e, states, r.0, r.1) == (
            detect_step(e, states, r.0, r.1).0,
            detect_step(e, states, r.0, r.1).1,
        ));
    }
}

/// The attacker role for an entity's details; player details take
/// precedence. An entity is always one of the two, so the caller never
/// passes two `None`s.
pub fn get_attacker(
    player_details_option: Option<&PlayerDetails>,
    monster_details_option: Option<&MonsterDetails>,
) -> (r: Attacker)
    requires
        player_details_option is Some || monster_details_option is Some,
    ensures
        match player_details_option {
            Some(p) => r@ == (AttackerV {
                id: p.id,
                name: p.player_name@,
                client_addr: p.client_addr@,
                currently_online: p.currently_online,
            }),
            None => r@ == (AttackerV {
                id: monster_details_option->0.id,
                name: monster_details_option->0.monster_type@,
                client_addr: Seq::<char>::empty(),
                currently_online: true,
            }),
        },
{
    if let Some(player_details) = player_details_option {
        Attacker {
            id: player_details.id,
            name: player_details.player_name.clone(),
            client_addr: player_details.client_addr.clone(),
            currently_online: player_details.currently_online,
        }
    } else {
        let monster_details = monster_details_option.unwrap();
        Attacker {
            id: monster_details.id,
            name: monster_details.monster_type.clone(),
            client_addr: String::new(),
            currently_online: true,
        }
    }
}

/// Scan all entities that attempted a move this tick; for each one whose
/// destination tile is occupied, record the pairing and a snapshot of the
/// attacker's state, and cancel the move.
#[verifier::loop_isolation(false)]
pub fn check_for_combat(
    world: &mut Vec<Entity>,
    all_map_states: &AllMapStates,
    combat_parties: &mut CombatParties,
    combat_attacker_stats: &mut CombatAttackerStats,
)
    requires
        all_map_states.wf(),
        forall|i: int|
            0 <= i < old(world)@.len() && !old(world)@[i].position.is_stationary()
                ==> all_map_states@.contains_key(
                #[trigger] old(world)@[i].position.current_map@,
            ) || all_map_states@.contains_key(default_map_name()),
        old(combat_parties).wf(),
        old(combat_attacker_stats).wf(),
    ensures
        final(world)@.len() == old(world)@.len(),
        forall|i: int|
            0 <= i < old(world)@.len() ==> final(world)@[i] == detected_entity(
                old(world)@[i],
                all_map_states@,
            ),
        parties_view(final(combat_parties)@) == detect_tick(
            old(world)@,
            all_map_states@,
            parties_view(old(combat_parties)@),
            old(combat_attacker_stats)@,
        ).0,
        final(combat_attacker_stats)@ == detect_tick(
            old(world)@,
            all_map_states@,
            parties_view(old(combat_parties)@),
            old(combat_attacker_stats)@,
        ).1,
        final(combat_parties).wf(),
        final(combat_attacker_stats).wf(),
{
    let ghost es0 = world@;
    let ghost states = all_map_states@;
    let ghost pm0 = parties_view(combat_parties@);
    let ghost sm0 = combat_attacker_stats@;
    let mut out: Vec<Entity> = Vec::new();
    let mut i: usize = 0;
    proof {
        assert(es0.take(0) =~= Seq::<Entity>::empty());
    }
    while i < world.len()
        invariant
            i <= es0.len(),
            world@ == es0,
            out@.len() == i,
            forall|j: int| 0 <= j < i ==> out@[j] == detected_entity(es0[j], states),
            combat_parties.wf(),
            combat_attacker_stats.wf(),
            parties_view(combat_parties@) == detect_tick(es0.take(i as int), states, pm0, sm0).0,
            combat_attacker_stats@ == detect_tick(es0.take(i as int), states, pm0, sm0).1,
        decreases es0.len() - i,
    {
        proof {
            assert(es0.take(i as int + 1) =~= es0.take(i as int).push(es0[i as int]));
            lemma_detect_tick_push(es0.take(i as int), states, pm0, sm0, es0[i as int]);
        }
        let mut entity = world[i].clone();
        if entity.position.velocity_x == 0 && entity.position.velocity_y == 0 {
            // No attempted move, no possible combat.
            assert(detect_target(es0[i as int], states) is None);
            out.push(entity);
        } else {
            assert(all_map_states@.contains_key(es0[i as int].position.current_map@)
                || all_map_states@.contains_key(default_map_name()));
            let current_map_states = get_current_map_states(
                all_map_states,
                &entity.position.current_map,
            );
            let potential_pos_x = move_coordinate(
                entity.position.pos_x,
                entity.position.velocity_x,
            );
            let potential_pos_y = move_coordinate(
                entity.position.pos_y,
                entity.position.velocity_y,
            );
            let entity_collision_status = is_colliding_with_entity(
                potential_pos_x,
                potential_pos_y,
                current_map_states,
            );
            if entity_collision_status.0 {
                let attacker = match &entity.details {
                    EntityDetails::Player(player_details) => get_attacker(
                        Some(player_details),
                        None,
                    ),
                    EntityDetails::Monster(monster_details) => get_attacker(
                        None,
                        Some(monster_details),
                    ),
                };
                assert(attacker@ == attacker_of(es0[i as int]));
                assert(attacker.id == es0[i as int].id());
                let attacker_id = attacker.id;
                let ghost pm_before = combat_parties@;
                combat_parties.insert(entity_collision_status.1.id, attacker);
                proof {
                    lemma_parties_view_insert(
                        pm_before,
                        entity_collision_status.1.id,
                        combat_parties@[entity_collision_status.1.id],
                    );
                }
                combat_attacker_stats.insert(
                    attacker_id,
                    AttackerSnapshot { stats: entity.stats, inventory: entity.inventory },
                );
                // The attempted step becomes an attack, not a walk.
                entity.position.velocity_x = 0;
                entity.position.velocity_y = 0;
            }
            out.push(entity);
        }
        i += 1;
    }
    proof {
        assert(es0.take(es0.len() as int) =~= es0);
    }
    *world = out;
}

/// Hit points after a damage application, saturating at the lowest value the
/// field can hold.
pub open spec fn hp_minus(hp: i64, damage: u32) -> i64 {
    if hp - damage >= i64::MIN {
        (hp - damage) as i64
    } else {
        i64::MIN
    }
}

pub fn apply_damage(stats: &mut Stats, damage: u32)
    ensures
        *final(stats) == (Stats {
            current_hp: hp_minus(old(stats).current_hp, damage),
            ..*old(stats)
        }),
{
    if stats.current_hp >= i64::MIN + damage as i64 {
        stats.current_hp = stats.current_hp - damage as i64;
    } else {
        stats.current_hp = i64::MIN;
    }
}

/// Experience awarded for killing a monster of this level.
pub open spec fn exp_gain_of(level: u32) -> u64 {
    (level as int * MONSTER_EXP_MULTIPLICATION_FACTOR as int) as u64
}

pub open spec fn sat_add_u64(a: u64, b: u64) -> u64 {
    if a + b > u64::MAX {
        u64::MAX
    } else {
        (a + b) as u64
    }
}

/// If the defender just died, credit the attacker's working copy and the
/// snapshot map with the kill rewards: the defender's level times the
/// experience factor, and the defender's full gold.
pub fn check_and_apply_gains(
    combat_attacker_stats: &mut CombatAttackerStats,
    attacker_id: u128,
    attacker_stats: &mut Stats,
    attacker_inventory: &mut Inventory,
    defender_stats: &Stats,
    defender_inventory: &Inventory,
) -> (r: (u64, u64))
    requires
        old(combat_attacker_stats).wf(),
    ensures
        final(combat_attacker_stats).wf(),
        defender_stats.current_hp <= 0 ==> {
            &&& r.0 == exp_gain_of(defender_stats.level)
            &&& r.1 == defender_inventory.gold
            &&& *final(attacker_stats) == (Stats {
                exp: sat_add_u64(old(attacker_stats).exp, r.0),
                update_available: true,
                ..*old(attacker_stats)
            })
            &&& *final(attacker_inventory) == (Inventory {
                gold: sat_add_u64(old(attacker_inventory).gold, r.1),
                ..*old(attacker_inventory)
            })
            &&& final(combat_attacker_stats)@ == old(combat_attacker_stats)@.insert(
                attacker_id,
                AttackerSnapshot {
                    stats: *final(attacker_stats),
                    inventory: *final(attacker_inventory),
                },
            )
        },
        defender_stats.current_hp > 0 ==> {
            &&& r == (0u64, 0u64)
            &&& *final(attacker_stats) == *old(attacker_stats)
            &&& *final(attacker_inventory) == *old(attacker_inventory)
            &&& final(combat_attacker_stats)@ == old(combat_attacker_stats)@
        },
{
    if defender_stats.current_hp <= 0 {
        let exp_gain = (defender_stats.level as u64) * MONSTER_EXP_MULTIPLICATION_FACTOR;
        attacker_stats.exp = attacker_stats.exp.saturating_add(exp_gain);
        attacker_stats.update_available = true;
        let gold_gain = defender_inventory.gold;
        attacker_inventory.gold = attacker_inventory.gold.saturating_add(gold_gain);
        combat_attacker_stats.insert(
            attacker_id,
            AttackerSnapshot { stats: *attacker_stats, inventory: *attacker_inventory },
        );
        return (exp_gain, gold_gain);
    }
    (0, 0)
}

/// How one resolved kill (or non-kill) leaves the snapshot map, with the
/// rewards handed out.
pub open spec fn gains_update(
    sm: Map<u128, AttackerSnapshot>,
    attacker_id: u128,
    snap: AttackerSnapshot,
    defender_stats: Stats,
    defender_gold: u64,
) -> (Map<u128, AttackerSnapshot>, u64, u64) {
    if defender_stats.current_hp <= 0 {
        let exp_gain = exp_gain_of(defender_stats.level);
        let new_snap = AttackerSnapshot {
            stats: Stats {
                exp: sat_add_u64(snap.stats.exp, exp_gain),
                update_available: true,
                ..snap.stats
            },
            inventory: Inventory {
                gold: sat_add_u64(snap.inventory.gold, defender_gold),
                ..snap.inventory
            },
        };
        (sm.insert(attacker_id, new_snap), exp_gain, defender_gold)
    } else {
        (sm, 0u64, 0u64)
    }
}

/// How resolution treats one entity as potential defender: skipped when
/// already dead, not attacked, or attacked by a dead attacker; otherwise
/// damaged once, with kill rewards and a notification.
pub open spec fn resolve_step(
    e: Entity,
    pm: Map<u128, AttackerV>,
    sm: Map<u128, AttackerSnapshot>,
    dmg: Map<u128, u32>,
) -> (Entity, Map<u128, AttackerSnapshot>, Option<NotificationV>) {
    let d = defender_of(e);
    if e.stats.current_hp <= 0 {
        (e, sm, None)
    } else if !pm.contains_key(d.id) {
        (e, sm, None)
    } else {
        let a = pm[d.id];
        let snap = sm[a.id];
        if snap.stats.current_hp <= 0 {
            (e, sm, None)
        } else {
            let damage = dmg[d.id];
            let damaged_stats = Stats { current_hp: hp_minus(e.stats.current_hp, damage), ..e.stats };
            let g = if e.details.is_monster() {
                gains_update(sm, a.id, snap, damaged_stats, e.inventory.gold)
            } else {
                (sm, 0u64, 0u64)
            };
            let final_stats = if e.details.is_player() {
                Stats { update_available: true, ..damaged_stats }
            } else {
                damaged_stats
            };
            let n = NotificationV {
                defender: d,
                attacker: a,
                damage: damage,
                remaining_hp: damaged_stats.current_hp,
                exp_gain: g.1,
                gold_gain: g.2,
            };
            (Entity { stats: final_stats, ..e }, g.0, Some(n))
        }
    }
}

/// The whole resolution pass over `es`, front to back: the entities as they
/// are left, the snapshot map with rewards written back, and the
/// notifications in entity order.
pub open spec fn resolve_tick(
    es: Seq<Entity>,
    pm: Map<u128, AttackerV>,
    sm: Map<u128, AttackerSnapshot>,
    dmg: Map<u128, u32>,
) -> (Seq<Entity>, Map<u128, AttackerSnapshot>, Seq<NotificationV>)
    decreases es.len(),
{
    if es.len() == 0 {
        (Seq::empty(), sm, Seq::empty())
    } else {
        let s = resolve_step(es[0], pm, sm, dmg);
        let rest = resolve_tick(es.drop_first(), pm, s.1, dmg);
        (
            seq![s.0] + rest.0,
            rest.1,
            match s.2 {
                Some(n) => seq![n] + rest.2,
                None => rest.2,
            },
        )
    }
}

pub proof fn lemma_resolve_tick_push(
    es: Seq<Entity>,
    pm: Map<u128, AttackerV>,
    sm: Map<u128, AttackerSnapshot>,
    dmg: Map<u128, u32>,
    e: Entity,
)
    ensures
        ({
            let r = resolve_tick(es, pm, sm, dmg);
            let s = resolve_step(e, pm, r.1, dmg);
            &&& resolve_tick(es.push(e), pm, sm, dmg).0 == r.0.push(s.0)
            &&& resolve_tick(es.push(e), pm, sm, dmg).1 == s.1
            &&& resolve_tick(es.push(e), pm, sm, dmg).2 == (match s.2 {
                Some(n) => r.2.push(n),
                None => r.2,
            })
        }),
    decreases es.len(),
{
    reveal_with_fuel(resolve_tick, 3);
    let r = resolve_tick(es, pm, sm, dmg);
    let s = resolve_step(e, pm, r.1, dmg);
    if es.len() == 0 {
        assert(es.push(e)[0] == e);
        assert(es.push(e).drop_first() =~= Seq::<Entity>::empty());
        assert(r.1 == sm);
        assert(resolve_tick(es.push(e), pm, sm, dmg).0 =~= r.0.push(s.0));
        match s.2 {
            Some(n) => {
                assert(resolve_tick(es.push(e), pm, sm, dmg).2 =~= r.2.push(n));
            },
            None => {},
        }
    } else {
        assert(es.push(e)[0] == es[0]);
        assert(es.push(e).drop_first() =~= es.drop_first().push(e));
        let s0 = resolve_step(es[0], pm, sm, dmg);
        let r1 = resolve_tick(es.drop_first(), pm, s0.1, dmg);
        lemma_resolve_tick_push(es.drop_first(), pm, s0.1, dmg, e);
        let s1 = resolve_step(e, pm, r1.1, dmg);
        assert(r.1 == r1.1);
        assert(resolve_tick(es.push(e), pm, sm, dmg).0 =~= r.0.push(s1.0));
        match s1.2 {
            Some(n) => {
                assert(resolve_tick(es.push(e), pm, sm, dmg).2 =~= r.2.push(n));
            },
            None => {},
        }
    }
}

/// What resolution demands of its inputs: every recorded pairing has a
/// snapshot for its attacker (detection wrote both together) and a damage
/// roll for its defender (the caller evaluated the external damage formula
/// on every pairing).
pub open spec fn resolve_inputs_ok(
    pm: Map<u128, AttackerV>,
    sm: Map<u128, AttackerSnapshot>,
    dmg: Map<u128, u32>,
) -> bool {
    forall|k: u128|
        #[trigger] pm.contains_key(k) ==> sm.contains_key(pm[k].id) && dmg.contains_key(k)
}

/// The notifications as ghost values.
pub open spec fn notifs_view(s: Seq<CombatNotification>) -> Seq<NotificationV> {
    s.map_values(|n: CombatNotification| n@)
}

/// Resolve every pairing recorded this tick: damage each living defender
/// once, credit kill rewards to the attacker's snapshot, and return one
/// notification per resolved pairing, in entity order. The pairing map is
/// cleared before returning; the snapshot map stays for gain application.
#[verifier::loop_isolation(false)]
pub fn resolve_combat(
    world: &mut Vec<Entity>,
    combat_parties: &mut CombatParties,
    combat_attacker_stats: &mut CombatAttackerStats,
    damage_rolls: &DamageRolls,
) -> (notifications: Vec<CombatNotification>)
    requires
        old(combat_parties).wf(),
        old(combat_attacker_stats).wf(),
        damage_rolls.wf(),
        resolve_inputs_ok(
            parties_view(old(combat_parties)@),
            old(combat_attacker_stats)@,
            damage_rolls@,
        ),
    ensures
        final(world)@ == resolve_tick(
            old(world)@,
            parties_view(old(combat_parties)@),
            old(combat_attacker_stats)@,
            damage_rolls@,
        ).0,
        final(combat_attacker_stats)@ == resolve_tick(
            old(world)@,
            parties_view(old(combat_parties)@),
            old(combat_attacker_stats)@,
            damage_rolls@,
        ).1,
        notifs_view(notifications@) == resolve_tick(
            old(world)@,
            parties_view(old(combat_parties)@),
            old(combat_attacker_stats)@,
            damage_rolls@,
        ).2,
        final(combat_parties)@ == Map::<u128, Attacker>::empty(),
        final(combat_parties).wf(),
        final(combat_attacker_stats).wf(),
{
    let ghost es0 = world@;
    let ghost pm = parties_view(combat_parties@);
    let ghost sm0 = combat_attacker_stats@;
    let ghost dm = damage_rolls@;
    let mut out: Vec<Entity> = Vec::new();
    let mut notifications: Vec<CombatNotification> = Vec::new();
    let mut i: usize = 0;
    proof {
        assert(es0.take(0) =~= Seq::<Entity>::empty());
        assert(resolve_tick(es0.take(0), pm, sm0, dm).0 =~= out@);
        assert(resolve_tick(es0.take(0), pm, sm0, dm).2 =~= notifs_view(notifications@));
    }
    while i < world.len()
        invariant
            i <= es0.len(),
            world@ == es0,
            combat_parties.wf(),
            combat_attacker_stats.wf(),
            parties_view(combat_parties@) == pm,
            out@ == resolve_tick(es0.take(i as int), pm, sm0, dm).0,
            combat_attacker_stats@ == resolve_tick(es0.take(i as int), pm, sm0, dm).1,
            notifs_view(notifications@) == resolve_tick(es0.take(i as int), pm, sm0, dm).2,
            forall|k: u128|
                sm0.contains_key(k) ==> #[trigger] combat_attacker_stats@.contains_key(k),
        decreases es0.len() - i,
    {
        proof {
            assert(es0.take(i as int + 1) =~= es0.take(i as int).push(es0[i as int]));
            lemma_resolve_tick_push(es0.take(i as int), pm, sm0, dm, es0[i as int]);
        }
        let ghost sm_here = combat_attacker_stats@;
        let ghost step = resolve_step(es0[i as int], pm, sm_here, dm);
        let mut entity = world[i].clone();
        let (defender, defender_is_monster) = match &entity.details {
            EntityDetails::Player(player_details) => (
                Defender {
                    id: player_details.id,
                    name: player_details.player_name.clone(),
                    client_addr: player_details.client_addr.clone(),
                    currently_online: player_details.currently_online,
                },
                false,
            ),
            EntityDetails::Monster(monster_details) => (
                Defender {
                    id: monster_details.id,
                    name: monster_details.monster_type.clone(),
                    client_addr: String::new(),
                    currently_online: true,
                },
                true,
            ),
        };
        assert(defender@ == defender_of(es0[i as int]));
        if entity.stats.current_hp <= 0 {
            // Skip combat if the defender is already dead: possible when
            // several queued updates landed before this tick.
            out.push(entity);
        } else if combat_parties.contains_key(defender.id) {
            let attacker = match combat_parties.get(defender.id) {
                Some(a) => a.clone(),
                None => unreached(),
            };
            assert(attacker@ == pm[defender@.id]);
            proof {
                assert(pm.contains_key(defender.id));
                assert(pm[defender.id].id == attacker.id);
                assert(combat_attacker_stats@.contains_key(attacker.id));
                assert(dm.contains_key(defender.id));
            }
            let snapshot = match combat_attacker_stats.get(attacker.id) {
                Some(s) => *s,
                None => unreached(),
            };
            if snapshot.stats.current_hp <= 0 {
                // Skip combat if the attacker is already dead.
                out.push(entity);
            } else {
                let damage = match damage_rolls.get(defender.id) {
                    Some(d) => *d,
                    None => unreached(),
                };
                apply_damage(&mut entity.stats, damage);
                let mut attacker_stats = snapshot.stats;
                let mut attacker_inventory = snapshot.inventory;
                let mut exp_gain: u64 = 0;
                let mut gold_gain: u64 = 0;
                if defender_is_monster {
                    let gains = check_and_apply_gains(
                        combat_attacker_stats,
                        attacker.id,
                        &mut attacker_stats,
                        &mut attacker_inventory,
                        &entity.stats,
                        &entity.inventory,
                    );
                    exp_gain = gains.0;
                    gold_gain = gains.1;
                }
                let remaining_hp = entity.stats.current_hp;
                if let EntityDetails::Player(_) = &entity.details {
                    // Only player state deltas are pushed to clients.
                    entity.stats.update_available = true;
                }
                let notification = CombatNotification {
                    defender: defender,
                    attacker: attacker,
                    damage: damage,
                    remaining_hp: remaining_hp,
                    exp_gain: exp_gain,
                    gold_gain: gold_gain,
                };
                assert(entity == step.0);
                assert(notification@ == step.2->0);
                out.push(entity);
                let ghost ns = notifications@;
                notifications.push(notification);
                proof {
                    assert(notifs_view(notifications@) =~= notifs_view(ns).push(notification@));
                }
            }
        } else {
            assert(!pm.contains_key(defender_of(es0[i as int]).id));
            out.push(entity);
        }
        i += 1;
    }
    proof {
        assert(es0.take(es0.len() as int) =~= es0);
    }
    combat_parties.clear();
    proof {
        crate::combat::lemma_parties_view_empty();
    }
    *world = out;
    notifications
}

/// How gain application leaves one entity: a player with a dirty snapshot
/// takes over the snapshot's experience and gold, with both components
/// flagged for the network sync; everything else is untouched.
pub open spec fn gain_step(e: Entity, sm: Map<u128, AttackerSnapshot>) -> Entity {
    if e.details.is_player() && sm.contains_key(e.id()) && sm[e.id()].stats.update_available {
        Entity {
            stats: Stats { exp: sm[e.id()].stats.exp, update_available: true, ..e.stats },
            inventory: Inventory {
                gold: sm[e.id()].inventory.gold,
                update_available: true,
                ..e.inventory
            },
            ..e
        }
    } else {
        e
    }
}

/// Flush the rewards accumulated in the snapshot map onto the attacking
/// players' live components, then clear the map: nothing survives into the
/// next tick.
#[verifier::loop_isolation(false)]
pub fn apply_combat_gains(world: &mut Vec<Entity>, combat_attacker_stats: &mut CombatAttackerStats)
    requires
        old(combat_attacker_stats).wf(),
    ensures
        final(world)@.len() == old(world)@.len(),
        forall|i: int|
            0 <= i < old(world)@.len() ==> final(world)@[i] == gain_step(
                old(world)@[i],
                old(combat_attacker_stats)@,
            ),
        final(combat_attacker_stats)@ == Map::<u128, AttackerSnapshot>::empty(),
        final(combat_attacker_stats).wf(),
{
    let ghost es0 = world@;
    let ghost sm = combat_attacker_stats@;
    let mut out: Vec<Entity> = Vec::new();
    let mut i: usize = 0;
    while i < world.len()
        invariant
            i <= es0.len(),
            world@ == es0,
            combat_attacker_stats@ == sm,
            combat_attacker_stats.wf(),
            out@.len() == i,
            forall|j: int| 0 <= j < i ==> out@[j] == gain_step(es0[j], sm),
        decreases es0.len() - i,
    {
        let mut entity = world[i].clone();
        if let EntityDetails::Player(player_details) = &entity.details {
            let player_id = player_details.id;
            if combat_attacker_stats.contains_key(player_id) {
                let snapshot = match combat_attacker_stats.get(player_id) {
                    Some(s) => *s,
                    None => unreached(),
                };
                if snapshot.stats.update_available {
                    entity.stats.exp = snapshot.stats.exp;
                    entity.inventory.gold = snapshot.inventory.gold;
                    entity.stats.update_available = true;
                    entity.inventory.update_available = true;
                }
            }
        }
        out.push(entity);
        i += 1;
    }
    combat_attacker_stats.clear();
    *world = out;
}

} // verus!
