//! The monster catalog and the spawner that instantiates its templates.
//!
//! The catalog maps a monster type name to a template. At startup the
//! spawner clones a template for every configured coordinate; a runtime
//! respawn clones one, at one coordinate chosen at random among the type's
//! coordinates on the map. Every clone gets a freshly generated id and a
//! zeroed velocity and is handed back for insertion into the world.

use crate::assoc::{map_of, str_entries, StrMap};
use crate::components::{
    DisplayDetails, Entity, EntityDetails, Inventory, MonsterDetails, Position, Stats,
};
use rand::seq::SliceRandom;
use vstd::prelude::*;

verus! {

/// One spawnable coordinate; the map is implied by the table entry it sits
/// under.
#[derive(Clone, Copy, PartialEq, Eq, Structural, Debug)]
pub struct PositionWithoutMap {
    pub x: u32,
    pub y: u32,
}

/// Where one monster type may spawn on one map.
pub struct MonsterSpawns {
    pub monster_type: String,
    pub spawn_positions: Vec<PositionWithoutMap>,
}

/// Every spawn group of one map.
pub struct Spawns {
    pub monsters: Vec<MonsterSpawns>,
}

/// The spawn table: map name to that map's spawn groups.
pub type AllSpawnsMap = StrMap<Spawns>;

/// A monster template, as the loader deserialized it.
pub struct Monster {
    pub monster_details: MonsterDetails,
    pub display_details: DisplayDetails,
    pub position: Position,
    pub stats: Stats,
    pub inventory: Inventory,
}

impl Clone for Monster {
    fn clone(&self) -> (r: Self)
        ensures
            r == *self,
    {
        Monster {
            monster_details: self.monster_details.clone(),
            display_details: self.display_details,
            position: self.position.clone(),
            stats: self.stats,
            inventory: self.inventory,
        }
    }
}

/// The monster catalog, keyed by type name.
pub type AllMonsterDefinitions = StrMap<Monster>;

/// Relies on uuid::Uuid::new_v4 (and as_u128, which repacks the bytes): a
/// freshly generated random identifier. Nothing is promised of the value;
/// two calls may return anything.
#[verifier::external_body]
fn new_entity_id() -> u128 {
    uuid::Uuid::new_v4().as_u128()
}

/// Relies on rand's SliceRandom::choose: `None` exactly on an empty slice,
/// otherwise one of its elements, picked by the thread-local generator.
#[verifier::external_body]
fn choose_spawn_position(positions: &Vec<PositionWithoutMap>) -> (r: Option<PositionWithoutMap>)
    ensures
        r is Some <==> positions@.len() > 0,
        r is Some ==> exists|i: int| 0 <= i < positions@.len() && positions@[i] == r->0,
{
    positions.choose(&mut rand::thread_rng()).copied()
}

/// Build the catalog from the deserialized templates, each under the name
/// the loader derived for it; a later entry for the same name wins.
pub fn initialise_all_monster_definitions(definitions: Vec<(String, Monster)>) -> (r:
    AllMonsterDefinitions)
    ensures
        r@ == map_of(str_entries(definitions@)),
        r.wf(),
{
    let ghost s0 = definitions@;
    let mut definitions = definitions;
    let mut all_monster_definitions: AllMonsterDefinitions = StrMap::new();
    let ghost mut i: int = 0;
    proof {
        assert(s0.take(0) =~= Seq::<(String, Monster)>::empty());
        assert(str_entries(s0.take(0)) =~= Seq::<(Seq<char>, Monster)>::empty());
        assert(definitions@ =~= s0.skip(0));
    }
    while definitions.len() > 0
        invariant
            0 <= i <= s0.len(),
            definitions@ == s0.skip(i),
            all_monster_definitions@ == map_of(str_entries(s0.take(i))),
            all_monster_definitions.wf(),
        decreases definitions@.len(),
    {
        let entry = definitions.remove(0);
        proof {
            assert(s0.skip(i)[0] == s0[i]);
            assert(s0.skip(i).remove(0) =~= s0.skip(i + 1));
        }
        all_monster_definitions.insert(entry.0, entry.1);
        proof {
            let prefix = str_entries(s0.take(i));
            let pair = (s0[i].0@, s0[i].1);
            assert(str_entries(s0.take(i + 1)) =~= prefix.push(pair));
            assert(prefix.push(pair).drop_last() =~= prefix);
            i = i + 1;
        }
    }
    proof {
        assert(s0.take(s0.len() as int) =~= s0);
    }
    all_monster_definitions
}

/// The position a monster spawned at coordinate `p` of map `map` gets: no
/// pending update, no velocity.
pub open spec fn spawned_position(map: String, p: PositionWithoutMap) -> Position {
    Position {
        update_available: false,
        pos_x: p.x,
        pos_y: p.y,
        current_map: map,
        velocity_x: 0,
        velocity_y: 0,
    }
}

/// Entity `e` is a spawn of `template` at coordinate `p` of `map`: the
/// template's components, the configured position as both current and spawn
/// position, zero velocity. Its id is whatever the generator produced.
pub open spec fn spawned_matches(
    e: Entity,
    template: Monster,
    map: String,
    p: PositionWithoutMap,
) -> bool {
    &&& match e.details {
        EntityDetails::Monster(md) => md.monster_type == template.monster_details.monster_type
            && md.spawn_position == spawned_position(map, p),
        EntityDetails::Player(_) => false,
    }
    &&& e.position == spawned_position(map, p)
    &&& e.display_details == template.display_details
    &&& e.stats == template.stats
    &&& e.inventory == template.inventory
}

/// `s` is one spawn of `template` for each coordinate of `ps`, in order.
pub open spec fn spawned_for_positions(
    s: Seq<Entity>,
    template: Monster,
    map: String,
    ps: Seq<PositionWithoutMap>,
) -> bool {
    &&& s.len() == ps.len()
    &&& forall|i: int| 0 <= i < ps.len() ==> spawned_matches(s[i], template, map, ps[i])
}

/// `s` is exactly the spawns of every group of `groups`, in table order.
pub open spec fn spawned_for_groups(
    s: Seq<Entity>,
    groups: Seq<MonsterSpawns>,
    map: String,
    defs: Map<Seq<char>, Monster>,
) -> bool
    decreases groups.len(),
{
    if groups.len() == 0 {
        s.len() == 0
    } else {
        let n = groups[0].spawn_positions@.len() as int;
        &&& s.len() >= n
        &&& spawned_for_positions(
            s.take(n),
            defs[groups[0].monster_type@],
            map,
            groups[0].spawn_positions@,
        )
        &&& spawned_for_groups(s.skip(n), groups.drop_first(), map, defs)
    }
}

/// `s` is exactly the spawns of every map entry of `entries`, in table
/// order.
pub open spec fn spawned_for_maps(
    s: Seq<Entity>,
    entries: Seq<(String, Spawns)>,
    defs: Map<Seq<char>, Monster>,
) -> bool
    decreases entries.len(),
{
    if entries.len() == 0 {
        s.len() == 0
    } else {
        let n = group_total(entries[0].1.monsters@) as int;
        &&& s.len() >= n
        &&& spawned_for_groups(s.take(n), entries[0].1.monsters@, entries[0].0, defs)
        &&& spawned_for_maps(s.skip(n), entries.drop_first(), defs)
    }
}

/// How many spawns a map's groups call for in all.
pub open spec fn group_total(groups: Seq<MonsterSpawns>) -> nat
    decreases groups.len(),
{
    if groups.len() == 0 {
        0nat
    } else {
        groups[0].spawn_positions@.len() + group_total(groups.drop_first())
    }
}

pub proof fn lemma_spawned_for_groups_len(
    s: Seq<Entity>,
    groups: Seq<MonsterSpawns>,
    map: String,
    defs: Map<Seq<char>, Monster>,
)
    requires
        spawned_for_groups(s, groups, map, defs),
    ensures
        s.len() == group_total(groups),
    decreases groups.len(),
{
    if groups.len() > 0 {
        let n = groups[0].spawn_positions@.len() as int;
        lemma_spawned_for_groups_len(s.skip(n), groups.drop_first(), map, defs);
    }
}

pub proof fn lemma_groups_append(
    s1: Seq<Entity>,
    s2: Seq<Entity>,
    groups: Seq<MonsterSpawns>,
    g: MonsterSpawns,
    map: String,
    defs: Map<Seq<char>, Monster>,
)
    requires
        spawned_for_groups(s1, groups, map, defs),
        spawned_for_positions(s2, defs[g.monster_type@], map, g.spawn_positions@),
    ensures
        spawned_for_groups(s1 + s2, groups.push(g), map, defs),
    decreases groups.len(),
{
    reveal_with_fuel(spawned_for_groups, 3);
    let n = g.spawn_positions@.len() as int;
    if groups.len() == 0 {
        assert(s1.len() == 0);
        assert(groups.push(g)[0] == g);
        assert((s1 + s2).take(n) =~= s2);
        assert((s1 + s2).skip(n) =~= Seq::<Entity>::empty());
        assert(groups.push(g).drop_first() =~= Seq::<MonsterSpawns>::empty());
    } else {
        let n0 = groups[0].spawn_positions@.len() as int;
        assert(groups.push(g)[0] == groups[0]);
        assert((s1 + s2).take(n0) =~= s1.take(n0));
        assert((s1 + s2).skip(n0) =~= s1.skip(n0) + s2);
        assert(groups.push(g).drop_first() =~= groups.drop_first().push(g));
        lemma_groups_append(s1.skip(n0), s2, groups.drop_first(), g, map, defs);
    }
}

pub proof fn lemma_maps_append(
    s1: Seq<Entity>,
    s2: Seq<Entity>,
    entries: Seq<(String, Spawns)>,
    entry: (String, Spawns),
    defs: Map<Seq<char>, Monster>,
)
    requires
        spawned_for_maps(s1, entries, defs),
        spawned_for_groups(s2, entry.1.monsters@, entry.0, defs),
    ensures
        spawned_for_maps(s1 + s2, entries.push(entry), defs),
    decreases entries.len(),
{
    reveal_with_fuel(spawned_for_maps, 3);
    let n = group_total(entry.1.monsters@) as int;
    lemma_spawned_for_groups_len(s2, entry.1.monsters@, entry.0, defs);
    if entries.len() == 0 {
        assert(s1.len() == 0);
        assert(entries.push(entry)[0] == entry);
        assert((s1 + s2).take(n) =~= s2);
        assert((s1 + s2).skip(n) =~= Seq::<Entity>::empty());
        assert(entries.push(entry).drop_first() =~= Seq::<(String, Spawns)>::empty());
    } else {
        let n0 = group_total(entries[0].1.monsters@) as int;
        assert(entries.push(entry)[0] == entries[0]);
        assert((s1 + s2).take(n0) =~= s1.take(n0));
        assert((s1 + s2).skip(n0) =~= s1.skip(n0) + s2);
        assert(entries.push(entry).drop_first() =~= entries.drop_first().push(entry));
        lemma_maps_append(s1.skip(n0), s2, entries.drop_first(), entry, defs);
    }
}

/// Every monster type the spawn table names exists in the catalog; anything
/// else is a configuration/data mismatch the server must not start from.
pub open spec fn spawn_types_known(
    entries: Seq<(String, Spawns)>,
    defs: Map<Seq<char>, Monster>,
) -> bool {
    forall|i: int, j: int|
        0 <= i < entries.len() && 0 <= j < entries[i].1.monsters@.len()
            ==> defs.contains_key(#[trigger] entries[i].1.monsters@[j].monster_type@)
}

/// Spawn one monster per coordinate of `positions`, cloned from `template`.
#[verifier::loop_isolation(false)]
fn spawn_group(
    out: &mut Vec<Entity>,
    template: &Monster,
    map: &String,
    positions: &Vec<PositionWithoutMap>,
)
    ensures
        final(out)@.len() == old(out)@.len() + positions@.len(),
        final(out)@.take(old(out)@.len() as int) == old(out)@,
        spawned_for_positions(
            final(out)@.skip(old(out)@.len() as int),
            *template,
            *map,
            positions@,
        ),
{
    let ghost len0 = out@.len() as int;
    let ghost out0 = out@;
    let mut i: usize = 0;
    while i < positions.len()
        invariant
            i <= positions@.len(),
            out@.len() == len0 + i,
            out@.take(len0) == out0,
            forall|j: int|
                0 <= j < i ==> spawned_matches(out@[len0 + j], *template, *map, positions@[j]),
        decreases positions@.len() - i,
    {
        let ghost out_before = out@;
        let spawn_position = positions[i];
        let position = Position {
            update_available: false,
            pos_x: spawn_position.x,
            pos_y: spawn_position.y,
            current_map: map.clone(),
            velocity_x: 0,
            velocity_y: 0,
        };
        let mut monster_details = template.monster_details.clone();
        monster_details.id = new_entity_id();
        monster_details.spawn_position = position.clone();
        let entity = Entity {
            details: EntityDetails::Monster(monster_details),
            display_details: template.display_details,
            position: position,
            stats: template.stats,
            inventory: template.inventory,
        };
        out.push(entity);
        proof {
            assert(out@.take(len0) =~= out_before.take(len0));
            assert(spawned_matches(out@[len0 + i], *template, *map, positions@[i as int]));
        }
        i += 1;
    }
    proof {
        assert(out@.skip(len0).len() == positions@.len());
        assert(forall|j: int|
            0 <= j < positions@.len() ==> out@.skip(len0)[j] == out@[len0 + j]);
    }
}

/// Spawn every group of one map.
#[verifier::loop_isolation(false)]
fn spawn_map_groups(
    out: &mut Vec<Entity>,
    groups: &Vec<MonsterSpawns>,
    map: &String,
    all_monster_definitions: &AllMonsterDefinitions,
)
    requires
        all_monster_definitions.wf(),
        forall|j: int|
            0 <= j < groups@.len() ==> all_monster_definitions@.contains_key(
                #[trigger] groups@[j].monster_type@,
            ),
    ensures
        final(out)@.len() >= old(out)@.len(),
        final(out)@.take(old(out)@.len() as int) == old(out)@,
        spawned_for_groups(
            final(out)@.skip(old(out)@.len() as int),
            groups@,
            *map,
            all_monster_definitions@,
        ),
{
    let ghost len0 = out@.len() as int;
    let ghost out0 = out@;
    let ghost defs = all_monster_definitions@;
    proof {
        assert(out@.skip(len0) =~= Seq::<Entity>::empty());
        assert(groups@.take(0) =~= Seq::<MonsterSpawns>::empty());
    }
    let mut i: usize = 0;
    while i < groups.len()
        invariant
            i <= groups@.len(),
            out@.len() >= len0,
            out@.take(len0) == out0,
            spawned_for_groups(out@.skip(len0), groups@.take(i as int), *map, defs),
        decreases groups@.len() - i,
    {
        let group = &groups[i];
        let template = match all_monster_definitions.get(&group.monster_type) {
            Some(t) => t,
            None => unreached(),
        };
        let ghost chunk0 = out@.skip(len0);
        let ghost mid = out@.len() as int;
        spawn_group(out, template, map, &group.spawn_positions);
        proof {
            assert(out@.take(len0) =~= out@.take(mid).take(len0));
            let added = out@.skip(mid);
            assert(out@.skip(len0) =~= chunk0 + added);
            assert(groups@.take(i as int + 1) =~= groups@.take(i as int).push(groups@[i as int]));
            lemma_groups_append(chunk0, added, groups@.take(i as int), groups@[i as int], *map, defs);
        }
        i += 1;
    }
    proof {
        assert(groups@.take(groups@.len() as int) =~= groups@);
    }
}

/// Populate the world at startup: for every map of the spawn table, for
/// every listed monster type, one monster per configured coordinate, cloned
/// from the catalog template with a fresh id and zero velocity.
#[verifier::loop_isolation(false)]
pub fn spawn_initial_monsters(
    world: &mut Vec<Entity>,
    all_monster_definitions: &AllMonsterDefinitions,
    all_spawns_map: &AllSpawnsMap,
)
    requires
        all_monster_definitions.wf(),
        spawn_types_known(all_spawns_map.entries@, all_monster_definitions@),
    ensures
        final(world)@.len() >= old(world)@.len(),
        final(world)@.take(old(world)@.len() as int) == old(world)@,
        spawned_for_maps(
            final(world)@.skip(old(world)@.len() as int),
            all_spawns_map.entries@,
            all_monster_definitions@,
        ),
{
    let ghost len0 = world@.len() as int;
    let ghost world0 = world@;
    let ghost defs = all_monster_definitions@;
    let ghost entries = all_spawns_map.entries@;
    proof {
        assert(world@.skip(len0) =~= Seq::<Entity>::empty());
        assert(entries.take(0) =~= Seq::<(String, Spawns)>::empty());
    }
    let mut i: usize = 0;
    while i < all_spawns_map.len()
        invariant
            i <= entries.len(),
            world@.len() >= len0,
            world@.take(len0) == world0,
            spawned_for_maps(world@.skip(len0), entries.take(i as int), defs),
        decreases entries.len() - i,
    {
        let entry = all_spawns_map.entry_at(i);
        let ghost chunk0 = world@.skip(len0);
        let ghost mid = world@.len() as int;
        spawn_map_groups(world, &entry.1.monsters, &entry.0, all_monster_definitions);
        proof {
            assert(world@.take(len0) =~= world@.take(mid).take(len0));
            let added = world@.skip(mid);
            assert(world@.skip(len0) =~= chunk0 + added);
            assert(entries.take(i as int + 1) =~= entries.take(i as int).push(entries[i as int]));
            lemma_maps_append(chunk0, added, entries.take(i as int), entries[i as int], defs);
        }
        i += 1;
    }
    proof {
        assert(entries.take(entries.len() as int) =~= entries);
    }
}
/// Every coordinate configured for `monster_type` on one map: the
/// concatenation of each matching group's spawn positions, in table order.
pub open spec fn matching_positions(
    groups: Seq<MonsterSpawns>,
    monster_type: Seq<char>,
) -> Seq<PositionWithoutMap>
    decreases groups.len(),
{
    if groups.len() == 0 {
        Seq::empty()
    } else if groups[0].monster_type@ == monster_type {
        groups[0].spawn_positions@ + matching_positions(groups.drop_first(), monster_type)
    } else {
        matching_positions(groups.drop_first(), monster_type)
    }
}

pub proof fn lemma_matching_positions_push(
    groups: Seq<MonsterSpawns>,
    g: MonsterSpawns,
    monster_type: Seq<char>,
)
    ensures
        matching_positions(groups.push(g), monster_type) == matching_positions(
            groups,
            monster_type,
        ) + (if g.monster_type@ == monster_type {
            g.spawn_positions@
        } else {
            Seq::<PositionWithoutMap>::empty()
        }),
    decreases groups.len(),
{
    reveal_with_fuel(matching_positions, 3);
    let tail: Seq<PositionWithoutMap> = if g.monster_type@ == monster_type {
        g.spawn_positions@
    } else {
        Seq::empty()
    };
    if groups.len() == 0 {
        assert(groups.push(g)[0] == g);
        assert(groups.push(g).drop_first() =~= Seq::<MonsterSpawns>::empty());
        assert(matching_positions(groups.push(g), monster_type) =~= matching_positions(
            groups,
            monster_type,
        ) + tail);
    } else {
        assert(groups.push(g)[0] == groups[0]);
        assert(groups.push(g).drop_first() =~= groups.drop_first().push(g));
        lemma_matching_positions_push(groups.drop_first(), g, monster_type);
        if groups[0].monster_type@ == monster_type {
            assert(groups[0].spawn_positions@ + (matching_positions(
                groups.drop_first(),
                monster_type,
            ) + tail) =~= (groups[0].spawn_positions@ + matching_positions(
                groups.drop_first(),
                monster_type,
            )) + tail);
        }
    }
}

/// Spawn one monster of `monster_type` on `map` for a runtime respawn: a
/// single clone of the catalog template, at one coordinate chosen uniformly
/// at random among all of that type's configured spawn coordinates on the
/// map, appended to the command batch. A map without a spawn entry, a type
/// missing from the catalog, or a type with no configured coordinate on the
/// map is a configuration error the caller must rule out.
#[verifier::loop_isolation(false)]
pub fn spawn_single_monster(
    all_monster_definitions: &AllMonsterDefinitions,
    all_spawns_map: &AllSpawnsMap,
    map: &String,
    monster_type: &String,
    commands: &mut Vec<Entity>,
)
    requires
        all_monster_definitions.wf(),
        all_spawns_map.wf(),
        all_monster_definitions@.contains_key(monster_type@),
        all_spawns_map@.contains_key(map@),
        matching_positions(all_spawns_map@[map@].monsters@, monster_type@).len() > 0,
    ensures
        final(commands)@.len() == old(commands)@.len() + 1,
        final(commands)@.take(old(commands)@.len() as int) == old(commands)@,
        exists|k: int|
            0 <= k < matching_positions(all_spawns_map@[map@].monsters@, monster_type@).len()
                && spawned_matches(
                final(commands)@.last(),
                all_monster_definitions@[monster_type@],
                *map,
                #[trigger] matching_positions(all_spawns_map@[map@].monsters@, monster_type@)[k],
            ),
{
    let ghost commands0 = commands@;
    let template = match all_monster_definitions.get(monster_type) {
        Some(t) => t,
        None => unreached(),
    };
    let all_spawn_positions = match all_spawns_map.get(map) {
        Some(s) => s,
        None => unreached(),
    };
    let ghost groups = all_spawn_positions.monsters@;
    // Gather the type's coordinates from every matching group.
    let mut candidates: Vec<PositionWithoutMap> = Vec::new();
    proof {
        assert(groups.take(0) =~= Seq::<MonsterSpawns>::empty());
        assert(candidates@ =~= matching_positions(groups.take(0), monster_type@));
    }
    let mut i: usize = 0;
    while i < all_spawn_positions.monsters.len()
        invariant
            i <= groups.len(),
            candidates@ == matching_positions(groups.take(i as int), monster_type@),
        decreases groups.len() - i,
    {
        let group = &all_spawn_positions.monsters[i];
        let ghost before = candidates@;
        if (&group.monster_type).eq(monster_type) {
            let mut j: usize = 0;
            while j < group.spawn_positions.len()
                invariant
                    j <= group.spawn_positions@.len(),
                    candidates@ == before + group.spawn_positions@.take(j as int),
                decreases group.spawn_positions@.len() - j,
            {
                candidates.push(group.spawn_positions[j]);
                proof {
                    assert(before + group.spawn_positions@.take(j as int + 1) =~= (before
                        + group.spawn_positions@.take(j as int)).push(
                        group.spawn_positions@[j as int],
                    ));
                }
                j += 1;
            }
            proof {
                assert(group.spawn_positions@.take(group.spawn_positions@.len() as int)
                    =~= group.spawn_positions@);
            }
        } else {
            proof {
                assert(candidates@ =~= before + Seq::<PositionWithoutMap>::empty());
            }
        }
        proof {
            assert(groups.take(i as int + 1) =~= groups.take(i as int).push(groups[i as int]));
            lemma_matching_positions_push(groups.take(i as int), groups[i as int], monster_type@);
        }
        i += 1;
    }
    proof {
        assert(groups.take(groups.len() as int) =~= groups);
    }
    // Choose one coordinate uniformly among all of them.
    let random_spawn_position = match choose_spawn_position(&candidates) {
        Some(p) => p,
        None => unreached(),
    };
    let position = Position {
        update_available: false,
        pos_x: random_spawn_position.x,
        pos_y: random_spawn_position.y,
        current_map: map.clone(),
        velocity_x: 0,
        velocity_y: 0,
    };
    let mut monster_details = template.monster_details.clone();
    monster_details.id = new_entity_id();
    monster_details.spawn_position = position.clone();
    let entity = Entity {
        details: EntityDetails::Monster(monster_details),
        display_details: template.display_details,
        position: position,
        stats: template.stats,
        inventory: template.inventory,
    };
    commands.push(entity);
    proof {
        assert(commands@.take(commands0.len() as int) =~= commands0);
        assert(spawned_matches(commands@.last(), *template, *map, random_spawn_position));
    }
}

} // verus!
