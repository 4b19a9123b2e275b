//! The guarantees of the tick pipeline that go beyond any single function's
//! contract, each proved against the detection and resolution specifications.

use crate::combat::{
    attacker_of, defender_of, AttackerSnapshot, AttackerV, MONSTER_EXP_MULTIPLICATION_FACTOR,
};
use crate::combat_systems::{
    detect_step, detect_target, detect_tick, detected_entity, exp_gain_of, hp_minus, resolve_step,
    resolve_tick, snapshot_of,
};
use crate::components::{distinct_ids, Entity};
use crate::map_state::MapState;
use vstd::prelude::*;

verus! {

/// Every pairing entry a detection pass adds carries the attacker role of
/// some entity that attempted a move; pre-existing entries are kept as they
/// were.
pub proof fn lemma_detect_attacker_provenance(
    es: Seq<Entity>,
    states: Map<Seq<char>, MapState>,
    pm: Map<u128, AttackerV>,
    sm: Map<u128, AttackerSnapshot>,
    k: u128,
)
    requires
        detect_tick(es, states, pm, sm).0.contains_key(k),
    ensures
        (pm.contains_key(k) && detect_tick(es, states, pm, sm).0[k] == pm[k]) || (exists|j: int|
            0 <= j < es.len() && !es[j].position.is_stationary() && detect_tick(
                es,
                states,
                pm,
                sm,
            ).0[k] == attacker_of(es[j])),
    decreases es.len(),
{
    if es.len() > 0 {
        let s = detect_step(es[0], states, pm, sm);
        lemma_detect_attacker_provenance(es.drop_first(), states, s.0, s.1, k);
        if s.0.contains_key(k) && detect_tick(es.drop_first(), states, s.0, s.1).0[k] == s.0[k] {
            match detect_target(es[0], states) {
                Some(d) => {
                    if k == d.id {
                        assert(!es[0].position.is_stationary());
                        assert(detect_tick(es, states, pm, sm).0[k] == attacker_of(es[0]));
                    }
                },
                None => {},
            }
        } else {
            let j = choose|j: int|
                0 <= j < es.drop_first().len() && !es.drop_first()[j].position.is_stationary()
                    && detect_tick(es.drop_first(), states, s.0, s.1).0[k] == attacker_of(
                    es.drop_first()[j],
                );
            assert(es.drop_first()[j] == es[j + 1]);
        }
    }
}

/// Every snapshot entry a detection pass adds or overwrites belongs to a
/// moving entity and holds that entity's snapshot; the rest are kept as they
/// were.
pub proof fn lemma_detect_snapshot_provenance(
    es: Seq<Entity>,
    states: Map<Seq<char>, MapState>,
    pm: Map<u128, AttackerV>,
    sm: Map<u128, AttackerSnapshot>,
    k: u128,
)
    requires
        detect_tick(es, states, pm, sm).1.contains_key(k),
    ensures
        (sm.contains_key(k) && detect_tick(es, states, pm, sm).1[k] == sm[k]) || (exists|j: int|
            0 <= j < es.len() && !es[j].position.is_stationary() && k == es[j].id() && detect_tick(
                es,
                states,
                pm,
                sm,
            ).1[k] == snapshot_of(es[j])),
    decreases es.len(),
{
    if es.len() > 0 {
        let s = detect_step(es[0], states, pm, sm);
        lemma_detect_snapshot_provenance(es.drop_first(), states, s.0, s.1, k);
        if s.1.contains_key(k) && detect_tick(es.drop_first(), states, s.0, s.1).1[k] == s.1[k] {
            match detect_target(es[0], states) {
                Some(_) => {
                    if k == es[0].id() {
                        assert(!es[0].position.is_stationary());
                        assert(detect_tick(es, states, pm, sm).1[k] == snapshot_of(es[0]));
                    }
                },
                None => {},
            }
        } else {
            let j = choose|j: int|
                0 <= j < es.drop_first().len() && !es.drop_first()[j].position.is_stationary() && k
                    == es.drop_first()[j].id() && detect_tick(es.drop_first(), states, s.0, s.1).1[k]
                    == snapshot_of(es.drop_first()[j]);
            assert(es.drop_first()[j] == es[j + 1]);
        }
    }
}

/// An entity with zero velocity attempted no move, so detection leaves it
/// untouched, records no pairing with it as attacker, and adds no snapshot
/// for its id — whatever the tick maps held before the pass. Pairwise
/// distinct ids are the component store's validity: one row per entity.
pub proof fn lemma_stationary_never_attacker(
    es: Seq<Entity>,
    states: Map<Seq<char>, MapState>,
    pm0: Map<u128, AttackerV>,
    sm0: Map<u128, AttackerSnapshot>,
    i: int,
)
    requires
        0 <= i < es.len(),
        es[i].position.is_stationary(),
        distinct_ids(es),
    ensures
        detected_entity(es[i], states) == es[i],
        forall|k: u128|
            (#[trigger] detect_tick(es, states, pm0, sm0).0.contains_key(k) && !(
            pm0.contains_key(k) && detect_tick(es, states, pm0, sm0).0[k] == pm0[k]))
                ==> detect_tick(es, states, pm0, sm0).0[k].id != es[i].id(),
        forall|k: u128|
            (#[trigger] detect_tick(es, states, pm0, sm0).1.contains_key(k) && !(
            sm0.contains_key(k) && detect_tick(es, states, pm0, sm0).1[k] == sm0[k])) ==> k
                != es[i].id(),
{
    let pmf = detect_tick(es, states, pm0, sm0).0;
    let smf = detect_tick(es, states, pm0, sm0).1;
    assert forall|k: u128|
        (#[trigger] pmf.contains_key(k) && !(pm0.contains_key(k) && pmf[k]
            == pm0[k])) implies pmf[k].id != es[i].id() by {
        lemma_detect_attacker_provenance(es, states, pm0, sm0, k);
        let j = choose|j: int|
            0 <= j < es.len() && !es[j].position.is_stationary() && pmf[k] == attacker_of(es[j]);
        assert(attacker_of(es[j]).id == es[j].id());
        assert(j != i);
    }
    assert forall|k: u128|
        (#[trigger] smf.contains_key(k) && !(sm0.contains_key(k) && smf[k] == sm0[k])) implies k
        != es[i].id() by {
        lemma_detect_snapshot_provenance(es, states, pm0, sm0, k);
        let j = choose|j: int|
            0 <= j < es.len() && !es[j].position.is_stationary() && k == es[j].id() && smf[k]
                == snapshot_of(es[j]);
        assert(j != i);
    }
}

/// A detection pass never changes the pairing entry of a defender no scanned
/// entity runs into.
pub proof fn lemma_detect_preserves_other_defenders(
    es: Seq<Entity>,
    states: Map<Seq<char>, MapState>,
    pm: Map<u128, AttackerV>,
    sm: Map<u128, AttackerSnapshot>,
    k: u128,
)
    requires
        forall|j: int|
            0 <= j < es.len() ==> (detect_target(es[j], states) is Some ==> (#[trigger] detect_target(
                es[j],
                states,
            ))->0.id != k),
    ensures
        detect_tick(es, states, pm, sm).0.contains_key(k) == pm.contains_key(k),
        pm.contains_key(k) ==> detect_tick(es, states, pm, sm).0[k] == pm[k],
    decreases es.len(),
{
    if es.len() > 0 {
        let s = detect_step(es[0], states, pm, sm);
        assert(detect_target(es[0], states) == detect_target(es[0], states));
        assert(forall|j: int|
            0 <= j < es.drop_first().len() ==> es.drop_first()[j] == es[j + 1]);
        lemma_detect_preserves_other_defenders(es.drop_first(), states, s.0, s.1, k);
    }
}

/// If entity `i` moves into an occupied tile, and no later-scanned entity
/// runs into the same defender (the documented last-writer-wins
/// simplification), then after detection the pairing map sends that defender
/// to entity `i`'s attacker role, and entity `i`'s velocity is reset to
/// zero.
pub proof fn lemma_move_into_occupied_tile(
    es: Seq<Entity>,
    states: Map<Seq<char>, MapState>,
    pm: Map<u128, AttackerV>,
    sm: Map<u128, AttackerSnapshot>,
    i: int,
)
    requires
        0 <= i < es.len(),
        detect_target(es[i], states) is Some,
        forall|j: int|
            i < j < es.len() ==> (detect_target(es[j], states) is Some
                ==> (#[trigger] detect_target(es[j], states))->0.id != detect_target(
                es[i],
                states,
            )->0.id),
    ensures
        detect_tick(es, states, pm, sm).0.contains_key(detect_target(es[i], states)->0.id),
        detect_tick(es, states, pm, sm).0[detect_target(es[i], states)->0.id] == attacker_of(
            es[i],
        ),
        detected_entity(es[i], states).position.velocity_x == 0,
        detected_entity(es[i], states).position.velocity_y == 0,
    decreases i,
{
    let d = detect_target(es[i], states)->0;
    let s = detect_step(es[0], states, pm, sm);
    assert(forall|j: int| 0 <= j < es.drop_first().len() ==> es.drop_first()[j] == es[j + 1]);
    if i == 0 {
        assert(s.0.contains_key(d.id) && s.0[d.id] == attacker_of(es[0]));
        lemma_detect_preserves_other_defenders(es.drop_first(), states, s.0, s.1, d.id);
    } else {
        lemma_move_into_occupied_tile(es.drop_first(), states, s.0, s.1, i - 1);
    }
}

/// Pairings are backed by snapshots: what detection guarantees and
/// resolution relies on.
pub open spec fn snapshots_cover(
    pm: Map<u128, AttackerV>,
    sm: Map<u128, AttackerSnapshot>,
) -> bool {
    forall|k: u128| #[trigger] pm.contains_key(k) ==> sm.contains_key(pm[k].id)
}

/// Two snapshot maps with the same keys and the same hit points everywhere.
/// Resolution rewrites snapshots' experience and gold but never their hit
/// points, so this relation is preserved along a resolution pass.
pub open spec fn same_dom_and_hp(
    sm1: Map<u128, AttackerSnapshot>,
    sm2: Map<u128, AttackerSnapshot>,
) -> bool {
    &&& forall|k: u128| sm1.contains_key(k) == #[trigger] sm2.contains_key(k)
    &&& forall|k: u128|
        #[trigger] sm1.contains_key(k) ==> sm1[k].stats.current_hp == sm2[k].stats.current_hp
    &&& forall|k: u128| !sm1.contains_key(k) ==> sm1[k] == sm2[k]
}

/// Detection writes a pairing and its attacker's snapshot together, so a
/// pass that starts from covered tick maps (empty ones in particular) leaves
/// them covered: exactly what resolution requires of them.
pub proof fn lemma_detect_tick_covers(
    es: Seq<Entity>,
    states: Map<Seq<char>, MapState>,
    pm: Map<u128, AttackerV>,
    sm: Map<u128, AttackerSnapshot>,
)
    requires
        snapshots_cover(pm, sm),
    ensures
        snapshots_cover(detect_tick(es, states, pm, sm).0, detect_tick(es, states, pm, sm).1),
    decreases es.len(),
{
    if es.len() > 0 {
        let s = detect_step(es[0], states, pm, sm);
        assert(attacker_of(es[0]).id == es[0].id());
        lemma_detect_tick_covers(es.drop_first(), states, s.0, s.1);
    }
}

pub proof fn lemma_resolve_step_preserves(
    e: Entity,
    pm: Map<u128, AttackerV>,
    sm: Map<u128, AttackerSnapshot>,
    dmg: Map<u128, u32>,
)
    requires
        snapshots_cover(pm, sm),
    ensures
        snapshots_cover(pm, resolve_step(e, pm, sm, dmg).1),
        same_dom_and_hp(sm, resolve_step(e, pm, sm, dmg).1),
{
    let sm1 = resolve_step(e, pm, sm, dmg).1;
    let d = defender_of(e);
    if pm.contains_key(d.id) {
        assert(sm.contains_key(pm[d.id].id));
    }
    assert forall|k: u128| sm.contains_key(k) == #[trigger] sm1.contains_key(k) by {}
    assert forall|k: u128| #[trigger] sm.contains_key(k) implies sm[k].stats.current_hp
        == sm1[k].stats.current_hp by {}
}

/// The equality-relevant part of a resolution step reads only the pairing
/// map, the damage rolls, and snapshot hit points: two snapshot maps that
/// agree on keys and hit points leave the defender identically.
pub proof fn lemma_resolve_step_entity(
    e: Entity,
    pm: Map<u128, AttackerV>,
    sm1: Map<u128, AttackerSnapshot>,
    sm2: Map<u128, AttackerSnapshot>,
    dmg: Map<u128, u32>,
)
    requires
        snapshots_cover(pm, sm1),
        same_dom_and_hp(sm1, sm2),
    ensures
        resolve_step(e, pm, sm1, dmg).0 == resolve_step(e, pm, sm2, dmg).0,
        resolve_step(e, pm, sm1, dmg).2 is Some == resolve_step(e, pm, sm2, dmg).2 is Some,
        resolve_step(e, pm, sm1, dmg).2 is Some ==> resolve_step(
            e,
            pm,
            sm1,
            dmg,
        ).2->0.defender == resolve_step(e, pm, sm2, dmg).2->0.defender,
    decreases 0int,
{
    let d = defender_of(e);
    if e.stats.current_hp > 0 && pm.contains_key(d.id) {
        let a = pm[d.id];
        assert(sm1.contains_key(a.id));
        assert(sm1[a.id].stats.current_hp == sm2[a.id].stats.current_hp);
    }
}

/// Resolution hands back exactly one entity per entity scanned.
pub proof fn lemma_resolve_len(
    es: Seq<Entity>,
    pm: Map<u128, AttackerV>,
    sm: Map<u128, AttackerSnapshot>,
    dmg: Map<u128, u32>,
)
    ensures
        resolve_tick(es, pm, sm, dmg).0.len() == es.len(),
    decreases es.len(),
{
    if es.len() > 0 {
        let s = resolve_step(es[0], pm, sm, dmg);
        lemma_resolve_len(es.drop_first(), pm, s.1, dmg);
    }
}

/// Each entity's fate under resolution is its own single step, taken against
/// the snapshot map as resolution found it: the pass damages a paired
/// defender exactly once however many entities it scans.
pub proof fn lemma_resolve_pointwise(
    es: Seq<Entity>,
    pm: Map<u128, AttackerV>,
    sm: Map<u128, AttackerSnapshot>,
    dmg: Map<u128, u32>,
    i: int,
)
    requires
        snapshots_cover(pm, sm),
        0 <= i < es.len(),
    ensures
        resolve_tick(es, pm, sm, dmg).0.len() == es.len(),
        resolve_tick(es, pm, sm, dmg).0[i] == resolve_step(es[i], pm, sm, dmg).0,
    decreases es.len(),
{
    lemma_resolve_len(es, pm, sm, dmg);
    let s = resolve_step(es[0], pm, sm, dmg);
    let rest = resolve_tick(es.drop_first(), pm, s.1, dmg);
    if i == 0 {
        assert(resolve_tick(es, pm, sm, dmg).0[0] == s.0);
    } else {
        lemma_resolve_step_preserves(es[0], pm, sm, dmg);
        lemma_resolve_pointwise(es.drop_first(), pm, s.1, dmg, i - 1);
        assert(es.drop_first()[i - 1] == es[i]);
        assert(resolve_tick(es, pm, sm, dmg).0[i] == rest.0[i - 1]);
        assert forall|k: u128| s.1.contains_key(k) == #[trigger] sm.contains_key(k) by {}
        lemma_resolve_step_entity(es[i], pm, s.1, sm, dmg);
    }
}

/// Damage application is idempotent per pairing per tick: a paired, living
/// defender with a living attacker ends the pass with exactly one damage
/// application, whatever else the pass processed.
pub proof fn lemma_damage_applied_once(
    es: Seq<Entity>,
    pm: Map<u128, AttackerV>,
    sm: Map<u128, AttackerSnapshot>,
    dmg: Map<u128, u32>,
    i: int,
)
    requires
        snapshots_cover(pm, sm),
        0 <= i < es.len(),
        es[i].stats.current_hp > 0,
        pm.contains_key(defender_of(es[i]).id),
        sm[pm[defender_of(es[i]).id].id].stats.current_hp > 0,
    ensures
        resolve_tick(es, pm, sm, dmg).0.len() == es.len(),
        resolve_tick(es, pm, sm, dmg).0[i].stats.current_hp == hp_minus(
            es[i].stats.current_hp,
            dmg[defender_of(es[i]).id],
        ),
{
    lemma_resolve_pointwise(es, pm, sm, dmg, i);
}

/// Every notification a resolution pass emits belongs to an entity that was
/// alive when the pass reached it.
pub proof fn lemma_notification_provenance(
    es: Seq<Entity>,
    pm: Map<u128, AttackerV>,
    sm: Map<u128, AttackerSnapshot>,
    dmg: Map<u128, u32>,
    t: int,
)
    requires
        0 <= t < resolve_tick(es, pm, sm, dmg).2.len(),
    ensures
        exists|j: int|
            0 <= j < es.len() && es[j].stats.current_hp > 0 && resolve_tick(
                es,
                pm,
                sm,
                dmg,
            ).2[t].defender == #[trigger] defender_of(es[j]),
    decreases es.len(),
{
    let s = resolve_step(es[0], pm, sm, dmg);
    let rest = resolve_tick(es.drop_first(), pm, s.1, dmg);
    let whole = resolve_tick(es, pm, sm, dmg).2;
    match s.2 {
        Some(n) => {
            if t == 0 {
                assert(whole[0] == n);
                assert(es[0].stats.current_hp > 0);
                assert(whole[t].defender == defender_of(es[0]));
            } else {
                assert(whole[t] == rest.2[t - 1]);
                lemma_notification_provenance(es.drop_first(), pm, s.1, dmg, t - 1);
                let j = choose|j: int|
                    0 <= j < es.drop_first().len() && es.drop_first()[j].stats.current_hp > 0
                        && rest.2[t - 1].defender == #[trigger] defender_of(es.drop_first()[j]);
                assert(es.drop_first()[j] == es[j + 1]);
                assert(whole[t].defender == defender_of(es[j + 1]));
            }
        },
        None => {
            assert(whole[t] == rest.2[t]);
            lemma_notification_provenance(es.drop_first(), pm, s.1, dmg, t);
            let j = choose|j: int|
                0 <= j < es.drop_first().len() && es.drop_first()[j].stats.current_hp > 0
                    && rest.2[t].defender == #[trigger] defender_of(es.drop_first()[j]);
            assert(es.drop_first()[j] == es[j + 1]);
            assert(whole[t].defender == defender_of(es[j + 1]));
        },
    }
}

/// A defender that is already dead before resolution runs is never damaged
/// again, keeps all its components untouched, and triggers no notification
/// and hence no reward computation. Pairwise distinct ids are the component
/// store's validity (one row per entity): without them another row under the
/// same id could be notified in this one's name.
pub proof fn lemma_dead_defender_untouched(
    es: Seq<Entity>,
    pm: Map<u128, AttackerV>,
    sm: Map<u128, AttackerSnapshot>,
    dmg: Map<u128, u32>,
    i: int,
)
    requires
        snapshots_cover(pm, sm),
        distinct_ids(es),
        0 <= i < es.len(),
        es[i].stats.current_hp <= 0,
    ensures
        resolve_tick(es, pm, sm, dmg).0.len() == es.len(),
        resolve_tick(es, pm, sm, dmg).0[i] == es[i],
        forall|t: int|
            0 <= t < resolve_tick(es, pm, sm, dmg).2.len() ==> (#[trigger] resolve_tick(
                es,
                pm,
                sm,
                dmg,
            ).2[t]).defender.id != es[i].id(),
{
    lemma_resolve_pointwise(es, pm, sm, dmg, i);
    let ns = resolve_tick(es, pm, sm, dmg).2;
    assert forall|t: int| 0 <= t < ns.len() implies (#[trigger] ns[t]).defender.id != es[i].id()
        by {
        lemma_notification_provenance(es, pm, sm, dmg, t);
        let j = choose|j: int|
            0 <= j < es.len() && es[j].stats.current_hp > 0 && ns[t].defender
                == #[trigger] defender_of(es[j]);
        assert(defender_of(es[j]).id == es[j].id());
        assert(j != i);
    }
}

/// Killing a monster of level L carrying G gold awards the attacker's
/// snapshot exactly L times the experience factor and exactly G gold, and
/// the notification reports the same amounts.
pub proof fn lemma_monster_kill_rewards(
    e: Entity,
    pm: Map<u128, AttackerV>,
    sm: Map<u128, AttackerSnapshot>,
    dmg: Map<u128, u32>,
)
    requires
        e.stats.current_hp > 0,
        e.details.is_monster(),
        pm.contains_key(defender_of(e).id),
        sm.contains_key(pm[defender_of(e).id].id),
        sm[pm[defender_of(e).id].id].stats.current_hp > 0,
        hp_minus(e.stats.current_hp, dmg[defender_of(e).id]) <= 0,
        sm[pm[defender_of(e).id].id].stats.exp + e.stats.level
            * MONSTER_EXP_MULTIPLICATION_FACTOR <= u64::MAX,
        sm[pm[defender_of(e).id].id].inventory.gold + e.inventory.gold <= u64::MAX,
    ensures
        ({
            let a_id = pm[defender_of(e).id].id;
            let s = resolve_step(e, pm, sm, dmg);
            &&& s.2 is Some
            &&& s.2->0.exp_gain == e.stats.level * MONSTER_EXP_MULTIPLICATION_FACTOR
            &&& s.2->0.gold_gain == e.inventory.gold
            &&& s.1[a_id].stats.exp == sm[a_id].stats.exp + e.stats.level
                * MONSTER_EXP_MULTIPLICATION_FACTOR
            &&& s.1[a_id].inventory.gold == sm[a_id].inventory.gold + e.inventory.gold
            &&& s.1[a_id].stats.update_available
        }),
{
    assert(exp_gain_of(e.stats.level) == e.stats.level * MONSTER_EXP_MULTIPLICATION_FACTOR);
}

/// Killing a player awards nothing: the snapshot map is unchanged and the
/// notification carries zero experience and zero gold.
pub proof fn lemma_player_kill_no_rewards(
    e: Entity,
    pm: Map<u128, AttackerV>,
    sm: Map<u128, AttackerSnapshot>,
    dmg: Map<u128, u32>,
)
    requires
        e.stats.current_hp > 0,
        e.details.is_player(),
        pm.contains_key(defender_of(e).id),
        sm[pm[defender_of(e).id].id].stats.current_hp > 0,
    ensures
        resolve_step(e, pm, sm, dmg).1 == sm,
        resolve_step(e, pm, sm, dmg).2 is Some,
        resolve_step(e, pm, sm, dmg).2->0.exp_gain == 0,
        resolve_step(e, pm, sm, dmg).2->0.gold_gain == 0,
{
}

} // verus!
