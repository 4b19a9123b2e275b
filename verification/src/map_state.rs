//! The per-map occupancy index combat detection queries. It is built from
//! positions as of the start of the tick, outside this core, and is
//! read-only while detection runs.

use crate::assoc::StrMap;
use crate::combat::{nobody, Defender, DefenderV};
use vstd::prelude::*;
use vstd::string::StringExecFns;

verus! {

/// Which entity, if any, stands on each occupied tile of one map.
pub struct MapState {
    pub occupants: Vec<(u32, u32, Defender)>,
}

/// Occupancy indexes for every map, keyed by map name.
pub type AllMapStates = StrMap<MapState>;

/// The first recorded occupant of tile (x, y), if any.
pub open spec fn occupant_at(s: Seq<(u32, u32, Defender)>, x: u32, y: u32) -> Option<DefenderV>
    decreases s.len(),
{
    if s.len() == 0 {
        None
    } else if s[0].0 == x && s[0].1 == y {
        Some(s[0].2@)
    } else {
        occupant_at(s.drop_first(), x, y)
    }
}

/// Is tile (x, y) occupied, and by whom; a free tile reports `nobody`.
#[verifier::loop_isolation(false)]
pub fn is_colliding_with_entity(x: u32, y: u32, map_state: &MapState) -> (r: (bool, Defender))
    ensures
        match occupant_at(map_state.occupants@, x, y) {
            Some(d) => r.0 && r.1@ == d,
            None => !r.0 && r.1@ == nobody(),
        },
{
    let ghost s = map_state.occupants@;
    proof {
        assert(s.skip(0) =~= s);
    }
    let mut i: usize = 0;
    while i < map_state.occupants.len()
        invariant
            i <= s.len(),
            occupant_at(s, x, y) == occupant_at(s.skip(i as int), x, y),
        decreases s.len() - i,
    {
        let entry = &map_state.occupants[i];
        proof {
            assert(s.skip(i as int)[0] == s[i as int]);
            assert(s.skip(i as int).drop_first() =~= s.skip(i as int + 1));
        }
        if entry.0 == x && entry.1 == y {
            return (true, entry.2.clone());
        }
        i += 1;
    }
    (false, Defender::default())
}

/// The name of the map an entity is placed on when its own map is missing
/// from the index.
pub open spec fn default_map_name() -> Seq<char> {
    "default"@
}

pub fn default_map() -> (r: String)
    ensures
        r@ == default_map_name(),
{
    String::from_str("default")
}

/// The index consulted for an entity on map `m`: its own map's state, or the
/// default map's when `m` is absent.
pub open spec fn effective_state(states: Map<Seq<char>, MapState>, m: Seq<char>) -> MapState {
    if states.contains_key(m) {
        states[m]
    } else {
        states[default_map_name()]
    }
}

/// Look up a map's occupancy index, falling back to the default map for an
/// entity located on a map the index does not know. The fallback signals a
/// data inconsistency but must not halt the server.
pub fn get_current_map_states<'a>(all_map_states: &'a AllMapStates, map: &String) -> (r:
    &'a MapState)
    requires
        all_map_states.wf(),
        all_map_states@.contains_key(map@) || all_map_states@.contains_key(default_map_name()),
    ensures
        *r == effective_state(all_map_states@, map@),
{
    match all_map_states.get(map) {
        Some(state) => state,
        None => {
            let default = default_map();
            match all_map_states.get(&default) {
                Some(state) => state,
                None => unreached(),
            }
        },
    }
}

} // verus!
