//! Transient combat roles and the two tick-scoped maps that carry pairings
//! from detection to resolution, plus the notification record resolution
//! emits for each resolved pairing.

use crate::assoc::IdMap;
use crate::components::{Entity, EntityDetails, Inventory, Stats};
use vstd::prelude::*;

verus! {

/// Experience awarded for a kill is the victim's level times this factor.
pub const MONSTER_EXP_MULTIPLICATION_FACTOR: u64 = 10;

/// The moving entity of a pairing. For a monster the client address is empty
/// and it counts as online.
#[derive(Debug)]
pub struct Attacker {
    pub id: u128,
    pub name: String,
    pub client_addr: String,
    pub currently_online: bool,
}

/// The ghost image of an `Attacker`, with its strings as character sequences.
pub struct AttackerV {
    pub id: u128,
    pub name: Seq<char>,
    pub client_addr: Seq<char>,
    pub currently_online: bool,
}

impl View for Attacker {
    type V = AttackerV;

    open spec fn view(&self) -> AttackerV {
        AttackerV {
            id: self.id,
            name: self.name@,
            client_addr: self.client_addr@,
            currently_online: self.currently_online,
        }
    }
}

impl Clone for Attacker {
    fn clone(&self) -> (r: Self)
        ensures
            r == *self,
    {
        Attacker {
            id: self.id,
            name: self.name.clone(),
            client_addr: self.client_addr.clone(),
            currently_online: self.currently_online,
        }
    }
}

/// The entity whose tile was moved into. Two defenders denote the same
/// entity exactly when their ids are equal, so the pairing map keys by id.
#[derive(Debug)]
pub struct Defender {
    pub id: u128,
    pub name: String,
    pub client_addr: String,
    pub currently_online: bool,
}

/// The ghost image of a `Defender`.
pub struct DefenderV {
    pub id: u128,
    pub name: Seq<char>,
    pub client_addr: Seq<char>,
    pub currently_online: bool,
}

impl View for Defender {
    type V = DefenderV;

    open spec fn view(&self) -> DefenderV {
        DefenderV {
            id: self.id,
            name: self.name@,
            client_addr: self.client_addr@,
            currently_online: self.currently_online,
        }
    }
}

impl Clone for Defender {
    fn clone(&self) -> (r: Self)
        ensures
            r == *self,
    {
        Defender {
            id: self.id,
            name: self.name.clone(),
            client_addr: self.client_addr.clone(),
            currently_online: self.currently_online,
        }
    }
}

/// The defender value standing for "nobody": what a collision query hands
/// back when the queried tile is free.
pub open spec fn nobody() -> DefenderV {
    DefenderV { id: 0, name: Seq::empty(), client_addr: Seq::empty(), currently_online: false }
}

impl Default for Defender {
    fn default() -> (r: Self)
        ensures
            r@ == nobody(),
    {
        Defender {
            id: 0,
            name: String::new(),
            client_addr: String::new(),
            currently_online: false,
        }
    }
}

/// The attacker's stats and inventory as they stood when combat was
/// detected; resolution computes from this snapshot, not from the live
/// components.
#[derive(Clone, Copy, PartialEq, Eq, Structural, Debug)]
pub struct AttackerSnapshot {
    pub stats: Stats,
    pub inventory: Inventory,
}

/// Who attacks whom this tick, keyed by the defender's id. Populated by
/// detection, consumed and cleared by resolution; never carried across
/// ticks.
pub type CombatParties = IdMap<Attacker>;

/// Attacker state snapshots keyed by attacker id, written by detection,
/// updated with kill rewards by resolution, flushed and cleared by gain
/// application.
pub type CombatAttackerStats = IdMap<AttackerSnapshot>;

/// Rounded damage per pairing, keyed by the defender's id. The damage
/// formula itself is external game-balance logic: the caller evaluates it
/// on the detected pairings and hands resolution the rounded results.
pub type DamageRolls = IdMap<u32>;

/// What is broadcast to clients for one resolved pairing.
#[derive(Debug)]
pub struct CombatNotification {
    pub defender: Defender,
    pub attacker: Attacker,
    pub damage: u32,
    pub remaining_hp: i64,
    pub exp_gain: u64,
    pub gold_gain: u64,
}

/// The ghost image of a notification.
pub struct NotificationV {
    pub defender: DefenderV,
    pub attacker: AttackerV,
    pub damage: u32,
    pub remaining_hp: i64,
    pub exp_gain: u64,
    pub gold_gain: u64,
}

impl View for CombatNotification {
    type V = NotificationV;

    open spec fn view(&self) -> NotificationV {
        NotificationV {
            defender: self.defender@,
            attacker: self.attacker@,
            damage: self.damage,
            remaining_hp: self.remaining_hp,
            exp_gain: self.exp_gain,
            gold_gain: self.gold_gain,
        }
    }
}

/// The attacker role an entity takes when its move collides: player details
/// take precedence, a monster attacks under its type name with no client
/// address.
pub open spec fn attacker_of(e: Entity) -> AttackerV {
    match e.details {
        EntityDetails::Player(p) => AttackerV {
            id: p.id,
            name: p.player_name@,
            client_addr: p.client_addr@,
            currently_online: p.currently_online,
        },
        EntityDetails::Monster(m) => AttackerV {
            id: m.id,
            name: m.monster_type@,
            client_addr: Seq::empty(),
            currently_online: true,
        },
    }
}

/// The defender role an entity takes when it is attacked.
pub open spec fn defender_of(e: Entity) -> DefenderV {
    match e.details {
        EntityDetails::Player(p) => DefenderV {
            id: p.id,
            name: p.player_name@,
            client_addr: p.client_addr@,
            currently_online: p.currently_online,
        },
        EntityDetails::Monster(m) => DefenderV {
            id: m.id,
            name: m.monster_type@,
            client_addr: Seq::empty(),
            currently_online: true,
        },
    }
}

/// The pairing map as ghost values: each stored attacker replaced by its
/// image.
pub open spec fn parties_view(m: Map<u128, Attacker>) -> Map<u128, AttackerV> {
    Map::new(|k: u128| m.contains_key(k), |k: u128| m[k]@)
}

pub proof fn lemma_parties_view_insert(m: Map<u128, Attacker>, k: u128, a: Attacker)
    ensures
        parties_view(m.insert(k, a)) == parties_view(m).insert(k, a@),
{
    assert(parties_view(m.insert(k, a)) =~= parties_view(m).insert(k, a@));
}

pub proof fn lemma_parties_view_empty()
    ensures
        parties_view(Map::<u128, Attacker>::empty()) == Map::<u128, AttackerV>::empty(),
{
    assert(parties_view(Map::<u128, Attacker>::empty()) =~= Map::<u128, AttackerV>::empty());
}

} // verus!
