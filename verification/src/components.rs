//! The typed components an entity can carry, and the entity record the
//! per-tick systems iterate over.

use vstd::prelude::*;

verus! {

/// Where an entity stands, and its attempted movement for this tick.
#[derive(Debug)]
pub struct Position {
    pub update_available: bool,
    pub pos_x: u32,
    pub pos_y: u32,
    pub current_map: String,
    pub velocity_x: i32,
    pub velocity_y: i32,
}

impl Clone for Position {
    fn clone(&self) -> (r: Self)
        ensures
            r == *self,
    {
        Position {
            update_available: self.update_available,
            pos_x: self.pos_x,
            pos_y: self.pos_y,
            current_map: self.current_map.clone(),
            velocity_x: self.velocity_x,
            velocity_y: self.velocity_y,
        }
    }
}

impl Position {
    /// True when the entity attempted no move this tick.
    pub open spec fn is_stationary(&self) -> bool {
        self.velocity_x == 0 && self.velocity_y == 0
    }
}

/// Hit points, level and experience. A current_hp at or below zero means the
/// entity is dead and must neither attack nor be damaged again this tick.
#[derive(Clone, Copy, PartialEq, Eq, Structural, Debug)]
pub struct Stats {
    pub current_hp: i64,
    pub max_hp: i64,
    pub level: u32,
    pub exp: u64,
    pub update_available: bool,
}

/// Carried gold.
#[derive(Clone, Copy, PartialEq, Eq, Structural, Debug)]
pub struct Inventory {
    pub gold: u64,
    pub update_available: bool,
}

/// Presentation metadata, opaque to the combat systems.
#[derive(Clone, Copy, PartialEq, Eq, Structural, Debug)]
pub struct DisplayDetails {
    pub icon: char,
    pub visible: bool,
}

/// Identity of a client-controlled entity.
#[derive(Debug)]
pub struct PlayerDetails {
    pub id: u128,
    pub player_name: String,
    pub client_addr: String,
    pub currently_online: bool,
}

impl Clone for PlayerDetails {
    fn clone(&self) -> (r: Self)
        ensures
            r == *self,
    {
        PlayerDetails {
            id: self.id,
            player_name: self.player_name.clone(),
            client_addr: self.client_addr.clone(),
            currently_online: self.currently_online,
        }
    }
}

/// Identity of a server-controlled entity, with the position it spawned at
/// (kept for respawn reference).
#[derive(Debug)]
pub struct MonsterDetails {
    pub id: u128,
    pub monster_type: String,
    pub spawn_position: Position,
}

impl Clone for MonsterDetails {
    fn clone(&self) -> (r: Self)
        ensures
            r == *self,
    {
        MonsterDetails {
            id: self.id,
            monster_type: self.monster_type.clone(),
            spawn_position: self.spawn_position.clone(),
        }
    }
}

/// An entity is exactly one of a player or a monster.
#[derive(Debug)]
pub enum EntityDetails {
    Player(PlayerDetails),
    Monster(MonsterDetails),
}

impl Clone for EntityDetails {
    fn clone(&self) -> (r: Self)
        ensures
            r == *self,
    {
        match self {
            EntityDetails::Player(p) => EntityDetails::Player(p.clone()),
            EntityDetails::Monster(m) => EntityDetails::Monster(m.clone()),
        }
    }
}

impl EntityDetails {
    /// The stable identity shared by both variants.
    pub open spec fn id(&self) -> u128 {
        match self {
            EntityDetails::Player(p) => p.id,
            EntityDetails::Monster(m) => m.id,
        }
    }

    pub open spec fn is_player(&self) -> bool {
        match self {
            EntityDetails::Player(_) => true,
            EntityDetails::Monster(_) => false,
        }
    }

    pub open spec fn is_monster(&self) -> bool {
        !self.is_player()
    }
}

/// One row of the component store, as the combat systems see it: identity
/// plus the components they read and mutate.
#[derive(Debug)]
pub struct Entity {
    pub details: EntityDetails,
    pub display_details: DisplayDetails,
    pub position: Position,
    pub stats: Stats,
    pub inventory: Inventory,
}

impl Clone for Entity {
    fn clone(&self) -> (r: Self)
        ensures
            r == *self,
    {
        Entity {
            details: self.details.clone(),
            display_details: self.display_details,
            position: self.position.clone(),
            stats: self.stats,
            inventory: self.inventory,
        }
    }
}

impl Entity {
    pub open spec fn id(&self) -> u128 {
        self.details.id()
    }
}

/// The ids of a world's entities, pairwise distinct.
pub open spec fn distinct_ids(es: Seq<Entity>) -> bool {
    forall|i: int, j: int|
        0 <= i < es.len() && 0 <= j < es.len() && i != j ==> es[i].id() != es[j].id()
}

} // verus!
