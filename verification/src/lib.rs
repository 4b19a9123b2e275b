//! Tick-based combat and monster-population engine for a multiplayer
//! dungeon-crawler server.
//!
//! Per tick, combat detection scans moving entities and pairs attackers with
//! the defenders whose tiles they tried to enter; combat resolution applies
//! rounded damage, computes kill rewards, and emits one notification per
//! pairing; gain application flushes accumulated rewards onto the attacking
//! players' persistent stats. The monster spawner instantiates catalog
//! templates at configured coordinates.

pub mod assoc;
pub mod background_map;
pub mod combat;
pub mod combat_systems;
pub mod components;
pub mod laws;
pub mod map_state;
pub mod monsters;
