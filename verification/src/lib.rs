//! Core rules of a small terminal RPG: items with equipment slots, a backpack
//! that enforces one item per slot, entities with health/damage/xp, and a
//! closed-form battle resolver with loot transfer.

pub mod backpack;
pub mod battle;
pub mod entity;
pub mod item;
pub mod rng;
pub mod slot;
