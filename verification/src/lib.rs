//! Turn scheduler and intent resolution pipeline of a turn-based world.
//!
//! Actors act in a strict order kept by the clock in [`time`]. What an actor
//! attempts is recorded as an intent; the rule systems in [`game_systems`]
//! interpret intents in a fixed order, claim the ones they act upon in a
//! per-turn registry, and emit directives that the resolvers apply to the
//! world's components.
pub mod entity;
pub mod store;
pub mod tiles;
pub mod time;
pub mod game_systems;
pub mod map;
pub mod core_systems;
pub mod commands;
pub mod maybe;
pub mod input;
pub mod game;
pub mod simulation;
