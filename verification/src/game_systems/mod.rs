//! The rule systems, in the order in which a turn runs them, and what they
//! work on: intents, the registry of claimed intents, directives and the
//! notification log.
pub mod notifications;
pub mod intents;
pub mod directives;
pub mod inventory;
pub mod bump;
pub mod doors;
pub mod input;
