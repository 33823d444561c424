//! Authoritative simulation core of a multiplayer world server: maps, an
//! entity/component store, per-tick event queues and the combat stage.
pub mod combat;
pub mod combat_lemmas;
pub mod components;
pub mod engine;
pub mod events;
pub mod world;
