//! Combat simulation core of a top-down action game: per-actor state
//! machines, the hitbox/hurtbox damage pipeline, and the movement integrator.
pub mod geom;
pub mod collision;
pub mod mouse;
pub mod player;
pub mod skeleton;
pub mod shopkeeper;
pub mod world;
pub mod laws;
