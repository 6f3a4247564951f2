//! Core logic of a small 2D arcade game: axis-aligned bounding-box collision
//! with contact notification and position rollback, an asset-dependent entity
//! registry with asset-ready notification, bird spawning and feeding rules,
//! menu and pause state transitions, and the arithmetic behind level layout.
//!
//! All geometry is carried in integer coordinates (the caller picks the
//! fixed-point scale); probabilities are ratios over
//! [`random::PROB_SCALE`]. Rendering, input and the entity-component
//! scheduler are the host's business: the host reads decisions from these
//! functions and applies them to its world.

pub mod animation;
pub mod asset_registry;
pub mod bird;
pub mod dropping;
pub mod interpolation;
pub mod keyed;
pub mod level;
pub mod menus;
pub mod physics;
pub mod player;
pub mod random;
pub mod spawner;
pub mod vecs;
pub mod waiting;
