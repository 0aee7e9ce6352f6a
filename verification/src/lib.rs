//! Core logic of an isometric chase game, verified.
//!
//! A "robber" actor follows a path of waypoints extracted from named nodes of
//! a loaded scene; the player loses when the robber stays out of view for too
//! long and wins when the robber's path completes. This crate holds the
//! game's decision logic on plain fixed-point values (milliunits, see
//! `geom`); rendering, windowing and asset I/O live outside it, behind the
//! frame protocol that `world` describes.
//!
//! - `parse`, `path_index`: scan a loaded scene's named nodes into waypoint
//!   groups and pick one path at random (the scene graph index).
//! - `geom`, `math`, `movement`: the per-tick movement integrator that
//!   advances an actor along its path and reorients it, and the win detector's
//!   one-shot completion signal.
//! - `visibility`: the loss countdown driven by the per-tick "is the robber
//!   rendered" observation.
//! - `screen`, `world`: the Title/Playing/Win/Lose state machine and the
//!   owned game state it coordinates, session spawn and teardown included.
//! - `assets`, `config`, `camera`, `dev`: the plain-value side of asset
//!   registration, input mapping and the camera rig.

pub mod assets;
pub mod camera;
pub mod config;
pub mod dev;
pub mod geom;
pub mod math;
pub mod movement;
pub mod parse;
pub mod path_index;
pub mod screen;
pub mod visibility;
pub mod world;
