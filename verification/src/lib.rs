//! Core simulation of an arcade growth game.
//!
//! A player-controlled square roams a walled rectangular arena, absorbing
//! smaller numbered obstacles to grow and ending the round on contact with a
//! larger one. This crate holds the rules of that game — bounds membership,
//! obstacle spawning, movement and gravity commands, contact resolution with
//! its bounce-sound debounce, the two-state lifecycle and the score tracker —
//! as verified functions over an integer model. Rendering, audio playback,
//! input polling and the physics integration itself are collaborators that a
//! host layer supplies; the simulation only consumes their reports (decoded
//! commands, the per-tick contact list) and emits effects for them to perform.

pub mod geom;
pub mod bounds;
pub mod rng;
pub mod config;
pub mod entities;
pub mod effects;
pub mod score;
pub mod contact;
pub mod motion;
pub mod spawn;
pub mod despawn;
pub mod lifecycle;
