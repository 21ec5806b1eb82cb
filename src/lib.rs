//! Poise-damage and hyperarmour figures for a combat simulator's weapons.
//!
//! The library models each weapon's attack repertoire, loads it from a
//! comma-separated dataset, rescales it under an incoming-damage multiplier
//! and derives the hyperarmour that a weapon grants while swinging.

pub mod attack;
pub mod damage;
pub mod hyperarmor;
pub mod label;
pub mod loader;
pub mod moveset;
pub mod multiplier;
pub mod store;
pub mod text;
