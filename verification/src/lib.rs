//! Core of a tick-driven production simulation: named ingredient stocks with
//! optional capacity ceilings, timed transformation recipes that consume and
//! produce stock, and the engine that decides and applies start/finish
//! transitions once per simulation step.

pub mod engine;
pub mod game_builder;
pub mod ingredient;
pub mod laws;
pub mod quantity;
pub mod recipe;
pub mod utils;
