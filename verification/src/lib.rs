//! The verified core of a small interactive scene: a square room whose floor
//! keeps a map of heat that spreads and fades over time.
//!
//! - [`heat`]: the heat grid, blob stamping and the five-point diffusion step.
//! - [`room`]: the room's mesh, built in whole world units.
//! - [`controls`]: the input state and the decisions taken on window events.

pub mod heat;
pub mod room;
pub mod controls;
