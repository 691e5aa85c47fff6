//! A verified flocking ("boids") simulation core.
//!
//! A population of agents moves in a bounded 2D plane under three local
//! steering rules (separation, alignment, cohesion). Each frame runs in two
//! passes: force accumulation over a snapshot of the population, then
//! integration with a speed clamp and toroidal wrap-around. All geometry is
//! held in fixed-point integer coordinates (milli-units), so every step of
//! the update is exact and verified.

pub mod config;
pub mod intmath;
pub mod vec2;
pub mod steering;
pub mod rng;
pub mod population;
pub mod frame;
