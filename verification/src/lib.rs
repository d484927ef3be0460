//! Logic-simulation core for a grid-based digital-circuit puzzle.
//!
//! Components (wires, gates, splitters, counters, probes) sit on a
//! rectangular grid.  A one-shot build phase compiles the declared ports and
//! transparent wire cells into shared byte-valued signal cells, and a tick
//! scheduler then evaluates every component once per simulated time step.

pub mod component;
pub mod grid;
pub mod laws;
pub mod levels;
pub mod model;
pub mod occupation;
pub mod port_grid;
pub mod run;
pub mod side;
pub mod signal;
