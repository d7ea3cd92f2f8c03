//! A Game of Life engine on a square grid whose edges wrap around.
//!
//! [`ConwayMap`] owns the set of live cells and advances it one generation at a
//! time; [`Pos`] names a cell. Drawing, timing and file access belong to the
//! host that drives the engine.
use vstd::prelude::*;

pub mod conway;

pub use conway::conway_map::{ConstructionError, ConwayCell, ConwayMap, LoadError};
pub use conway::pacing::FrameClock;

verus! {

/// Counters a host may keep while a simulation runs.
pub struct RunStatistics {
    pub births: u32,
    pub deaths: u32,
    pub generations: u32,
    pub population: u32,
}

impl RunStatistics {
    /// All counters start at zero.
    pub fn new() -> (stats: Self)
        ensures
            stats.births == 0,
            stats.deaths == 0,
            stats.generations == 0,
            stats.population == 0,
    {
        RunStatistics { births: 0, deaths: 0, generations: 0, population: 0 }
    }
}

/// A cell coordinate: column (`.0`) and row (`.1`).
#[derive(Copy, Clone, PartialEq, Eq, Hash, Debug, Structural)]
pub struct Pos(pub i32, pub i32);

impl Default for Pos {
    fn default() -> (p: Self)
        ensures
            p == Pos(0, 0),
    {
        Pos(0, 0)
    }
}

} // verus!
