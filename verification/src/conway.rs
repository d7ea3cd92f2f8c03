//! The simulation engine and the pieces it is built from.
pub mod bounds;
pub mod cells;
pub mod chance;
pub mod conway_map;
pub mod laws;
pub mod pacing;
pub mod pattern;
pub mod torus;
