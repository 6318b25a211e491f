//! A flow-field particle simulation in fixed-point arithmetic.
//!
//! Coordinates, velocities and forces are integers in sub-pixel units
//! (`geom::UNIT` of them to a pixel). A grid of unit directions steers a fixed
//! population of particles that wrap around the edges of the viewport.
pub mod geom;
pub mod particle;
pub mod field;
pub mod system;
