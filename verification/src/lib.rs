//! A fixed-timestep 2D platformer simulation engine.
//!
//! Positions and sizes are measured in integer subpixels (`SUBPIXEL` units per
//! pixel), velocities in subpixels per simulation tick, and accelerations in
//! subpixels per tick squared.  Time is measured in whole ticks inside the
//! simulation and in microseconds in the frame accumulator, so the whole
//! engine is exact integer arithmetic: every step is a total function of the
//! previous state and the latched input.

pub mod audio;
pub mod config;
pub mod game;
pub mod geom;
pub mod enemy;
pub mod input;
pub mod level;
pub mod physics;
pub mod player;
pub mod world;
