//! Per-frame simulation core of a small survival game: circle geometry on a
//! fixed-point plane, timers, mass-aware overlap resolution, spawning and the
//! game lifecycle.
//!
//! Lengths are integers in sub-units (`geometry::SUBUNITS` to one world unit),
//! times are microseconds, and directions are fixed-point vectors whose length
//! is `geometry::DIRECTION_SCALE`.

pub mod geometry;
pub mod timer;
pub mod components;
pub mod world;
pub mod collision;
pub mod systems;
