//! The falling-characters terminal animation: a grid of fading glyphs fed by
//! falling streams, advanced one tick at a time and rendered into a frame of
//! coloured cells.
//!
//! Positions and speeds are fixed-point: one row is `UNITS_PER_ROW` units.
//! Lifetimes are exact ratios of ticks.
use vstd::prelude::*;

pub mod app;
pub mod fading_character;
pub mod hot_character;
pub mod matrix;
pub mod random;
