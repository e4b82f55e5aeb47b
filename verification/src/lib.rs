//! Core logic of a rotating-ball puzzle toy.
//!
//! Balls sit on closed three-dimensional tracks and in sliding or rotating
//! blocks; every movable thing is parameterized by a scalar handle in the
//! unit range. This crate holds the geometry model (piecewise cubic Bezier
//! tracks, linear slide and rotate paths), the range-bounded handle
//! arithmetic, the spatial group sensors, and the grab / drag / release /
//! snap interaction state machine. All quantities are exact fixed-point
//! integers: handles are measured in units of `1/3600` of the full range,
//! and world coordinates in units of `1/100000`. The host environment
//! (rendering, input devices, trigonometry for the final transforms) sits
//! outside and exchanges plain values with this crate.

use vstd::prelude::*;

pub mod bezier;
pub mod component;
pub mod cube;
pub mod descriptor;
pub mod geom;
pub mod input;
pub mod range01;
pub mod shuffle;

verus! {

/// The coarse application mode: asset loading and scene wiring belong to
/// the host; the puzzle core runs in the interactive mode and pauses
/// while a snap animation plays out.
#[derive(Clone, Copy, Debug, PartialEq, Eq, Hash, Structural)]
pub enum AppState {
    Load,
    Setup,
    InGame,
    Pause,
}

} // verus!

