//! Verified core of a controller for the Thermaltake RC Pro case LCD.

use vstd::prelude::*;

pub mod config;
pub mod protocol;
pub mod render;
pub mod sensor;
pub mod gif;
pub mod link;
pub mod text;

verus! {

/// Width of the LCD panel in pixels.
pub const W: u32 = 480;

/// Height of the LCD panel in pixels.
pub const H: u32 = 128;

} // verus!
