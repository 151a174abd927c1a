//! What an algorithm asks its caller to do.

use vstd::prelude::*;

verus! {

/// The brightness that every command to the lights carries.
pub const FULL_BRIGHTNESS: u8 = 254;

/// One step for the caller to carry out. Commands come in a list and are
/// carried out in its order, each to its end before the next begins.
#[derive(Debug, PartialEq, Eq)]
pub enum Command<C> {
    /// Switch all lights on or off.
    Power { on: bool, brightness: u8, transition: u8 },
    /// Show `color` on all lights.
    Color { color: C, brightness: u8, transition: u8 },
    /// Wait for `millis` milliseconds. No event is handled meanwhile: what
    /// arrives is held back or lost by the event source.
    Pause { millis: u64 },
    /// Make the hit known on a side channel. The lights are left alone.
    Report { status: u8, identifier: u8, velocity: u8 },
}

/// A color as a point of the CIE chromaticity diagram, each coordinate in
/// ten-thousandths: `x` 3174 stands for 0.3174.
#[derive(Clone, Copy, Debug, PartialEq, Eq)]
pub struct Xy {
    pub x: u16,
    pub y: u16,
}

} // verus!
