//! Turns a stream of timestamped drum-trigger events into commands for a set
//! of lights, by the rate and the variety of the hits seen in a measurement
//! window.
//!
//! The library only decides: it takes one event and the session state, and
//! hands back the commands to carry out. Opening the event source, waiting
//! between two commands and talking to the lights are left to the caller.

pub mod algorithms;
pub mod command;
pub mod engine;
pub mod event;
pub mod laws;
pub mod state;
pub mod text;
pub mod tiers;
pub mod utils;
pub mod window;
