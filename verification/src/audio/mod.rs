//! Audio subsystem entry points.
//!
//! No capture backend is bound yet: starting and stopping the subsystem
//! have nothing to do.  Sample buffering and voice activity detection live
//! in `ring_buffer` and `vad`.
use vstd::prelude::*;

pub mod ring_buffer;
pub mod vad;

verus! {

/// Starts the audio capture (nothing to start yet).
pub fn start() {
}

/// Stops the audio capture (nothing to stop yet).
pub fn stop() {
}

} // verus!
