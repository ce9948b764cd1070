//! Pitch detection core for a terminal guitar tuner: the note model, the
//! bounded sample buffer shared with the capture callback, and the decisions
//! of the pitch-detection pipeline.

use vstd::prelude::*;

pub mod guitar;
pub mod pitch_detector;
pub mod recorder;
pub mod tuning_notes;
pub mod utils;
pub mod widgets;

verus! {

/// Sampling rate at which audio is captured and analysed, in Hz.
pub const SAMPLE_RATE: usize = 44100;

} // verus!
