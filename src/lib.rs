//! One monophonic synthesizer voice as a chain of stages: a wavetable
//! generator, an envelope shaper, a low-pass filter and a frequency glide.
//! Every stage pulls one sample at a time from the stage it wraps, and takes at
//! most one command per pull from its control queue; the commands it does not
//! claim travel on to the stage it wraps.
//!
//! Samples and gains are fixed-point integers on the scale of `fixed::UNIT`;
//! frequencies are in millihertz and durations in milliseconds.
use vstd::prelude::*;

pub mod fixed;
pub mod sound_commands;
pub mod adsr;
pub mod low_pass_filter;
pub mod wave_table;
pub mod lerp_note;
pub mod chain;
pub mod play_source;

verus! {

} // verus!
