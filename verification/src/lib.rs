//! A polyphonic synthesis engine, verified.
//!
//! The engine turns note on/off events into per-sample envelope data: a
//! bounded command queue feeds a bank of voices, each voice owning a gate,
//! an ADSR envelope, and a stereo pan position.  All amplitude arithmetic is
//! carried out in exact fixed-point (millionths), so every state transition
//! of the envelope machine and every lifecycle step of the voice bank is
//! specified and proved.  Converting envelope samples into an audible
//! waveform (oscillator, panning gains, output buffer) is left to the host,
//! which reads the values this crate computes.

pub mod adsr;
pub mod envelope_laws;
pub mod gate;
pub mod math;
pub mod pitch;
pub mod provider;
pub mod voice;
