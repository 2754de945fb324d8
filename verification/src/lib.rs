//! A step-sequencer drum machine engine.
//!
//! The crate provides the real-time core of a drum machine: a sample-accurate
//! step clock ([`sequencer::Sequencer`]), and, built on it, per-voice one-shot
//! sample playback, a saturating voice mixer, a per-voice grid of step gates,
//! a tempo-text parser, and an engine that composes them into an
//! audio-callback step function.
//!
//! Everything here is plain integer state: the host process owns the audio
//! device, the widget toolkit and the sample files, decodes each drum sound to
//! a mono `i16` buffer at startup, and forwards control messages (start/stop,
//! tempo text, step toggles) to the engine between output buffers.

pub mod engine;
pub mod mix;
pub mod pattern;
pub mod sequencer;
pub mod tempo;
pub mod voice;
