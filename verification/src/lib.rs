//! A deterministic, seeded composer for short piano pieces.
//!
//! The crate generates a melodic line over a fixed harmonic progression and
//! renders the result either as Lilypond notation text or as a timeline of
//! MIDI-like note events.  The pitch model, the duration encoder, the harmony
//! tables and the output sinks live here; randomness enters only through a
//! seeded generator, so a run is reproducible from its configuration and seed.

pub mod config;
pub mod duration;
pub mod harmony;
pub mod lily;
pub mod melody;
pub mod midi;
pub mod pitch;
pub mod rng;
pub mod score;
pub mod text;
