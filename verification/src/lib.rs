//! Verified core of an automatic loudspeaker and headphone equaliser:
//! audio-format detection, decoder bookkeeping, measurement caching
//! names, typed-array decoding, optimiser catalogues and related rules.

pub mod algorithms;
pub mod api;
pub mod benchmark;
pub mod audio;
pub mod cache;
pub mod decoder;
pub mod download;
pub mod formats;
pub mod payload;
pub mod playback;
pub mod plot;
pub mod progress;
pub mod samples;
pub mod sampling;
pub mod score;
pub mod settings;
pub mod signals;
pub mod spinorama;
pub mod strategy;
pub mod text;
pub mod traces;
pub mod typed_array;
