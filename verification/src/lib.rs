//! Verified core of a microphone capture pipeline.
//!
//! A platform audio callback hands native sample buffers to [`convert`],
//! which downmixes them to canonical mono 16-bit little-endian bytes. The
//! resulting [`chunk::AudioChunk`]s travel over an unbounded hand-off
//! channel to the [`aggregator::Aggregator`], which batches bytes and
//! decides when an accumulated buffer is flushed to persistent storage.
//! The channels, the clock, and the storage write live outside this crate;
//! every decision the pipeline makes on the data is verified here.
//!
//! [`convert`]: convert::convert

pub mod aggregator;
pub mod chunk;
pub mod convert;
pub mod laws;
pub mod record;
pub mod startup;
pub mod stats;
