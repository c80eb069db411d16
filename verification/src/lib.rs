//! Decoder and sequencing core for Sonant tracker songs.
//!
//! A song arrives as a fixed 3333-byte image. [`Song::from_slice`] parses it
//! into a [`Song`]; the [`synth`] module drives the tracker transport over a
//! decoded song, one sample frame at a time, and reports which notes start on
//! which voice slots. Everything that turns those decisions into audible
//! samples is floating-point work and lives with the embedding application.

pub mod consts;
pub mod errors;
pub mod song;
pub mod synth;

pub use song::Error;
pub use song::Song;
