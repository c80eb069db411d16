//! Fixed dimensions of the Sonant song format and of the synthesizer state.

use vstd::prelude::*;

verus! {

/// Stereo output: one sample for the left and one for the right channel.
pub const NUM_CHANNELS: usize = 2;

/// A song always carries this many instruments.
pub const NUM_INSTRUMENTS: usize = 8;

/// Patterns available to each instrument.
pub const NUM_PATTERNS: usize = 10;

/// Voice slots per track: at most this many notes overlap on one instrument.
pub const MAX_OVERLAPPING_NOTES: usize = 8;

/// Bytes before the first instrument block (the quarter-note length).
pub const HEADER_LENGTH: usize = 4;

/// Bytes in one instrument block.
pub const INSTRUMENT_LENGTH: usize = 416;

/// Bytes after the last instrument block (the sequence length).
pub const FOOTER_LENGTH: usize = 1;

/// Total size of a song image: 4 + 416 * 8 + 1.
pub const SONG_LENGTH: usize = 3333;

/// Bytes in one oscillator block.
pub const OSCILLATOR_LENGTH: usize = 6;

/// Entries in each instrument's pattern sequence.
pub const SEQUENCE_LENGTH: usize = 48;

/// Note bytes in one pattern.
pub const PATTERN_LENGTH: usize = 32;

} // verus!
