//! The song model and the decoder for the fixed 3333-byte Sonant image.
//!
//! Knob fields keep the raw byte (or raw bit pattern) from the image; the
//! playback layer maps them onto amplitudes and frequencies. All structure
//! (offsets, wrapping octave arithmetic, enumeration checks) is decoded and
//! specified here.

use vstd::prelude::*;

use crate::consts::HEADER_LENGTH;
use crate::consts::INSTRUMENT_LENGTH;
use crate::consts::NUM_INSTRUMENTS;
use crate::consts::NUM_PATTERNS;
use crate::consts::OSCILLATOR_LENGTH;
use crate::consts::PATTERN_LENGTH;
use crate::consts::SEQUENCE_LENGTH;
use crate::consts::SONG_LENGTH;

verus! {

/// Possible decoding errors.
#[derive(Clone, Copy, Debug, PartialEq, Eq, Structural)]
pub enum Error {
    /// The image is not exactly `SONG_LENGTH` bytes long.
    FileLength,
    /// A waveform byte holds a value above 3.
    InvalidWaveform,
    /// A filter byte holds a value above 4.
    InvalidFilter,
}

/// Available wave forms.
#[derive(Clone, Copy, Debug, PartialEq, Eq, Structural)]
pub enum Waveform {
    Sine,
    Square,
    Saw,
    Triangle,
}

/// Available filters.
#[derive(Clone, Copy, Debug, PartialEq, Eq, Structural)]
pub enum Filter {
    NoFilter,
    HighPass,
    LowPass,
    BandPass,
    Notch,
}

/// One of the two oscillators of an instrument.
#[derive(Clone, Copy, Debug, PartialEq, Eq, Structural)]
pub struct Oscillator {
    /// Octave offset, stored as `(byte - 8) * 12` with 8-bit wrapping.
    pub octave: u8,
    /// Detune frequency, added to the pitch at note-on (8-bit wrapping).
    pub detune_freq: u8,
    /// Detune knob byte; the effective multiplier is `byte * 0.2 / 255 + 1`.
    pub detune: u8,
    /// Whether the squared envelope modulates the phase advance.
    pub envelope: bool,
    /// Volume knob byte; the effective gain is `byte / 255`.
    pub volume: u8,
    /// Wave form.
    pub waveform: Waveform,
}

/// Amplitude envelope of an instrument.
#[derive(Clone, Copy, Debug, PartialEq, Eq, Structural)]
pub struct Envelope {
    /// Attack, in samples at 44100 Hz.
    pub attack: u32,
    /// Sustain, in samples at 44100 Hz.
    pub sustain: u32,
    /// Release, in samples at 44100 Hz.
    pub release: u32,
    /// Master volume byte; the effective gain is `byte * 156`.
    pub master: u8,
}

/// Filtering, delay and panning settings of an instrument.
#[derive(Clone, Copy, Debug, PartialEq, Eq, Structural)]
pub struct Effects {
    /// Which filter output feeds the mix.
    pub filter: Filter,
    /// Filter cutoff: the raw IEEE-754 bit pattern of an `f32`, kept as bits.
    pub freq: u32,
    /// Resonance byte; the effective factor is `byte / 255`.
    pub resonance: u8,
    /// Delay time in eighth notes.
    pub delay_time: u8,
    /// Delay amount byte; the effective per-tap gain is `byte / 255`.
    pub delay_amount: u8,
    /// Panning frequency knob byte.
    pub pan_freq: u8,
    /// Panning amount byte; the effective amount is `byte / 512`.
    pub pan_amount: u8,
}

/// Low-frequency oscillator settings of an instrument.
#[derive(Clone, Copy, Debug, PartialEq, Eq, Structural)]
pub struct LFO {
    /// Whether the LFO modulates oscillator 0's frequency.
    pub osc0_freq: bool,
    /// Whether the LFO modulates the filter frequency.
    pub fx_freq: bool,
    /// LFO frequency knob byte.
    pub freq: u8,
    /// LFO amount byte; the effective amount is `byte / 512`.
    pub amount: u8,
    /// Wave form of the LFO.
    pub waveform: Waveform,
}

/// Tracker notes of one pattern; 0 marks a rest.
#[derive(Clone, Copy, Debug, PartialEq, Eq)]
pub struct Pattern {
    pub notes: [u8; PATTERN_LENGTH],
}

/// One instrument: two oscillators, a noise fader, an envelope, effects, an
/// LFO, the pattern sequence and the patterns themselves.
#[derive(Clone, Copy, Debug, PartialEq, Eq)]
pub struct Instrument {
    /// Oscillators 0 and 1.
    pub osc: [Oscillator; 2],
    /// Noise fader byte; the effective gain is `byte / 255`.
    pub noise_fader: u8,
    /// Amplitude envelope.
    pub env: Envelope,
    /// Effects block.
    pub fx: Effects,
    /// Low-frequency oscillator.
    pub lfo: LFO,
    /// Sequence of pattern selectors: 0 is a rest, otherwise 1-based.
    pub seq: [usize; SEQUENCE_LENGTH],
    /// The available patterns.
    pub pat: [Pattern; NUM_PATTERNS],
}

/// A decoded song: instruments, the number of sequence positions played, and
/// the quarter-note length in samples at 44100 Hz (always even).
#[derive(Clone, Copy, Debug, PartialEq, Eq)]
pub struct Song {
    pub instruments: [Instrument; NUM_INSTRUMENTS],
    pub seq_length: usize,
    pub quarter_note_length: u32,
}

/// The little-endian 32-bit integer stored at `off`.
pub open spec fn le_u32_at(b: Seq<u8>, off: int) -> u32 {
    (b[off] + b[off + 1] * 0x100 + b[off + 2] * 0x1_0000 + b[off + 3] * 0x100_0000) as u32
}

/// The quarter-note length of the image: the header word with its low bit cleared.
pub open spec fn spec_qnl(b: Seq<u8>) -> u32 {
    (le_u32_at(b, 0) - le_u32_at(b, 0) % 2) as u32
}

/// The octave offset stored for an octave knob byte: `(byte - 8) * 12` mod 256.
pub open spec fn spec_octave(b: u8) -> u8 {
    b.wrapping_sub(8).wrapping_mul(12)
}

/// The waveform a byte selects; meaningful for bytes below 4.
pub open spec fn spec_waveform(b: u8) -> Waveform
    recommends
        b < 4,
{
    if b == 0 {
        Waveform::Sine
    } else if b == 1 {
        Waveform::Square
    } else if b == 2 {
        Waveform::Saw
    } else {
        Waveform::Triangle
    }
}

/// The filter a byte selects; meaningful for bytes below 5.
pub open spec fn spec_filter(b: u8) -> Filter
    recommends
        b < 5,
{
    if b == 0 {
        Filter::NoFilter
    } else if b == 1 {
        Filter::HighPass
    } else if b == 2 {
        Filter::LowPass
    } else if b == 3 {
        Filter::BandPass
    } else {
        Filter::Notch
    }
}

/// The oscillator described by the six bytes at `off`.
pub open spec fn spec_oscillator(b: Seq<u8>, off: int) -> Oscillator {
    Oscillator {
        octave: spec_octave(b[off]),
        detune_freq: b[off + 1],
        detune: b[off + 2],
        envelope: b[off + 3] != 0,
        volume: b[off + 4],
        waveform: spec_waveform(b[off + 5]),
    }
}

/// The envelope described by the thirteen bytes at `off`.
pub open spec fn spec_envelope(b: Seq<u8>, off: int) -> Envelope {
    Envelope {
        attack: le_u32_at(b, off),
        sustain: le_u32_at(b, off + 4),
        release: le_u32_at(b, off + 8),
        master: b[off + 12],
    }
}

/// The effects block described by the twelve bytes at `off` (the filter byte).
pub open spec fn spec_effects(b: Seq<u8>, off: int) -> Effects {
    Effects {
        filter: spec_filter(b[off]),
        freq: le_u32_at(b, off + 3),
        resonance: b[off + 7],
        delay_time: b[off + 8],
        delay_amount: b[off + 9],
        pan_freq: b[off + 10],
        pan_amount: b[off + 11],
    }
}

/// The LFO described by the five bytes at `off`.
pub open spec fn spec_lfo(b: Seq<u8>, off: int) -> LFO {
    LFO {
        osc0_freq: b[off] != 0,
        fx_freq: b[off + 1] != 0,
        freq: b[off + 2],
        amount: b[off + 3],
        waveform: spec_waveform(b[off + 4]),
    }
}

/// Start of the `i`-th instrument block within the image.
pub open spec fn inst_off(i: int) -> int {
    HEADER_LENGTH + i * INSTRUMENT_LENGTH
}

/// Whether `inst` is the instrument described by the block at `off`.
pub open spec fn instrument_matches(inst: Instrument, b: Seq<u8>, off: int) -> bool {
    &&& inst.osc[0] == spec_oscillator(b, off)
    &&& inst.osc[1] == spec_oscillator(b, off + 6)
    &&& inst.noise_fader == b[off + 12]
    &&& inst.env == spec_envelope(b, off + 16)
    &&& inst.fx == spec_effects(b, off + 29)
    &&& inst.lfo == spec_lfo(b, off + 41)
    &&& forall|k: int| 0 <= k < SEQUENCE_LENGTH ==> inst.seq[k] == b[off + 46 + k] as usize
    &&& forall|p: int, n: int|
        0 <= p < NUM_PATTERNS && 0 <= n < PATTERN_LENGTH ==> inst.pat[p].notes[n] == b[off + 94
            + 32 * p + n]
}

/// Whether `song` is the song described by the image `b`.
pub open spec fn song_matches(song: Song, b: Seq<u8>) -> bool {
    &&& song.quarter_note_length == spec_qnl(b)
    &&& song.seq_length == b[SONG_LENGTH - 1] as usize
    &&& forall|i: int|
        0 <= i < NUM_INSTRUMENTS ==> instrument_matches(
            #[trigger] song.instruments[i],
            b,
            inst_off(i),
        )
}

/// The first decoding error in the instrument block at `off`, in the order the
/// decoder meets the checked bytes: oscillator 0 and 1 waveforms, the filter,
/// then the LFO waveform.
pub open spec fn inst_err(b: Seq<u8>, off: int) -> Option<Error> {
    if b[off + 5] >= 4 {
        Some(Error::InvalidWaveform)
    } else if b[off + 11] >= 4 {
        Some(Error::InvalidWaveform)
    } else if b[off + 29] >= 5 {
        Some(Error::InvalidFilter)
    } else if b[off + 45] >= 4 {
        Some(Error::InvalidWaveform)
    } else {
        None
    }
}

/// The first decoding error among the instrument blocks from `i` upward.
pub open spec fn first_inst_err(b: Seq<u8>, i: int) -> Option<Error>
    decreases NUM_INSTRUMENTS - i,
{
    if i < 0 || i >= NUM_INSTRUMENTS {
        None
    } else if inst_err(b, inst_off(i)) is Some {
        inst_err(b, inst_off(i))
    } else {
        first_inst_err(b, i + 1)
    }
}

/// What decoding the image `b` reports: `None` when it succeeds, otherwise the
/// error, with the length checked before any instrument.
pub open spec fn decode_err(b: Seq<u8>) -> Option<Error> {
    if b.len() != SONG_LENGTH {
        Some(Error::FileLength)
    } else {
        first_inst_err(b, 0)
    }
}

/// Read the little-endian `u32` at `i`.
fn read_u32_le(slice: &[u8], i: usize) -> (r: u32)
    requires
        i + 4 <= slice.len(),
    ensures
        r == le_u32_at(slice@, i as int),
{
    let b0: u32 = slice[i] as u32;
    let b1: u32 = slice[i + 1] as u32;
    let b2: u32 = slice[i + 2] as u32;
    let b3: u32 = slice[i + 3] as u32;
    b0 + b1 * 0x100 + b2 * 0x1_0000 + b3 * 0x100_0000
}

/// Decode a waveform byte; bytes above 3 are rejected.
pub fn parse_waveform(waveform: u8) -> (r: Result<Waveform, Error>)
    ensures
        waveform < 4 ==> r == Ok::<Waveform, Error>(spec_waveform(waveform)),
        waveform >= 4 ==> r == Err::<Waveform, Error>(Error::InvalidWaveform),
{
    match waveform {
        0 => Ok(Waveform::Sine),
        1 => Ok(Waveform::Square),
        2 => Ok(Waveform::Saw),
        3 => Ok(Waveform::Triangle),
        _ => Err(Error::InvalidWaveform),
    }
}

/// Decode the oscillator `o` of the instrument block starting at `i`.
fn load_oscillator(slice: &[u8], i: usize, o: usize) -> (r: Result<Oscillator, Error>)
    requires
        o < 2,
        i + o * OSCILLATOR_LENGTH + OSCILLATOR_LENGTH <= slice.len(),
    ensures
        ({
            let off = i + o * OSCILLATOR_LENGTH;
            match r {
                Ok(osc) => slice@[off + 5] < 4 && osc == spec_oscillator(slice@, off as int),
                Err(e) => slice@[off + 5] >= 4 && e == Error::InvalidWaveform,
            }
        }),
{
    let i = i + o * OSCILLATOR_LENGTH;
    let octave = slice[i].wrapping_sub(8).wrapping_mul(12);
    let detune_freq = slice[i + 1];
    let detune = slice[i + 2];
    let envelope = slice[i + 3] != 0;
    let volume = slice[i + 4];
    let waveform = match parse_waveform(slice[i + 5]) {
        Ok(w) => w,
        Err(e) => {
            return Err(e);
        },
    };

    Ok(Oscillator { octave, detune_freq, detune, envelope, volume, waveform })
}

/// Decode the envelope stored at `i`.
fn load_envelope(slice: &[u8], i: usize) -> (r: Envelope)
    requires
        i + 13 <= slice.len(),
    ensures
        r == spec_envelope(slice@, i as int),
{
    let attack = read_u32_le(slice, i);
    let sustain = read_u32_le(slice, i + 4);
    let release = read_u32_le(slice, i + 8);
    let master = slice[i + 12];

    Envelope { attack, sustain, release, master }
}

/// Decode the effects block whose filter byte sits at `i`.
fn load_effects(slice: &[u8], i: usize) -> (r: Result<Effects, Error>)
    requires
        i + 12 <= slice.len(),
    ensures
        match r {
            Ok(fx) => slice@[i as int] < 5 && fx == spec_effects(slice@, i as int),
            Err(e) => slice@[i as int] >= 5 && e == Error::InvalidFilter,
        },
{
    let filter = match slice[i] {
        0 => Filter::NoFilter,
        1 => Filter::HighPass,
        2 => Filter::LowPass,
        3 => Filter::BandPass,
        4 => Filter::Notch,
        _ => {
            return Err(Error::InvalidFilter);
        },
    };
    let i = i + 3;
    let freq = read_u32_le(slice, i);
    let resonance = slice[i + 4];
    let delay_time = slice[i + 5];
    let delay_amount = slice[i + 6];
    let pan_freq = slice[i + 7];
    let pan_amount = slice[i + 8];

    Ok(Effects { filter, freq, resonance, delay_time, delay_amount, pan_freq, pan_amount })
}

/// Decode the LFO stored at `i`.
fn load_lfo(slice: &[u8], i: usize) -> (r: Result<LFO, Error>)
    requires
        i + 5 <= slice.len(),
    ensures
        match r {
            Ok(lfo) => slice@[i + 4] < 4 && lfo == spec_lfo(slice@, i as int),
            Err(e) => slice@[i + 4] >= 4 && e == Error::InvalidWaveform,
        },
{
    let osc0_freq = slice[i] != 0;
    let fx_freq = slice[i + 1] != 0;
    let freq = slice[i + 2];
    let amount = slice[i + 3];
    let waveform = match parse_waveform(slice[i + 4]) {
        Ok(w) => w,
        Err(e) => {
            return Err(e);
        },
    };

    Ok(LFO { osc0_freq, fx_freq, freq, amount, waveform })
}

/// Decode the 48 sequence entries stored at `i`.
pub fn load_sequence(slice: &[u8], i: usize) -> (r: [usize; SEQUENCE_LENGTH])
    requires
        i + SEQUENCE_LENGTH <= slice.len(),
    ensures
        forall|k: int| 0 <= k < SEQUENCE_LENGTH ==> r[k] == slice@[i + k] as usize,
{
    let mut seq: [usize; SEQUENCE_LENGTH] = [0; SEQUENCE_LENGTH];
    for k in 0..SEQUENCE_LENGTH
        invariant
            i + SEQUENCE_LENGTH <= slice.len(),
            forall|j: int| 0 <= j < k ==> seq[j] == slice@[i + j] as usize,
    {
        seq[k] = slice[i + k] as usize;
    }
    seq
}

/// Decode the pattern `p` of the pattern table starting at `i`.
pub fn load_pattern(slice: &[u8], i: usize, p: usize) -> (r: Pattern)
    requires
        p < NUM_PATTERNS,
        i + p * PATTERN_LENGTH + PATTERN_LENGTH <= slice.len(),
    ensures
        forall|n: int| 0 <= n < PATTERN_LENGTH ==> r.notes[n] == slice@[i + p * PATTERN_LENGTH + n],
{
    let i = i + p * PATTERN_LENGTH;
    let mut notes: [u8; PATTERN_LENGTH] = [0; PATTERN_LENGTH];
    for n in 0..PATTERN_LENGTH
        invariant
            i + PATTERN_LENGTH <= slice.len(),
            forall|j: int| 0 <= j < n ==> notes[j] == slice@[i + j],
    {
        notes[n] = slice[i + n];
    }

    Pattern { notes }
}

/// Decode the `i`-th instrument block of the image.
fn load_instrument(slice: &[u8], i: usize) -> (r: Result<Instrument, Error>)
    requires
        i < NUM_INSTRUMENTS,
        slice.len() == SONG_LENGTH,
    ensures
        match r {
            Ok(inst) => inst_err(slice@, inst_off(i as int)) is None && instrument_matches(
                inst,
                slice@,
                inst_off(i as int),
            ),
            Err(e) => inst_err(slice@, inst_off(i as int)) == Some(e),
        },
{
    let ghost idx: int = i as int;
    let i = HEADER_LENGTH + i * INSTRUMENT_LENGTH;
    let osc0 = match load_oscillator(slice, i, 0) {
        Ok(o) => o,
        Err(e) => {
            return Err(e);
        },
    };
    let osc1 = match load_oscillator(slice, i, 1) {
        Ok(o) => o,
        Err(e) => {
            return Err(e);
        },
    };
    let osc = [osc0, osc1];

    let i = i + OSCILLATOR_LENGTH * 2;
    let noise_fader = slice[i];

    let i = i + 4;
    let env = load_envelope(slice, i);

    let i = i + 13;
    let fx = match load_effects(slice, i) {
        Ok(f) => f,
        Err(e) => {
            return Err(e);
        },
    };

    let i = i + 12;
    let lfo = match load_lfo(slice, i) {
        Ok(l) => l,
        Err(e) => {
            return Err(e);
        },
    };

    let i = i + 5;
    let seq = load_sequence(slice, i);

    let i = i + SEQUENCE_LENGTH;
    let mut pat: [Pattern; NUM_PATTERNS] = [Pattern { notes: [0; PATTERN_LENGTH] }; NUM_PATTERNS];
    for j in 0..NUM_PATTERNS
        invariant
            i as int == inst_off(idx) + 94,
            i + NUM_PATTERNS * PATTERN_LENGTH <= slice.len(),
            forall|p: int, n: int|
                0 <= p < j && 0 <= n < PATTERN_LENGTH ==> pat[p as int].notes[n] == slice@[inst_off(
                    idx,
                ) + 94 + 32 * p + n],
    {
        pat[j] = load_pattern(slice, i, j);
    }

    Ok(Instrument { osc, noise_fader, env, fx, lfo, seq, pat })
}

/// An all-zero instrument, used to pre-fill the instrument array before the
/// decoded blocks replace it.
fn empty_instrument() -> Instrument {
    let osc = Oscillator {
        octave: 0,
        detune_freq: 0,
        detune: 0,
        envelope: false,
        volume: 0,
        waveform: Waveform::Sine,
    };
    Instrument {
        osc: [osc, osc],
        noise_fader: 0,
        env: Envelope { attack: 0, sustain: 0, release: 0, master: 0 },
        fx: Effects {
            filter: Filter::NoFilter,
            freq: 0,
            resonance: 0,
            delay_time: 0,
            delay_amount: 0,
            pan_freq: 0,
            pan_amount: 0,
        },
        lfo: LFO { osc0_freq: false, fx_freq: false, freq: 0, amount: 0, waveform: Waveform::Sine },
        seq: [0; SEQUENCE_LENGTH],
        pat: [Pattern { notes: [0; PATTERN_LENGTH] }; NUM_PATTERNS],
    }
}

/// When the instrument blocks from `k` up to `i` decode cleanly, the first
/// error from `k` onward is the first error from `i` onward.
proof fn lemma_first_err_prefix(b: Seq<u8>, k: int, i: int)
    requires
        0 <= k <= i <= NUM_INSTRUMENTS,
        forall|j: int| k <= j < i ==> #[trigger] inst_err(b, inst_off(j)) is None,
    ensures
        first_inst_err(b, k) == first_inst_err(b, i),
    decreases i - k,
{
    if k < i {
        assert(inst_err(b, inst_off(k)) is None);
        lemma_first_err_prefix(b, k + 1, i);
    }
}

impl Song {
    /// Create a new `Song` from a byte slice holding a complete song image.
    ///
    /// The image must be exactly [`SONG_LENGTH`] bytes; the decoded song
    /// mirrors it field for field, with the quarter-note length forced even.
    pub fn from_slice(slice: &[u8]) -> (r: Result<Song, Error>)
        ensures
            match r {
                Ok(song) => decode_err(slice@) is None && song_matches(song, slice@),
                Err(e) => decode_err(slice@) == Some(e),
            },
    {
        if slice.len() != SONG_LENGTH {
            return Err(Error::FileLength);
        }

        // Get quarter note length (in samples), clearing the low bit so that
        // the eighth note length is exactly half of it.
        let quarter_note_length = read_u32_le(slice, 0);
        let quarter_note_length = quarter_note_length - quarter_note_length % 2;

        let seq_length = slice[HEADER_LENGTH + INSTRUMENT_LENGTH * NUM_INSTRUMENTS] as usize;

        let mut instruments: [Instrument; NUM_INSTRUMENTS] =
            [empty_instrument(); NUM_INSTRUMENTS];
        for i in 0..NUM_INSTRUMENTS
            invariant
                slice.len() == SONG_LENGTH,
                forall|j: int|
                    0 <= j < i ==> #[trigger] inst_err(slice@, inst_off(j)) is None
                        && instrument_matches(instruments[j], slice@, inst_off(j)),
        {
            match load_instrument(slice, i) {
                Ok(inst) => {
                    instruments[i] = inst;
                },
                Err(e) => {
                    proof {
                        lemma_first_err_prefix(slice@, 0, i as int);
                    }
                    return Err(e);
                },
            }
        }

        proof {
            lemma_first_err_prefix(slice@, 0, NUM_INSTRUMENTS as int);
            assert forall|j: int| 0 <= j < NUM_INSTRUMENTS implies instrument_matches(
                #[trigger] instruments[j],
                slice@,
                inst_off(j),
            ) by {
                assert(inst_err(slice@, inst_off(j)) is None);
            }
        }
        Ok(Song { instruments, seq_length, quarter_note_length })
    }
}

/// Decoding succeeds on every image of the right length whose waveform bytes
/// are below 4 and whose filter bytes are below 5, at every checked offset.
pub proof fn lemma_decode_total(b: Seq<u8>)
    requires
        b.len() == SONG_LENGTH,
        forall|i: int|
            0 <= i < NUM_INSTRUMENTS ==> #[trigger] b[inst_off(i) + 5] < 4 && b[inst_off(i) + 11]
                < 4 && b[inst_off(i) + 29] < 5 && b[inst_off(i) + 45] < 4,
    ensures
        decode_err(b) is None,
{
    assert forall|j: int| 0 <= j < NUM_INSTRUMENTS implies #[trigger] inst_err(
        b,
        inst_off(j),
    ) is None by {
        assert(b[inst_off(j) + 5] < 4);
    }
    lemma_first_err_prefix(b, 0, NUM_INSTRUMENTS as int);
}

/// Decoding fails with `FileLength` on every image of the wrong length.
pub proof fn lemma_decode_wrong_length(b: Seq<u8>)
    requires
        b.len() != SONG_LENGTH,
    ensures
        decode_err(b) == Some(Error::FileLength),
{
}

/// Every decoded song has an even quarter-note length.
pub proof fn lemma_decoded_qnl_even(song: Song, b: Seq<u8>)
    requires
        song_matches(song, b),
    ensures
        song.quarter_note_length % 2 == 0,
{
    let x = le_u32_at(b, 0) as int;
    assert(x - x % 2 == 2 * (x / 2));
    assert((2 * (x / 2)) % 2 == 0);
}

/// A decoded instrument mirrors the image's sequence bytes, so whenever those
/// bytes stay within the pattern count, every decoded pattern selector does
/// too; and every decoded note byte fits in `0..=255`.
pub proof fn lemma_decoded_ranges(song: Song, b: Seq<u8>)
    requires
        song_matches(song, b),
        forall|i: int, k: int|
            0 <= i < NUM_INSTRUMENTS && 0 <= k < SEQUENCE_LENGTH ==> #[trigger] b[inst_off(i) + 46
                + k] <= NUM_PATTERNS,
    ensures
        forall|i: int, k: int|
            0 <= i < NUM_INSTRUMENTS && 0 <= k < SEQUENCE_LENGTH
                ==> #[trigger] song.instruments[i].seq[k] <= NUM_PATTERNS,
        forall|i: int, p: int, n: int|
            0 <= i < NUM_INSTRUMENTS && 0 <= p < NUM_PATTERNS && 0 <= n < PATTERN_LENGTH
                ==> #[trigger] song.instruments[i].pat[p].notes[n] <= 255,
{
    assert forall|i: int, k: int|
        0 <= i < NUM_INSTRUMENTS && 0 <= k < SEQUENCE_LENGTH
        implies #[trigger] song.instruments[i].seq[k] <= NUM_PATTERNS by {
        assert(instrument_matches(song.instruments[i], b, inst_off(i)));
        assert(song.instruments[i].seq[k] == b[inst_off(i) + 46 + k] as usize);
    }
}

} // verus!
