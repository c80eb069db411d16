//! The tracker transport of the synthesizer: timing, note scheduling, voice
//! allocation and stealing, and delay-tap retriggering.
//!
//! [`Sequencer`] advances one sample frame at a time over a decoded
//! [`Song`] and reports every note start as a [`NoteOn`] event. The embedding
//! application turns those events and the per-voice envelope phases into
//! floating-point samples; everything decided here is integer arithmetic and
//! is specified exactly by the `spec_*` model functions.

use vstd::prelude::*;

use crate::consts::MAX_OVERLAPPING_NOTES;
use crate::consts::NUM_INSTRUMENTS;
use crate::consts::NUM_PATTERNS;
use crate::consts::PATTERN_LENGTH;
use crate::consts::SEQUENCE_LENGTH;
use crate::song::Envelope;
use crate::song::Oscillator;
use crate::song::Song;

verus! {

/// One voice slot of a track; a `pitch` of 0 marks the slot empty.
#[derive(Clone, Copy, Debug, PartialEq, Eq, Structural)]
pub struct Voice {
    /// Note pitch; 0 when the slot is empty.
    pub pitch: u8,
    /// Sample index at which the voice started.
    pub sample_count: u32,
    /// Delay round that produced the voice: 0 for a note struck directly,
    /// `r >= 1` for the `r`-th delay tap, whose gain is the delay amount to
    /// the `r`-th power.
    pub round: u32,
    /// Whether the stereo channels are swapped (odd delay rounds).
    pub swap_stereo: bool,
}

/// Playback state of one instrument track.
#[derive(Clone, Copy, Debug, PartialEq, Eq)]
pub struct Track {
    /// The instrument's envelope, rescaled to the output sample rate.
    pub env: Envelope,
    /// The voice slots; at most this many notes overlap on the track.
    pub voices: [Voice; MAX_OVERLAPPING_NOTES],
    /// Samples between delay taps.
    pub delay_samples: u32,
    /// How many delay taps are replayed.
    pub delay_count: u32,
}

/// A note started: which track and slot it took and how its oscillators are
/// pitched. Emitted by the transport so the sample generator can reset the
/// slot's phase, filter memory and gain.
#[derive(Clone, Copy, Debug, PartialEq, Eq, Structural)]
pub struct NoteOn {
    /// Track (instrument index) the note plays on.
    pub track: usize,
    /// Voice slot the note took.
    pub slot: usize,
    /// The pattern's pitch byte.
    pub pitch: u8,
    /// Effective pitch of oscillator 0: pitch + octave + detune, mod 256.
    pub osc0_pitch: u8,
    /// Effective pitch of oscillator 1: pitch + octave + detune, mod 256.
    pub osc1_pitch: u8,
    /// Delay round: 0 for a direct strike, `r >= 1` for the `r`-th tap.
    pub round: u32,
    /// Whether the stereo channels are swapped.
    pub swap_stereo: bool,
}

/// Where a voice stands in its amplitude envelope at the current frame.
#[derive(Clone, Copy, Debug, PartialEq, Eq, Structural)]
pub enum EnvPhase {
    /// Rising: the gain is `pos / attack`.
    Attack { pos: u32, attack: u32 },
    /// Held at full gain.
    Hold,
    /// Falling: the gain is `1 - pos / release`.
    Release { pos: u32, release: u32 },
    /// The envelope has elapsed; the voice slot was cleared.
    Ended,
}

/// The mathematical state of a [`Sequencer`]: every contract below pins the
/// transport down as a function over this model.
#[verifier::ext_equal]
pub struct SynthModel {
    /// Samples per quarter note at the output rate.
    pub quarter_note_length: u32,
    /// Samples per eighth note: half the quarter-note length.
    pub eighth_note_length: u32,
    /// Current sequence position; capped at `seq_length + 1`.
    pub seq_count: int,
    /// Current note column within the pattern.
    pub note_count: int,
    /// Samples produced since the start.
    pub sample_count: u32,
    /// Rescaled envelope of each track.
    pub envs: Seq<Envelope>,
    /// Samples between delay taps, per track.
    pub delay_samples: Seq<u32>,
    /// Number of delay taps, per track.
    pub delay_counts: Seq<u32>,
    /// The voice slots of each track.
    pub voices: Seq<Seq<Voice>>,
}

/// The tracker transport. It owns all per-playback integer state; the song
/// itself is handed to each call, and the caller must pass the same song the
/// sequencer was built for.
#[derive(Clone, Copy, Debug, PartialEq, Eq)]
pub struct Sequencer {
    /// Samples per quarter note at the output rate.
    pub quarter_note_length: u32,
    /// Samples per eighth note.
    pub eighth_note_length: u32,
    /// Current sequence position; capped at `seq_length + 1`.
    pub seq_count: usize,
    /// Current note column within the pattern.
    pub note_count: usize,
    /// Samples produced since the start.
    pub sample_count: u32,
    /// Playback state of the eight tracks.
    pub tracks: [Track; NUM_INSTRUMENTS],
}

/// Whether the transport can play `song` without ever leaving its tables:
/// every played sequence position must be a valid index, and every selector
/// must name an existing pattern (or a rest).
pub open spec fn spec_playable(song: Song) -> bool {
    &&& song.seq_length < SEQUENCE_LENGTH
    &&& forall|i: int, k: int|
        0 <= i < NUM_INSTRUMENTS && 0 <= k < SEQUENCE_LENGTH
            ==> #[trigger] song.instruments[i].seq[k] <= NUM_PATTERNS
}

/// Decide [`spec_playable`] for a song.
pub fn playable(song: &Song) -> (r: bool)
    ensures
        r == spec_playable(*song),
{
    if song.seq_length >= SEQUENCE_LENGTH {
        return false;
    }
    for i in 0..NUM_INSTRUMENTS
        invariant
            forall|i2: int, k: int|
                0 <= i2 < i && 0 <= k < SEQUENCE_LENGTH
                    ==> #[trigger] song.instruments[i2].seq[k] <= NUM_PATTERNS,
    {
        for k in 0..SEQUENCE_LENGTH
            invariant
                i < NUM_INSTRUMENTS,
                forall|i2: int, k2: int|
                    0 <= i2 < i && 0 <= k2 < SEQUENCE_LENGTH
                        ==> #[trigger] song.instruments[i2].seq[k2] <= NUM_PATTERNS,
                forall|k2: int|
                    0 <= k2 < k ==> #[trigger] song.instruments[i as int].seq[k2] <= NUM_PATTERNS,
        {
            if song.instruments[i].seq[k] > NUM_PATTERNS {
                return false;
            }
        }
    }
    true
}

/// The first empty slot of `voices` from index `i` on, if any.
pub open spec fn first_empty_from(voices: Seq<Voice>, i: int) -> Option<int>
    decreases voices.len() - i,
{
    if i < 0 || i >= voices.len() {
        None
    } else if voices[i].pitch == 0 {
        Some(i)
    } else {
        first_empty_from(voices, i + 1)
    }
}

/// The slot of the oldest voice among `best` and the slots from `i` on:
/// smallest sample count, earliest slot on ties.
pub open spec fn oldest_from(voices: Seq<Voice>, i: int, best: int) -> int
    decreases voices.len() - i,
{
    if i < 0 || i >= voices.len() {
        best
    } else if voices[i].sample_count < voices[best].sample_count {
        oldest_from(voices, i + 1, i)
    } else {
        oldest_from(voices, i + 1, best)
    }
}

/// The slot a new note takes: the first empty slot if one exists, else the
/// slot of the oldest voice (the stealing policy).
pub open spec fn spec_note_slot(voices: Seq<Voice>) -> int
    recommends
        voices.len() > 0,
{
    match first_empty_from(voices, 0) {
        Some(j) => j,
        None => oldest_from(voices, 1, 0),
    }
}

/// Skipping a non-empty slot does not change the first empty slot.
proof fn lemma_first_empty_skip(voices: Seq<Voice>, i: int)
    requires
        0 <= i < voices.len(),
        voices[i].pitch != 0,
    ensures
        first_empty_from(voices, i) == first_empty_from(voices, i + 1),
{
}

/// Get the index of the first empty slot in `notes`, or of the oldest voice
/// when every slot is taken.
pub fn get_note_slot(notes: &[Voice; MAX_OVERLAPPING_NOTES]) -> (j: usize)
    ensures
        j < MAX_OVERLAPPING_NOTES,
        j == spec_note_slot(notes@),
{
    // Find the first empty slot.
    for i in 0..MAX_OVERLAPPING_NOTES
        invariant
            first_empty_from(notes@, 0) == first_empty_from(notes@, i as int),
    {
        if notes[i].pitch == 0 {
            return i;
        }
        proof {
            lemma_first_empty_skip(notes@, i as int);
        }
    }

    // Every slot is taken: use the oldest voice.
    let mut best: usize = 0;
    for i in 1..MAX_OVERLAPPING_NOTES
        invariant
            best < i <= MAX_OVERLAPPING_NOTES,
            first_empty_from(notes@, 0) is None,
            oldest_from(notes@, i as int, best as int) == oldest_from(notes@, 1, 0),
    {
        if notes[i].sample_count < notes[best].sample_count {
            best = i;
        }
    }
    best
}

/// The effective pitch an oscillator plays a note at: the pattern pitch plus
/// the octave offset plus the detune frequency, all mod 256.
pub open spec fn spec_osc_pitch(pitch: u8, osc: Oscillator) -> u8 {
    pitch.wrapping_add(osc.octave).wrapping_add(osc.detune_freq)
}

/// What adding a note to track `i` at sequence position `s`, note column `n`
/// does to the transport: nothing for a rest, otherwise the chosen voice slot
/// is overwritten and one event is reported.
pub open spec fn spec_add_note(
    m: SynthModel,
    song: Song,
    i: int,
    s: int,
    n: int,
    round: u32,
    swap_stereo: bool,
) -> (SynthModel, Seq<NoteOn>)
    recommends
        spec_playable(song),
        0 <= i < NUM_INSTRUMENTS,
        0 <= s < SEQUENCE_LENGTH,
        0 <= n < PATTERN_LENGTH,
{
    let inst = song.instruments[i];
    let p = inst.seq[s];
    if p == 0 {
        (m, Seq::empty())
    } else {
        let pitch = inst.pat[p - 1].notes[n];
        if pitch == 0 {
            (m, Seq::empty())
        } else {
            let j = spec_note_slot(m.voices[i]);
            let v = Voice { pitch, sample_count: m.sample_count, round, swap_stereo };
            let ev = NoteOn {
                track: i as usize,
                slot: j as usize,
                pitch,
                osc0_pitch: spec_osc_pitch(pitch, inst.osc[0]),
                osc1_pitch: spec_osc_pitch(pitch, inst.osc[1]),
                round,
                swap_stereo,
            };
            (
                SynthModel { voices: m.voices.update(i, m.voices[i].update(j, v)), ..m },
                seq![ev],
            )
        }
    }
}

impl Sequencer {
    /// The mathematical state of the transport.
    pub open spec fn model(self) -> SynthModel {
        SynthModel {
            quarter_note_length: self.quarter_note_length,
            eighth_note_length: self.eighth_note_length,
            seq_count: self.seq_count as int,
            note_count: self.note_count as int,
            sample_count: self.sample_count,
            envs: Seq::new(NUM_INSTRUMENTS as nat, |i: int| self.tracks[i].env),
            delay_samples: Seq::new(NUM_INSTRUMENTS as nat, |i: int| self.tracks[i].delay_samples),
            delay_counts: Seq::new(NUM_INSTRUMENTS as nat, |i: int| self.tracks[i].delay_count),
            voices: Seq::new(
                NUM_INSTRUMENTS as nat,
                |i: int| Seq::new(MAX_OVERLAPPING_NOTES as nat, |j: int| self.tracks[i].voices[j]),
            ),
        }
    }

    /// The state invariant the transport keeps: the song is playable, a
    /// quarter note spans at least one sample, the note column is within the
    /// pattern and the sequence position never passes one past the end.
    pub open spec fn wf(self, song: Song) -> bool {
        &&& spec_playable(song)
        &&& self.quarter_note_length >= 1
        &&& self.note_count < PATTERN_LENGTH
        &&& self.seq_count <= song.seq_length + 1
    }

    /// Overwrite one voice slot; in the model this is a plain update of the
    /// nested voice sequence, with everything else unchanged.
    fn set_voice(&mut self, i: usize, j: usize, v: Voice)
        requires
            i < NUM_INSTRUMENTS,
            j < MAX_OVERLAPPING_NOTES,
        ensures
            final(self).model() == (SynthModel {
                voices: old(self).model().voices.update(
                    i as int,
                    old(self).model().voices[i as int].update(j as int, v),
                ),
                ..old(self).model()
            }),
    {
        self.tracks[i].voices[j] = v;
        proof {
            let m0 = old(self).model();
            let m2 = SynthModel {
                voices: m0.voices.update(i as int, m0.voices[i as int].update(j as int, v)),
                ..m0
            };
            assert forall|t: int| 0 <= t < NUM_INSTRUMENTS implies {
                &&& self.model().envs[t] == m2.envs[t]
                &&& self.model().delay_samples[t] == m2.delay_samples[t]
                &&& self.model().delay_counts[t] == m2.delay_counts[t]
                &&& self.model().voices[t] == m2.voices[t]
            } by {
                if t == i as int {
                    assert forall|j2: int|
                        0 <= j2 < MAX_OVERLAPPING_NOTES implies self.model().voices[t][j2]
                        == m2.voices[t][j2] by {
                        if j2 != j as int {
                            assert(self.tracks[t].voices[j2] == old(self).tracks[t].voices[j2]);
                        }
                    }
                    assert(self.model().voices[t] =~= m2.voices[t]);
                } else {
                    assert(self.tracks[t] == old(self).tracks[t]);
                    assert(self.model().voices[t] =~= m2.voices[t]);
                }
            }
            assert(self.model().envs =~= m2.envs);
            assert(self.model().delay_samples =~= m2.delay_samples);
            assert(self.model().delay_counts =~= m2.delay_counts);
            assert(self.model().voices =~= m2.voices);
            assert(self.model() =~~= m2);
        }
    }

    /// Add a note to track `i` for sequence position `s` and note column `n`.
    /// `round` is 0 when the note is struck directly and the delay round when
    /// it is a delay tap.
    pub fn add_note(
        &mut self,
        song: &Song,
        i: usize,
        s: usize,
        n: usize,
        round: u32,
        swap_stereo: bool,
    ) -> (ev: Option<NoteOn>)
        requires
            spec_playable(*song),
            i < NUM_INSTRUMENTS,
            s < SEQUENCE_LENGTH,
            n < PATTERN_LENGTH,
        ensures
            ({
                let (m2, evs) = spec_add_note(
                    old(self).model(),
                    *song,
                    i as int,
                    s as int,
                    n as int,
                    round,
                    swap_stereo,
                );
                &&& final(self).model() == m2
                &&& match ev {
                    Some(e) => evs == seq![e],
                    None => evs == Seq::<NoteOn>::empty(),
                }
            }),
    {
        let inst = &song.instruments[i];

        // Get the pattern index; 0 is a rest.
        let p = inst.seq[s];
        if p == 0 {
            return None;
        }

        // Get the note pitch; 0 is a rest.
        let pitch = inst.pat[p - 1].notes[n];
        if pitch == 0 {
            return None;
        }

        // Take a voice slot and start the note on it.
        let j = get_note_slot(&self.tracks[i].voices);
        proof {
            assert(old(self).model().voices[i as int] =~= old(self).tracks[i as int].voices@);
        }
        self.set_voice(i, j, Voice { pitch, sample_count: self.sample_count, round, swap_stereo });

        let osc0_pitch = pitch.wrapping_add(inst.osc[0].octave).wrapping_add(
            inst.osc[0].detune_freq,
        );
        let osc1_pitch = pitch.wrapping_add(inst.osc[1].octave).wrapping_add(
            inst.osc[1].detune_freq,
        );

        Some(NoteOn { track: i, slot: j, pitch, osc0_pitch, osc1_pitch, round, swap_stereo })
    }
}

/// The dimensions every reachable model state has: eight tracks, each with
/// eight voice slots and its static setup.
pub open spec fn model_dims(m: SynthModel) -> bool {
    &&& m.voices.len() == NUM_INSTRUMENTS
    &&& forall|t: int|
        0 <= t < NUM_INSTRUMENTS ==> #[trigger] m.voices[t].len() == MAX_OVERLAPPING_NOTES
    &&& m.envs.len() == NUM_INSTRUMENTS
    &&& m.delay_samples.len() == NUM_INSTRUMENTS
    &&& m.delay_counts.len() == NUM_INSTRUMENTS
}

/// The model of any sequencer value has the fixed dimensions.
proof fn lemma_model_dims(s: Sequencer)
    ensures
        model_dims(s.model()),
{
}

/// A first empty slot lies within the scanned range and is empty.
proof fn lemma_first_empty_in_range(voices: Seq<Voice>, i: int)
    ensures
        match first_empty_from(voices, i) {
            Some(j) => i <= j < voices.len() && voices[j].pitch == 0,
            None => true,
        },
    decreases voices.len() - i,
{
    if 0 <= i < voices.len() && voices[i].pitch != 0 {
        lemma_first_empty_in_range(voices, i + 1);
    }
}

/// The oldest-voice scan lands on `best` or within the scanned range.
proof fn lemma_oldest_in_range(voices: Seq<Voice>, i: int, best: int)
    ensures
        ({
            let r = oldest_from(voices, i, best);
            r == best || i <= r < voices.len()
        }),
    decreases voices.len() - i,
{
    if 0 <= i < voices.len() {
        if voices[i].sample_count < voices[best].sample_count {
            lemma_oldest_in_range(voices, i + 1, i);
        } else {
            lemma_oldest_in_range(voices, i + 1, best);
        }
    }
}

/// The chosen slot always exists.
proof fn lemma_note_slot_in_range(voices: Seq<Voice>)
    requires
        voices.len() > 0,
    ensures
        0 <= spec_note_slot(voices) < voices.len(),
{
    lemma_first_empty_in_range(voices, 0);
    lemma_oldest_in_range(voices, 1, 0);
}

/// Every reported event names a real track and a real voice slot, so a
/// consumer may index its own per-track and per-slot state with them.
pub open spec fn events_wf(evs: Seq<NoteOn>) -> bool {
    forall|k: int|
        0 <= k < evs.len() ==> (#[trigger] evs[k]).track < NUM_INSTRUMENTS && evs[k].slot
            < MAX_OVERLAPPING_NOTES
}

/// Joining two well-formed event lists keeps them well-formed.
proof fn lemma_events_wf_concat(a: Seq<NoteOn>, b: Seq<NoteOn>)
    requires
        events_wf(a),
        events_wf(b),
    ensures
        events_wf(a + b),
{
    assert forall|k: int|
        0 <= k < (a + b).len() implies (#[trigger] (a + b)[k]).track < NUM_INSTRUMENTS && (a
        + b)[k].slot < MAX_OVERLAPPING_NOTES by {
        if k < a.len() {
            assert((a + b)[k] == a[k]);
        } else {
            assert((a + b)[k] == b[k - a.len()]);
        }
    }
}

/// Whether two model states agree on everything the transport never changes
/// after construction: timing and the per-track delay and envelope setup.
pub open spec fn same_statics(a: SynthModel, b: SynthModel) -> bool {
    &&& a.quarter_note_length == b.quarter_note_length
    &&& a.eighth_note_length == b.eighth_note_length
    &&& a.envs == b.envs
    &&& a.delay_samples == b.delay_samples
    &&& a.delay_counts == b.delay_counts
}

/// Whether two model states agree on the transport position.
pub open spec fn same_position(a: SynthModel, b: SynthModel) -> bool {
    &&& a.seq_count == b.seq_count
    &&& a.note_count == b.note_count
    &&& a.sample_count == b.sample_count
}

/// Adding a note moves no transport position and changes no static setup;
/// it only rewrites voice slots of track `i`.
proof fn lemma_add_note_frame(
    m: SynthModel,
    song: Song,
    i: int,
    s: int,
    n: int,
    round: u32,
    swap_stereo: bool,
)
    requires
        model_dims(m),
        0 <= i < NUM_INSTRUMENTS,
    ensures
        ({
            let (m2, evs) = spec_add_note(m, song, i, s, n, round, swap_stereo);
            &&& same_statics(m, m2)
            &&& same_position(m, m2)
            &&& model_dims(m2)
            &&& events_wf(evs)
            &&& forall|t: int| 0 <= t < m.voices.len() && t != i ==> m2.voices[t] == m.voices[t]
        }),
{
    lemma_note_slot_in_range(m.voices[i]);
}

/// The notes struck on the tracks below `k` at the current transport
/// position, in track order.
pub open spec fn spec_load_notes_upto(m: SynthModel, song: Song, k: int) -> (SynthModel, Seq<
    NoteOn,
>)
    decreases k,
{
    if k <= 0 {
        (m, Seq::empty())
    } else {
        let (m1, evs1) = spec_load_notes_upto(m, song, k - 1);
        let (m2, evs2) = spec_add_note(m1, song, k - 1, m1.seq_count, m1.note_count, 0, false);
        (m2, evs1 + evs2)
    }
}

/// Loading the next notes preserves the transport position and the statics.
proof fn lemma_load_notes_upto_frame(m: SynthModel, song: Song, k: int)
    requires
        model_dims(m),
        k <= NUM_INSTRUMENTS,
    ensures
        same_statics(m, spec_load_notes_upto(m, song, k).0),
        same_position(m, spec_load_notes_upto(m, song, k).0),
        model_dims(spec_load_notes_upto(m, song, k).0),
        events_wf(spec_load_notes_upto(m, song, k).1),
    decreases k,
{
    if k > 0 {
        lemma_load_notes_upto_frame(m, song, k - 1);
        let (m1, evs1) = spec_load_notes_upto(m, song, k - 1);
        lemma_add_note_frame(m1, song, k - 1, m1.seq_count, m1.note_count, 0, false);
        lemma_events_wf_concat(evs1, spec_add_note(m1, song, k - 1, m1.seq_count, m1.note_count, 0, false).1);
    }
}

/// What striking the notes of the current position does: one attempt per
/// track, unless the transport has passed the end of the sequence.
pub open spec fn spec_load_notes(m: SynthModel, song: Song) -> (SynthModel, Seq<NoteOn>) {
    if m.seq_count > song.seq_length {
        (m, Seq::empty())
    } else {
        spec_load_notes_upto(m, song, NUM_INSTRUMENTS as int)
    }
}

impl Sequencer {
    /// Strike the notes of the current sequence position and note column,
    /// one attempt per track, and report which voices started.
    pub fn load_notes(&mut self, song: &Song) -> (events: Vec<NoteOn>)
        requires
            old(self).wf(*song),
        ensures
            ({
                let (m2, evs) = spec_load_notes(old(self).model(), *song);
                &&& final(self).model() == m2
                &&& events@ == evs
                &&& events_wf(events@)
                &&& final(self).wf(*song)
            }),
    {
        proof {
            lemma_model_dims(*old(self));
            lemma_load_notes_frame(old(self).model(), *song);
        }
        let mut events: Vec<NoteOn> = Vec::new();

        let seq_count = self.seq_count;
        if seq_count > song.seq_length {
            return events;
        }
        let note_count = self.note_count;

        for i in 0..NUM_INSTRUMENTS
            invariant
                spec_playable(*song),
                seq_count == old(self).seq_count,
                note_count == old(self).note_count,
                seq_count <= song.seq_length,
                note_count < PATTERN_LENGTH,
                self.quarter_note_length == old(self).quarter_note_length,
                self.seq_count == old(self).seq_count,
                self.note_count == old(self).note_count,
                (self.model(), events@) == spec_load_notes_upto(
                    old(self).model(),
                    *song,
                    i as int,
                ),
        {
            proof {
                lemma_load_notes_upto_frame(old(self).model(), *song, i as int);
            }
            let ev = self.add_note(song, i, seq_count, note_count, 0, false);
            match ev {
                Some(e) => events.push(e),
                None => {
                    proof {
                        let evs1 = spec_load_notes_upto(old(self).model(), *song, i as int).1;
                        assert(evs1 + Seq::<NoteOn>::empty() =~= evs1);
                    }
                },
            }
        }

        events
    }
}

/// One delay tap: round `round` of track `i`. The tap replays the note that
/// was struck `round` delay spans earlier, provided that position exists,
/// lies on a quarter-note boundary and is still within the sequence; odd
/// rounds swap the stereo channels.
pub open spec fn spec_delay_round(m: SynthModel, song: Song, i: int, round: int) -> (SynthModel,
    Seq<NoteOn>)
    recommends
        model_dims(m),
        0 <= i < NUM_INSTRUMENTS,
        m.quarter_note_length >= 1,
        round >= 1,
{
    let delay = m.delay_samples[i] * round;
    if delay > m.sample_count {
        (m, Seq::empty())
    } else {
        let position = m.sample_count - delay;
        if position % (m.quarter_note_length as int) != 0 {
            (m, Seq::empty())
        } else {
            let pattern_samples = m.quarter_note_length * PATTERN_LENGTH;
            let s = position / (pattern_samples as int);
            if s > song.seq_length {
                (m, Seq::empty())
            } else {
                let n = (position % (pattern_samples as int)) / (m.quarter_note_length as int);
                spec_add_note(m, song, i, s, n, round as u32, round % 2 == 1)
            }
        }
    }
}

/// The delay taps of track `i` for the rounds from `round` up to
/// `delay_count`, applied in order.
pub open spec fn spec_delay_rounds(
    m: SynthModel,
    song: Song,
    i: int,
    round: int,
    delay_count: int,
) -> (SynthModel, Seq<NoteOn>)
    decreases delay_count + 1 - round,
{
    if round < 1 || round > delay_count {
        (m, Seq::empty())
    } else {
        let (m1, evs1) = spec_delay_round(m, song, i, round);
        let (m2, evs2) = spec_delay_rounds(m1, song, i, round + 1, delay_count);
        (m2, evs1 + evs2)
    }
}

/// A delay tap moves no transport position and changes no static setup.
proof fn lemma_delay_round_frame(m: SynthModel, song: Song, i: int, round: int)
    requires
        model_dims(m),
        0 <= i < NUM_INSTRUMENTS,
    ensures
        ({
            let (m2, evs) = spec_delay_round(m, song, i, round);
            &&& same_statics(m, m2)
            &&& same_position(m, m2)
            &&& model_dims(m2)
            &&& events_wf(evs)
        }),
{
    let delay = m.delay_samples[i] * round;
    if delay <= m.sample_count {
        let position = m.sample_count - delay;
        if position % (m.quarter_note_length as int) == 0 {
            let pattern_samples = m.quarter_note_length * PATTERN_LENGTH;
            let s = position / (pattern_samples as int);
            if s <= song.seq_length {
                let n = (position % (pattern_samples as int)) / (m.quarter_note_length as int);
                lemma_add_note_frame(m, song, i, s, n, round as u32, round % 2 == 1);
            }
        }
    }
}

/// A run of delay taps moves no transport position and changes no statics.
proof fn lemma_delay_rounds_frame(m: SynthModel, song: Song, i: int, round: int, delay_count: int)
    requires
        model_dims(m),
        0 <= i < NUM_INSTRUMENTS,
    ensures
        ({
            let (m2, evs) = spec_delay_rounds(m, song, i, round, delay_count);
            &&& same_statics(m, m2)
            &&& same_position(m, m2)
            &&& model_dims(m2)
            &&& events_wf(evs)
        }),
    decreases delay_count + 1 - round,
{
    if 1 <= round <= delay_count {
        lemma_delay_round_frame(m, song, i, round);
        let (m1, evs1) = spec_delay_round(m, song, i, round);
        lemma_delay_rounds_frame(m1, song, i, round + 1, delay_count);
        lemma_events_wf_concat(evs1, spec_delay_rounds(m1, song, i, round + 1, delay_count).1);
    }
}

/// Once a tap reaches past the present sample, every later round of the same
/// track does too, so the remaining rounds add nothing.
proof fn lemma_delay_rounds_done(m: SynthModel, song: Song, i: int, round: int, delay_count: int)
    requires
        model_dims(m),
        0 <= i < NUM_INSTRUMENTS,
        round >= 1,
        m.delay_samples[i] * round > m.sample_count,
    ensures
        spec_delay_rounds(m, song, i, round, delay_count) == (m, Seq::<NoteOn>::empty()),
    decreases delay_count + 1 - round,
{
    if 1 <= round <= delay_count {
        let ds = m.delay_samples[i] as int;
        assert(ds * (round + 1) == ds * round + ds) by (nonlinear_arith);
        lemma_delay_rounds_done(m, song, i, round + 1, delay_count);
        assert(Seq::<NoteOn>::empty() + Seq::<NoteOn>::empty() =~= Seq::<NoteOn>::empty());
    }
}

/// The delay taps of the tracks below `k`, in track order.
pub open spec fn spec_load_delayed_upto(m: SynthModel, song: Song, k: int) -> (SynthModel, Seq<
    NoteOn,
>)
    decreases k,
{
    if k <= 0 {
        (m, Seq::empty())
    } else {
        let (m1, evs1) = spec_load_delayed_upto(m, song, k - 1);
        let (m2, evs2) = spec_delay_rounds(m1, song, k - 1, 1, m1.delay_counts[k - 1] as int);
        (m2, evs1 + evs2)
    }
}

/// Loading delayed notes preserves the transport position and the statics.
proof fn lemma_load_delayed_upto_frame(m: SynthModel, song: Song, k: int)
    requires
        model_dims(m),
        k <= NUM_INSTRUMENTS,
    ensures
        same_statics(m, spec_load_delayed_upto(m, song, k).0),
        same_position(m, spec_load_delayed_upto(m, song, k).0),
        model_dims(spec_load_delayed_upto(m, song, k).0),
        events_wf(spec_load_delayed_upto(m, song, k).1),
    decreases k,
{
    if k > 0 {
        lemma_load_delayed_upto_frame(m, song, k - 1);
        let (m1, evs1) = spec_load_delayed_upto(m, song, k - 1);
        lemma_delay_rounds_frame(m1, song, k - 1, 1, m1.delay_counts[k - 1] as int);
        lemma_events_wf_concat(evs1, spec_delay_rounds(m1, song, k - 1, 1, m1.delay_counts[k - 1] as int).1);
    }
}

/// What replaying delayed notes at the current position does: every track's
/// taps, in track and round order.
pub open spec fn spec_load_delayed(m: SynthModel, song: Song) -> (SynthModel, Seq<NoteOn>) {
    spec_load_delayed_upto(m, song, NUM_INSTRUMENTS as int)
}

/// Two sequencers with the same tracks have the same per-track model state.
proof fn lemma_model_tracks_equal(a: Sequencer, b: Sequencer)
    requires
        a.tracks == b.tracks,
    ensures
        a.model().envs == b.model().envs,
        a.model().delay_samples == b.model().delay_samples,
        a.model().delay_counts == b.model().delay_counts,
        a.model().voices == b.model().voices,
{
    assert(a.model().envs =~= b.model().envs);
    assert(a.model().delay_samples =~= b.model().delay_samples);
    assert(a.model().delay_counts =~= b.model().delay_counts);
    assert forall|t: int| 0 <= t < NUM_INSTRUMENTS implies a.model().voices[t]
        == b.model().voices[t] by {
        assert(a.model().voices[t] =~= b.model().voices[t]);
    }
    assert(a.model().voices =~= b.model().voices);
}

/// What producing one frame does to the transport: the sample counter grows
/// by one (wrapping); when that lands on a quarter-note boundary the note
/// column advances (wrapping into the next sequence position, which stops one
/// past the end of the sequence) and delayed notes, then direct notes, are
/// struck; when it lands on the eighth-note midpoint only delayed notes are
/// struck.
pub open spec fn spec_advance(m: SynthModel, song: Song) -> (SynthModel, Seq<NoteOn>)
    recommends
        model_dims(m),
        m.quarter_note_length >= 1,
{
    let sc = m.sample_count.wrapping_add(1);
    let m1 = SynthModel { sample_count: sc, ..m };
    let siq = sc % m.quarter_note_length;
    if siq == 0 {
        let advance_pattern = m.note_count + 1 >= PATTERN_LENGTH;
        let nc = if advance_pattern {
            0
        } else {
            m.note_count + 1
        };
        let sq = if advance_pattern {
            if m.seq_count <= song.seq_length {
                m.seq_count + 1
            } else {
                m.seq_count
            }
        } else {
            m.seq_count
        };
        let m2 = SynthModel { note_count: nc, seq_count: sq, ..m1 };
        let (m3, evs1) = spec_load_delayed(m2, song);
        let (m4, evs2) = spec_load_notes(m3, song);
        (m4, evs1 + evs2)
    } else if siq == m.eighth_note_length {
        spec_load_delayed(m1, song)
    } else {
        (m1, Seq::empty())
    }
}

/// The empty voice value: every slot starts here and returns here.
pub open spec fn spec_cleared_voice() -> Voice {
    Voice { pitch: 0, sample_count: 0, round: 0, swap_stereo: false }
}

/// The empty voice value.
pub fn cleared_voice() -> (v: Voice)
    ensures
        v == spec_cleared_voice(),
{
    Voice { pitch: 0, sample_count: 0, round: 0, swap_stereo: false }
}

/// Where a voice of age `age` stands in envelope `env`: attacking below the
/// attack span, ended once attack plus sustain plus release has elapsed,
/// releasing past attack plus sustain, otherwise held at full gain.
pub open spec fn spec_env_phase(env: Envelope, age: u32) -> EnvPhase {
    if age < env.attack {
        EnvPhase::Attack { pos: age, attack: env.attack }
    } else if age >= env.attack + env.sustain + env.release {
        EnvPhase::Ended
    } else if age >= env.attack + env.sustain {
        EnvPhase::Release { pos: (age - env.attack - env.sustain) as u32, release: env.release }
    } else {
        EnvPhase::Hold
    }
}

/// Whether playback is over: the transport has run past the end of the
/// sequence and no voice is sounding.
pub open spec fn spec_finished(m: SynthModel, song: Song) -> bool {
    &&& m.seq_count > song.seq_length
    &&& forall|i: int, j: int|
        0 <= i < NUM_INSTRUMENTS && 0 <= j < MAX_OVERLAPPING_NOTES
            ==> (#[trigger] m.voices[i][j]).pitch == 0
}

/// How many delay taps a track replays: none when the delay amount is zero,
/// unbounded when it is full (byte 255), a single tap when the delay spacing
/// collapses to zero, and otherwise `taps`, which the caller derives from the
/// delay amount as the number of taps above the audible threshold.
pub open spec fn spec_delay_count(delay_amount: u8, delay_samples: u32, taps: u32) -> u32 {
    if delay_amount == 0 {
        0
    } else if delay_amount == 255 {
        u32::MAX
    } else if delay_samples == 0 {
        1
    } else {
        taps
    }
}

/// The transport state a sequencer starts from: position zero, all voices
/// empty, and each track's delay grid laid out from the song's knobs.
pub open spec fn spec_init(
    song: Song,
    quarter_note_length: u32,
    envs: Seq<Envelope>,
    taps: Seq<u32>,
) -> SynthModel {
    SynthModel {
        quarter_note_length,
        eighth_note_length: quarter_note_length / 2,
        seq_count: 0,
        note_count: 0,
        sample_count: 0,
        envs,
        delay_samples: Seq::new(
            NUM_INSTRUMENTS as nat,
            |i: int| (song.instruments[i].fx.delay_time as u32).wrapping_mul(
                quarter_note_length / 2,
            ),
        ),
        delay_counts: Seq::new(
            NUM_INSTRUMENTS as nat,
            |i: int| spec_delay_count(
                song.instruments[i].fx.delay_amount,
                (song.instruments[i].fx.delay_time as u32).wrapping_mul(quarter_note_length / 2),
                taps[i],
            ),
        ),
        voices: Seq::new(
            NUM_INSTRUMENTS as nat,
            |i: int| Seq::new(MAX_OVERLAPPING_NOTES as nat, |j: int| spec_cleared_voice()),
        ),
    }
}

impl Sequencer {
    /// Replay the delay taps that fall on the current sample: for each track
    /// and each round, the note struck that many delay spans earlier.
    pub fn load_delayed_notes(&mut self, song: &Song) -> (events: Vec<NoteOn>)
        requires
            old(self).wf(*song),
        ensures
            ({
                let (m2, evs) = spec_load_delayed(old(self).model(), *song);
                &&& final(self).model() == m2
                &&& events@ == evs
                &&& events_wf(events@)
                &&& final(self).wf(*song)
            }),
    {
        proof {
            lemma_model_dims(*old(self));
            lemma_load_delayed_upto_frame(old(self).model(), *song, NUM_INSTRUMENTS as int);
        }
        let mut events: Vec<NoteOn> = Vec::new();

        for i in 0..NUM_INSTRUMENTS
            invariant
                old(self).wf(*song),
                self.quarter_note_length == old(self).quarter_note_length,
                self.eighth_note_length == old(self).eighth_note_length,
                self.seq_count == old(self).seq_count,
                self.note_count == old(self).note_count,
                self.sample_count == old(self).sample_count,
                (self.model(), events@) == spec_load_delayed_upto(
                    old(self).model(),
                    *song,
                    i as int,
                ),
        {
            let ghost m_in = self.model();
            proof {
                lemma_model_dims(*self);
            }
            let delay_samples = self.tracks[i].delay_samples;
            let delay_count = self.tracks[i].delay_count;
            let mut track_events: Vec<NoteOn> = Vec::new();

            proof {
                let full = spec_delay_rounds(m_in, *song, i as int, 1, delay_count as int);
                assert(Seq::<NoteOn>::empty() + full.1 =~= full.1);
            }
            let mut round: u32 = 1;
            while round <= delay_count
                invariant_except_break
                    spec_delay_rounds(m_in, *song, i as int, 1, delay_count as int) == ({
                        let (m2, evs2) = spec_delay_rounds(
                            self.model(),
                            *song,
                            i as int,
                            round as int,
                            delay_count as int,
                        );
                        (m2, track_events@ + evs2)
                    }),
                invariant
                    old(self).wf(*song),
                    i < NUM_INSTRUMENTS,
                    1 <= round,
                    round as int <= delay_count as int + 1,
                    self.quarter_note_length == old(self).quarter_note_length,
                    self.eighth_note_length == old(self).eighth_note_length,
                    self.seq_count == old(self).seq_count,
                    self.note_count == old(self).note_count,
                    self.sample_count == old(self).sample_count,
                    delay_samples == self.tracks[i as int].delay_samples,
                ensures
                    self.quarter_note_length == old(self).quarter_note_length,
                    self.eighth_note_length == old(self).eighth_note_length,
                    self.seq_count == old(self).seq_count,
                    self.note_count == old(self).note_count,
                    self.sample_count == old(self).sample_count,
                    ({
                        let (m2, evs2) = spec_delay_rounds(
                            m_in,
                            *song,
                            i as int,
                            1,
                            delay_count as int,
                        );
                        self.model() == m2 && track_events@ == evs2
                    }),
                decreases delay_count as int + 1 - round as int,
            {
                let ghost cur = self.model();
                let ghost tev0 = track_events@;
                proof {
                    lemma_model_dims(*self);
                }

                // Compute the tap position; skip once the tap reaches past
                // the present sample. Later rounds reach further, so when the
                // spacing is nonzero nothing more can fall due.
                proof {
                    vstd::arithmetic::mul::lemma_mul_upper_bound(
                        delay_samples as int,
                        0xffff_ffff,
                        round as int,
                        0xffff_ffff,
                    );
                }
                let delay: u64 = (delay_samples as u64) * (round as u64);
                if delay > self.sample_count as u64 {
                    proof {
                        lemma_delay_rounds_done(
                            cur,
                            *song,
                            i as int,
                            round as int,
                            delay_count as int,
                        );
                        assert(track_events@ + Seq::<NoteOn>::empty() =~= track_events@);
                    }
                    break;
                }

                let position: u64 = self.sample_count as u64 - delay;
                let qnl64: u64 = self.quarter_note_length as u64;
                let mut ev: Option<NoteOn> = None;

                if position % qnl64 == 0 {
                    // Convert the position into a sequence position and a
                    // note column, and replay the note unless the position
                    // has run past the end of the sequence.
                    let pattern_samples: u64 = qnl64 * (PATTERN_LENGTH as u64);
                    let s = position / pattern_samples;
                    if s <= song.seq_length as u64 {
                        let n = (position % pattern_samples) / qnl64;
                        proof {
                            vstd::arithmetic::div_mod::lemma_mod_division_less_than_divisor(
                                position as int,
                                pattern_samples as int,
                            );
                            vstd::arithmetic::div_mod::lemma_multiply_divide_lt(
                                (position % pattern_samples) as int,
                                qnl64 as int,
                                PATTERN_LENGTH as int,
                            );
                        }
                        ev = self.add_note(
                            song,
                            i,
                            s as usize,
                            n as usize,
                            round,
                            round % 2 == 1,
                        );
                    }
                }

                match ev {
                    Some(e) => track_events.push(e),
                    None => {},
                }

                proof {
                    let (m1, evs1) = spec_delay_round(cur, *song, i as int, round as int);
                    assert(self.model() == m1);
                    assert(match ev {
                        Some(e) => evs1 == seq![e],
                        None => evs1 == Seq::<NoteOn>::empty(),
                    });
                    let (m2, evs2) = spec_delay_rounds(
                        m1,
                        *song,
                        i as int,
                        round as int + 1,
                        delay_count as int,
                    );
                    assert(tev0 + Seq::<NoteOn>::empty() =~= tev0);
                    assert(track_events@ == tev0 + evs1);
                    assert(tev0 + (evs1 + evs2) =~= (tev0 + evs1) + evs2);
                }

                if round == delay_count {
                    proof {
                        let (m2, evs2) = spec_delay_rounds(
                            self.model(),
                            *song,
                            i as int,
                            round as int + 1,
                            delay_count as int,
                        );
                        assert(track_events@ + evs2 =~= track_events@);
                    }
                    break;
                }
                round = round + 1;
            }

            events.append(&mut track_events);

            proof {
                let (m1, evs1) = spec_load_delayed_upto(old(self).model(), *song, i as int);
                let (m2, evs2) = spec_delay_rounds(
                    m1,
                    *song,
                    i as int,
                    1,
                    m1.delay_counts[i as int] as int,
                );
                assert(events@ =~= evs1 + evs2);
            }
        }

        events
    }

    /// Produce the next frame position: step the sample counter and strike
    /// whatever notes fall due, reporting every voice that started.
    pub fn advance(&mut self, song: &Song) -> (events: Vec<NoteOn>)
        requires
            old(self).wf(*song),
        ensures
            ({
                let (m2, evs) = spec_advance(old(self).model(), *song);
                &&& final(self).model() == m2
                &&& events@ == evs
                &&& events_wf(events@)
                &&& final(self).wf(*song)
            }),
    {
        self.sample_count = self.sample_count.wrapping_add(1);
        let sample_in_quarter_note = self.sample_count % self.quarter_note_length;

        if sample_in_quarter_note == 0 {
            // Advance to the next note.
            self.note_count = self.note_count + 1;
            if self.note_count >= PATTERN_LENGTH {
                self.note_count = 0;

                // Advance to the next pattern, stopping one past the end.
                if self.seq_count <= song.seq_length {
                    self.seq_count = self.seq_count + 1;
                }
            }
            proof {
                lemma_model_tracks_equal(*self, *old(self));
            }

            // Fetch the next set of notes.
            let mut events = self.load_delayed_notes(song);
            let mut direct = self.load_notes(song);
            proof {
                lemma_events_wf_concat(events@, direct@);
            }
            events.append(&mut direct);
            events
        } else if sample_in_quarter_note == self.eighth_note_length {
            proof {
                lemma_model_tracks_equal(*self, *old(self));
            }

            // Fetch the next set of delayed notes.
            self.load_delayed_notes(song)
        } else {
            proof {
                lemma_model_tracks_equal(*self, *old(self));
            }
            Vec::new()
        }
    }

    /// The voice in slot `j` of track `i`.
    pub fn voice(&self, i: usize, j: usize) -> (v: Voice)
        requires
            i < NUM_INSTRUMENTS,
            j < MAX_OVERLAPPING_NOTES,
        ensures
            v == self.model().voices[i as int][j as int],
    {
        self.tracks[i].voices[j]
    }

    /// Where the voice in slot `j` of track `i` stands in its envelope at the
    /// current frame; a voice whose envelope has elapsed is cleared.
    pub fn voice_tick(&mut self, i: usize, j: usize) -> (phase: EnvPhase)
        requires
            i < NUM_INSTRUMENTS,
            j < MAX_OVERLAPPING_NOTES,
        ensures
            ({
                let m0 = old(self).model();
                let age = m0.sample_count.wrapping_sub(
                    m0.voices[i as int][j as int].sample_count,
                );
                let ph = spec_env_phase(m0.envs[i as int], age);
                &&& phase == ph
                &&& final(self).model() == if ph is Ended {
                    SynthModel {
                        voices: m0.voices.update(
                            i as int,
                            m0.voices[i as int].update(j as int, spec_cleared_voice()),
                        ),
                        ..m0
                    }
                } else {
                    m0
                }
            }),
    {
        let v = self.tracks[i].voices[j];
        let env = self.tracks[i].env;
        let age = self.sample_count.wrapping_sub(v.sample_count);

        if age < env.attack {
            EnvPhase::Attack { pos: age, attack: env.attack }
        } else if age as u64 >= env.attack as u64 + env.sustain as u64 + env.release as u64 {
            // The envelope has elapsed: clear the slot.
            self.set_voice(i, j, cleared_voice());
            EnvPhase::Ended
        } else if age as u64 >= env.attack as u64 + env.sustain as u64 {
            EnvPhase::Release { pos: age - env.attack - env.sustain, release: env.release }
        } else {
            EnvPhase::Hold
        }
    }

    /// Whether playback is over: the transport has run past the end of the
    /// sequence and every voice slot is empty.
    pub fn is_finished(&self, song: &Song) -> (r: bool)
        ensures
            r == spec_finished(self.model(), *song),
    {
        if self.seq_count <= song.seq_length {
            return false;
        }
        for i in 0..NUM_INSTRUMENTS
            invariant
                forall|i2: int, j: int|
                    0 <= i2 < i && 0 <= j < MAX_OVERLAPPING_NOTES
                        ==> #[trigger] self.model().voices[i2][j].pitch == 0,
        {
            for j in 0..MAX_OVERLAPPING_NOTES
                invariant
                    i < NUM_INSTRUMENTS,
                    forall|i2: int, j2: int|
                        0 <= i2 < i && 0 <= j2 < MAX_OVERLAPPING_NOTES
                            ==> #[trigger] self.model().voices[i2][j2].pitch == 0,
                    forall|j2: int|
                        0 <= j2 < j ==> #[trigger] self.model().voices[i as int][j2].pitch == 0,
            {
                if self.tracks[i].voices[j].pitch != 0 {
                    proof {
                        assert(self.model().voices[i as int][j as int].pitch != 0);
                    }
                    return false;
                }
            }
        }
        true
    }

    /// Build a sequencer for `song` and strike the notes of the very first
    /// position. `quarter_note_length` is the quarter-note span in samples at
    /// the output rate; `envs` carries each track's envelope rescaled to that
    /// rate, and `delay_taps` the per-track tap count used when the delay
    /// amount lies strictly between silent and full.
    pub fn new(
        song: &Song,
        quarter_note_length: u32,
        envs: &[Envelope; NUM_INSTRUMENTS],
        delay_taps: &[u32; NUM_INSTRUMENTS],
    ) -> (r: (Sequencer, Vec<NoteOn>))
        requires
            spec_playable(*song),
            quarter_note_length >= 1,
        ensures
            ({
                let m0 = spec_init(*song, quarter_note_length, envs@, delay_taps@);
                let (m1, evs) = spec_load_notes(m0, *song);
                &&& r.0.model() == m1
                &&& r.1@ == evs
                &&& events_wf(r.1@)
                &&& r.0.wf(*song)
            }),
    {
        let eighth_note_length = quarter_note_length / 2;

        let blank = Track {
            env: Envelope { attack: 0, sustain: 0, release: 0, master: 0 },
            voices: [cleared_voice(); MAX_OVERLAPPING_NOTES],
            delay_samples: 0,
            delay_count: 0,
        };
        let mut tracks: [Track; NUM_INSTRUMENTS] = [blank; NUM_INSTRUMENTS];

        for i in 0..NUM_INSTRUMENTS
            invariant
                eighth_note_length == quarter_note_length / 2,
                forall|t: int|
                    0 <= t < i ==> {
                        &&& (#[trigger] tracks[t]).env == envs@[t]
                        &&& tracks[t].delay_samples == (song.instruments[t].fx.delay_time
                            as u32).wrapping_mul(eighth_note_length)
                        &&& tracks[t].delay_count == spec_delay_count(
                            song.instruments[t].fx.delay_amount,
                            tracks[t].delay_samples,
                            delay_taps@[t],
                        )
                        &&& forall|j: int|
                            0 <= j < MAX_OVERLAPPING_NOTES ==> tracks[t].voices[j]
                                == spec_cleared_voice()
                    },
        {
            let inst = &song.instruments[i];

            // Configure the delay grid.
            let delay_samples = (inst.fx.delay_time as u32).wrapping_mul(eighth_note_length);
            let delay_count = if inst.fx.delay_amount == 0 {
                // Special case for zero repeats.
                0u32
            } else if inst.fx.delay_amount == 255 {
                // Special case for infinite repeats.
                u32::MAX
            } else if delay_samples == 0 {
                // Special case for zero delay spacing: only repeat once.
                1u32
            } else {
                // The number of taps needed for the tap gain to fall below
                // the audible threshold; the caller derives it from the
                // delay amount.
                delay_taps[i]
            };

            tracks[i] = Track {
                env: envs[i],
                voices: [cleared_voice(); MAX_OVERLAPPING_NOTES],
                delay_samples,
                delay_count,
            };
        }

        let mut seq_state = Sequencer {
            quarter_note_length,
            eighth_note_length,
            seq_count: 0,
            note_count: 0,
            sample_count: 0,
            tracks,
        };

        proof {
            let m0 = spec_init(*song, quarter_note_length, envs@, delay_taps@);
            assert forall|t: int| 0 <= t < NUM_INSTRUMENTS implies {
                &&& seq_state.model().envs[t] == m0.envs[t]
                &&& seq_state.model().delay_samples[t] == m0.delay_samples[t]
                &&& seq_state.model().delay_counts[t] == m0.delay_counts[t]
                &&& seq_state.model().voices[t] == m0.voices[t]
            } by {
                assert(seq_state.model().voices[t] =~= m0.voices[t]);
            }
            assert(seq_state.model().envs =~= m0.envs);
            assert(seq_state.model().delay_samples =~= m0.delay_samples);
            assert(seq_state.model().delay_counts =~= m0.delay_counts);
            assert(seq_state.model().voices =~= m0.voices);
            assert(seq_state.model() =~~= m0);
        }

        let events = seq_state.load_notes(song);
        (seq_state, events)
    }
}

/// Loading the current notes preserves the transport position and statics.
proof fn lemma_load_notes_frame(m: SynthModel, song: Song)
    requires
        model_dims(m),
    ensures
        same_statics(m, spec_load_notes(m, song).0),
        same_position(m, spec_load_notes(m, song).0),
        model_dims(spec_load_notes(m, song).0),
        events_wf(spec_load_notes(m, song).1),
{
    if m.seq_count <= song.seq_length {
        lemma_load_notes_upto_frame(m, song, NUM_INSTRUMENTS as int);
    }
}

/// Every advance produces exactly one frame: the sample counter grows by
/// exactly one (wrapping at the counter's width), whatever else the
/// transport strikes or clears. The number of frames a playback has emitted
/// therefore always equals its sample counter.
pub proof fn lemma_one_frame_per_advance(m: SynthModel, song: Song)
    requires
        model_dims(m),
    ensures
        spec_advance(m, song).0.sample_count == m.sample_count.wrapping_add(1),
{
    let sc = m.sample_count.wrapping_add(1);
    let m1 = SynthModel { sample_count: sc, ..m };
    let siq = sc % m.quarter_note_length;
    if siq == 0 {
        let advance_pattern = m.note_count + 1 >= PATTERN_LENGTH;
        let nc = if advance_pattern {
            0
        } else {
            m.note_count + 1
        };
        let sq = if advance_pattern {
            if m.seq_count <= song.seq_length {
                m.seq_count + 1
            } else {
                m.seq_count
            }
        } else {
            m.seq_count
        };
        let m2 = SynthModel { note_count: nc, seq_count: sq, ..m1 };
        lemma_load_delayed_upto_frame(m2, song, NUM_INSTRUMENTS as int);
        let m3 = spec_load_delayed(m2, song).0;
        lemma_load_notes_frame(m3, song);
    } else if siq == m.eighth_note_length {
        lemma_load_delayed_upto_frame(m1, song, NUM_INSTRUMENTS as int);
    }
}

/// No slot from `i` on is empty, so the scan finds none.
proof fn lemma_first_empty_none(voices: Seq<Voice>, i: int)
    requires
        forall|k: int| i <= k < voices.len() ==> (#[trigger] voices[k]).pitch != 0,
    ensures
        first_empty_from(voices, i) is None,
    decreases voices.len() - i,
{
    if 0 <= i < voices.len() {
        lemma_first_empty_none(voices, i + 1);
    }
}

/// Whether `r` is the earliest slot among `0..bound` holding the smallest
/// sample count.
pub open spec fn is_first_oldest(voices: Seq<Voice>, r: int, bound: int) -> bool {
    &&& 0 <= r < bound
    &&& forall|k: int|
        0 <= k < bound ==> voices[r].sample_count <= (#[trigger] voices[k]).sample_count
    &&& forall|k: int| 0 <= k < r ==> (#[trigger] voices[k]).sample_count > voices[r].sample_count
}

/// The oldest-voice scan keeps the earliest slot with the smallest sample
/// count: if `best` is that slot for the prefix below `i`, the scan from `i`
/// lands on that slot for the whole range.
proof fn lemma_oldest_first(voices: Seq<Voice>, i: int, best: int)
    requires
        1 <= i <= voices.len(),
        is_first_oldest(voices, best, i),
    ensures
        is_first_oldest(voices, oldest_from(voices, i, best), voices.len() as int),
    decreases voices.len() - i,
{
    if i < voices.len() {
        if voices[i].sample_count < voices[best].sample_count {
            lemma_oldest_first(voices, i + 1, i);
        } else {
            lemma_oldest_first(voices, i + 1, best);
        }
    }
}

/// The stealing policy: when every slot of a track is taken, a new note
/// lands on the earliest slot holding the smallest sample count (the oldest
/// voice, oldest slot first on ties), and after the steal every slot is
/// still taken.
pub proof fn lemma_voice_stealing(voices: Seq<Voice>, v: Voice)
    requires
        voices.len() == MAX_OVERLAPPING_NOTES,
        forall|k: int| 0 <= k < voices.len() ==> (#[trigger] voices[k]).pitch != 0,
        v.pitch != 0,
    ensures
        ({
            let j = spec_note_slot(voices);
            &&& is_first_oldest(voices, j, voices.len() as int)
            &&& forall|k: int|
                0 <= k < voices.len() ==> (#[trigger] voices.update(j, v)[k]).pitch != 0
        }),
{
    lemma_first_empty_none(voices, 0);
    lemma_oldest_first(voices, 1, 0);
    let j = spec_note_slot(voices);
    assert forall|k: int| 0 <= k < voices.len() implies (#[trigger] voices.update(
        j,
        v,
    )[k]).pitch != 0 by {
        if k != j {
            assert(voices.update(j, v)[k] == voices[k]);
        }
    }
}

/// Whether the song's sequence holds only rests.
pub open spec fn all_rests(song: Song) -> bool {
    forall|i: int, k: int|
        0 <= i < NUM_INSTRUMENTS && 0 <= k < SEQUENCE_LENGTH
            ==> #[trigger] song.instruments[i].seq[k] == 0
}

/// Adding a note over a rest-only sequence changes nothing and reports
/// nothing.
proof fn lemma_add_note_rest(
    m: SynthModel,
    song: Song,
    i: int,
    s: int,
    n: int,
    round: u32,
    swap_stereo: bool,
)
    requires
        all_rests(song),
        0 <= i < NUM_INSTRUMENTS,
        0 <= s < SEQUENCE_LENGTH,
    ensures
        spec_add_note(m, song, i, s, n, round, swap_stereo) == (m, Seq::<NoteOn>::empty()),
{
    assert(song.instruments[i].seq[s] == 0);
}

/// Striking the current position of a rest-only sequence reports nothing.
proof fn lemma_load_notes_upto_rests(m: SynthModel, song: Song, k: int)
    requires
        all_rests(song),
        0 <= m.seq_count < SEQUENCE_LENGTH,
        k <= NUM_INSTRUMENTS,
    ensures
        spec_load_notes_upto(m, song, k) == (m, Seq::<NoteOn>::empty()),
    decreases k,
{
    if k > 0 {
        lemma_load_notes_upto_rests(m, song, k - 1);
        lemma_add_note_rest(m, song, k - 1, m.seq_count, m.note_count, 0, false);
        assert(Seq::<NoteOn>::empty() + Seq::<NoteOn>::empty() =~= Seq::<NoteOn>::empty());
    }
}

/// Delay taps over a rest-only sequence replay nothing.
proof fn lemma_delay_rounds_rests(m: SynthModel, song: Song, i: int, round: int, delay_count: int)
    requires
        all_rests(song),
        spec_playable(song),
        0 <= i < NUM_INSTRUMENTS,
        m.quarter_note_length >= 1,
    ensures
        spec_delay_rounds(m, song, i, round, delay_count) == (m, Seq::<NoteOn>::empty()),
    decreases delay_count + 1 - round,
{
    if 1 <= round <= delay_count {
        let delay = m.delay_samples[i] * round;
        if delay <= m.sample_count {
            let position = m.sample_count - delay;
            if position % (m.quarter_note_length as int) == 0 {
                let pattern_samples = m.quarter_note_length * PATTERN_LENGTH;
                let s = position / (pattern_samples as int);
                if s <= song.seq_length {
                    vstd::arithmetic::div_mod::lemma_div_pos_is_pos(
                        position,
                        pattern_samples as int,
                    );
                    let n = (position % (pattern_samples as int)) / (
                    m.quarter_note_length as int);
                    lemma_add_note_rest(m, song, i, s, n, round as u32, round % 2 == 1);
                }
            }
        }
        lemma_delay_rounds_rests(m, song, i, round + 1, delay_count);
        assert(Seq::<NoteOn>::empty() + Seq::<NoteOn>::empty() =~= Seq::<NoteOn>::empty());
    }
}

/// Replaying delayed notes over a rest-only sequence reports nothing.
proof fn lemma_load_delayed_upto_rests(m: SynthModel, song: Song, k: int)
    requires
        all_rests(song),
        spec_playable(song),
        m.quarter_note_length >= 1,
        k <= NUM_INSTRUMENTS,
    ensures
        spec_load_delayed_upto(m, song, k) == (m, Seq::<NoteOn>::empty()),
    decreases k,
{
    if k > 0 {
        lemma_load_delayed_upto_rests(m, song, k - 1);
        lemma_delay_rounds_rests(m, song, k - 1, 1, m.delay_counts[k - 1] as int);
        assert(Seq::<NoteOn>::empty() + Seq::<NoteOn>::empty() =~= Seq::<NoteOn>::empty());
    }
}

/// A song whose sequence holds only rests never starts a note: every frame
/// reports no events and leaves every voice slot exactly as it was, so such
/// a song plays pure silence until the transport runs out.
pub proof fn lemma_rests_stay_silent(m: SynthModel, song: Song)
    requires
        all_rests(song),
        spec_playable(song),
        0 <= m.seq_count,
        m.quarter_note_length >= 1,
    ensures
        ({
            let (m2, evs) = spec_advance(m, song);
            &&& evs == Seq::<NoteOn>::empty()
            &&& m2.voices == m.voices
        }),
{
    let sc = m.sample_count.wrapping_add(1);
    let m1 = SynthModel { sample_count: sc, ..m };
    let siq = sc % m.quarter_note_length;
    if siq == 0 {
        let advance_pattern = m.note_count + 1 >= PATTERN_LENGTH;
        let nc = if advance_pattern {
            0
        } else {
            m.note_count + 1
        };
        let sq = if advance_pattern {
            if m.seq_count <= song.seq_length {
                m.seq_count + 1
            } else {
                m.seq_count
            }
        } else {
            m.seq_count
        };
        let m2 = SynthModel { note_count: nc, seq_count: sq, ..m1 };
        lemma_load_delayed_upto_rests(m2, song, NUM_INSTRUMENTS as int);
        if m2.seq_count <= song.seq_length {
            lemma_load_notes_upto_rests(m2, song, NUM_INSTRUMENTS as int);
        }
        assert(Seq::<NoteOn>::empty() + Seq::<NoteOn>::empty() =~= Seq::<NoteOn>::empty());
    } else if siq == m.eighth_note_length {
        lemma_load_delayed_upto_rests(m1, song, NUM_INSTRUMENTS as int);
    }
}

/// The transport is deterministic: from equal states over the same song, one
/// advance reaches equal states and reports identical notes. (Identical
/// output frames additionally need the same noise source and the same
/// floating-point sample pipeline, which lie outside the transport.)
pub proof fn lemma_advance_deterministic(m1: SynthModel, m2: SynthModel, song: Song)
    requires
        m1 == m2,
    ensures
        spec_advance(m1, song) == spec_advance(m2, song),
{
}

} // verus!

