use sonant::song::Envelope;
use sonant::synth::playable;
use sonant::synth::EnvPhase;
use sonant::synth::Sequencer;
use sonant::Song;

const SONG_LENGTH: usize = 3333;
const NUM_INSTRUMENTS: usize = 8;

fn zero_image() -> Vec<u8> {
    vec![0u8; SONG_LENGTH]
}

fn put_u32(image: &mut [u8], off: usize, v: u32) {
    image[off..off + 4].copy_from_slice(&v.to_le_bytes());
}

fn envs_of(song: &Song) -> [Envelope; NUM_INSTRUMENTS] {
    let mut envs = [song.instruments[0].env; NUM_INSTRUMENTS];
    for i in 0..NUM_INSTRUMENTS {
        envs[i] = song.instruments[i].env;
    }
    envs
}

#[test]
fn silent_song_yields_no_notes_and_ends() {
    // A song of all zero bytes except a quarter-note length of 5512 plays
    // one sequence position of rests and then ends: no note ever starts.
    let mut image = zero_image();
    put_u32(&mut image, 0, 5512);
    let song = Song::from_slice(&image).unwrap();
    assert!(playable(&song));

    let (mut seq, events) = Sequencer::new(&song, 5512, &envs_of(&song), &[0; NUM_INSTRUMENTS]);
    assert!(events.is_empty());

    let mut frames: u64 = 0;
    while !seq.is_finished(&song) {
        let events = seq.advance(&song);
        assert!(events.is_empty());
        frames += 1;
        assert!(frames <= 5512 * 32, "the silent song must end");
    }
    assert_eq!(frames, 5512 * 32);
    assert_eq!(seq.sample_count, 5512 * 32);
}

#[test]
fn single_note_envelope_phases() {
    // One note at the first position; attack 3, sustain 4, release 5. The
    // voice attacks below age 3, holds to age 6, releases to age 11, and the
    // frame after the envelope has elapsed sees the slot zeroed.
    let mut image = zero_image();
    put_u32(&mut image, 0, 40); // quarter-note length
    image[3332] = 1; // sequence length
    image[4 + 46] = 1; // instrument 0 plays pattern 1 at position 0
    image[4 + 94] = 140; // pattern 0, note 0
    put_u32(&mut image, 4 + 16, 3); // attack
    put_u32(&mut image, 4 + 20, 4); // sustain
    put_u32(&mut image, 4 + 24, 5); // release
    let song = Song::from_slice(&image).unwrap();

    let (mut seq, events) = Sequencer::new(&song, 40, &envs_of(&song), &[0; NUM_INSTRUMENTS]);
    assert_eq!(events.len(), 1);
    assert_eq!(events[0].track, 0);
    assert_eq!(events[0].slot, 0);
    assert_eq!(events[0].pitch, 140);
    assert_eq!(events[0].round, 0);
    assert!(!events[0].swap_stereo);
    // Effective oscillator pitch: (140 + 160 + 0) mod 256 = 44.
    assert_eq!(events[0].osc0_pitch, 44);

    for age in 0u32..14 {
        assert_eq!(seq.sample_count, age);
        let phase = seq.voice_tick(0, 0);
        match age {
            0..=2 => assert_eq!(
                phase,
                EnvPhase::Attack { pos: age, attack: 3 }
            ),
            3..=6 => assert_eq!(phase, EnvPhase::Hold),
            7..=11 => assert_eq!(
                phase,
                EnvPhase::Release { pos: age - 7, release: 5 }
            ),
            _ => {
                // Age 12 and later: attack + sustain + release has elapsed.
                assert_eq!(phase, EnvPhase::Ended);
                assert_eq!(seq.voice(0, 0).pitch, 0);
            }
        }
        if age < 12 {
            assert_eq!(seq.voice(0, 0).pitch, 140);
            assert_eq!(seq.voice(0, 0).sample_count, 0);
        }
        seq.advance(&song);
    }
}

#[test]
fn delay_taps_swap_stereo_on_odd_rounds() {
    // Delay time of 2 eighth notes with a quarter note of 4 samples: the
    // first tap falls at sample 4 (2 eighth notes) with the channels
    // swapped, the second at sample 8 with them restored.
    let mut image = zero_image();
    put_u32(&mut image, 0, 4);
    image[3332] = 1;
    image[4 + 46] = 1; // play pattern 1 at position 0
    image[4 + 94] = 140; // pattern 0, note 0
    image[4 + 37] = 2; // delay time: 2 eighth notes
    image[4 + 38] = 128; // delay amount byte (about half)
    let song = Song::from_slice(&image).unwrap();

    // The embedding layer derives the tap count from the delay amount:
    // floor(log(256) / log(255 / 128)) = 8.
    let amount = 128.0f32 / 255.0;
    let taps = (256.0f32).log(1.0 / amount) as u32;
    assert_eq!(taps, 8);

    let (mut seq, events) = Sequencer::new(&song, 4, &envs_of(&song), &[taps; NUM_INSTRUMENTS]);
    assert_eq!(seq.tracks[0].delay_samples, 4);
    assert_eq!(seq.tracks[0].delay_count, 8);
    assert_eq!(events.len(), 1); // the direct strike at sample 0

    let mut tap_events = Vec::new();
    for _ in 0..9 {
        let events = seq.advance(&song);
        for e in events {
            tap_events.push((seq.sample_count, e));
        }
    }

    // First tap: at two eighth notes, round 1, channels swapped.
    assert_eq!(tap_events[0].0, 4);
    assert_eq!(tap_events[0].1.round, 1);
    assert!(tap_events[0].1.swap_stereo);
    assert_eq!(tap_events[0].1.pitch, 140);
    assert_eq!(tap_events[0].1.slot, 1);

    // Second tap: round 2, channels restored.
    assert_eq!(tap_events[1].0, 8);
    assert_eq!(tap_events[1].1.round, 2);
    assert!(!tap_events[1].1.swap_stereo);
    assert_eq!(tap_events[1].1.slot, 2);
}

#[test]
fn nine_note_ons_steal_the_oldest_voice() {
    // After eight simultaneous note-ons every slot of the track is taken;
    // the ninth steals the earliest slot holding the smallest sample count.
    let mut image = zero_image();
    put_u32(&mut image, 0, 4);
    image[3332] = 1;
    image[4 + 46] = 1;
    image[4 + 94] = 140;
    let song = Song::from_slice(&image).unwrap();

    let (mut seq, events) = Sequencer::new(&song, 4, &envs_of(&song), &[0; NUM_INSTRUMENTS]);
    assert_eq!(events.len(), 1);
    assert_eq!(events[0].slot, 0);

    for expected_slot in 1..8 {
        let ev = seq.add_note(&song, 0, 0, 0, 0, false).unwrap();
        assert_eq!(ev.slot, expected_slot);
    }
    for j in 0..8 {
        assert_eq!(seq.voice(0, j).pitch, 140);
    }

    // The ninth lands on slot 0, the first among the equally old voices,
    // and the track still holds exactly eight active voices.
    let ev = seq.add_note(&song, 0, 0, 0, 0, false).unwrap();
    assert_eq!(ev.slot, 0);
    for j in 0..8 {
        assert_eq!(seq.voice(0, j).pitch, 140);
    }
}

#[test]
fn identical_transports_stay_identical() {
    // Two sequencers built from the same song and stepped together agree on
    // every event and on their whole state, frame for frame.
    let mut image = zero_image();
    put_u32(&mut image, 0, 6);
    image[3332] = 1;
    image[4 + 46] = 1;
    image[4 + 94] = 100;
    image[4 + 94 + 3] = 120; // pattern 0, note 3
    image[4 + 37] = 1; // delay time
    image[4 + 38] = 60; // delay amount byte
    put_u32(&mut image, 4 + 16, 2);
    put_u32(&mut image, 4 + 24, 9);
    let song = Song::from_slice(&image).unwrap();

    let taps = [5u32; NUM_INSTRUMENTS];
    let (mut a, ev_a) = Sequencer::new(&song, 6, &envs_of(&song), &taps);
    let (mut b, ev_b) = Sequencer::new(&song, 6, &envs_of(&song), &taps);
    assert_eq!(ev_a, ev_b);
    assert_eq!(a, b);

    for _ in 0..400 {
        let ev_a = a.advance(&song);
        let ev_b = b.advance(&song);
        assert_eq!(ev_a, ev_b);
        assert_eq!(a, b);
    }
}

#[test]
fn delay_count_classification() {
    // Delay amount 0: no taps.
    let mut image = zero_image();
    put_u32(&mut image, 0, 4);
    image[4 + 37] = 2;
    image[4 + 38] = 0;
    let song = Song::from_slice(&image).unwrap();
    let (seq, _) = Sequencer::new(&song, 4, &envs_of(&song), &[9; NUM_INSTRUMENTS]);
    assert_eq!(seq.tracks[0].delay_count, 0);

    // Delay amount 255 (gain 1): endless taps.
    let mut image = zero_image();
    put_u32(&mut image, 0, 4);
    image[4 + 37] = 2;
    image[4 + 38] = 255;
    let song = Song::from_slice(&image).unwrap();
    let (seq, _) = Sequencer::new(&song, 4, &envs_of(&song), &[9; NUM_INSTRUMENTS]);
    assert_eq!(seq.tracks[0].delay_count, u32::MAX);

    // Zero delay spacing: a single tap.
    let mut image = zero_image();
    put_u32(&mut image, 0, 4);
    image[4 + 37] = 0;
    image[4 + 38] = 100;
    let song = Song::from_slice(&image).unwrap();
    let (seq, _) = Sequencer::new(&song, 4, &envs_of(&song), &[9; NUM_INSTRUMENTS]);
    assert_eq!(seq.tracks[0].delay_samples, 0);
    assert_eq!(seq.tracks[0].delay_count, 1);

    // Otherwise: the caller's tap count.
    let mut image = zero_image();
    put_u32(&mut image, 0, 4);
    image[4 + 37] = 2;
    image[4 + 38] = 100;
    let song = Song::from_slice(&image).unwrap();
    let (seq, _) = Sequencer::new(&song, 4, &envs_of(&song), &[9; NUM_INSTRUMENTS]);
    assert_eq!(seq.tracks[0].delay_count, 9);
}

#[test]
fn playable_rejects_out_of_table_songs() {
    // A pattern selector above the pattern count cannot be played.
    let mut image = zero_image();
    image[4 + 46] = 11;
    let song = Song::from_slice(&image).unwrap();
    assert!(!playable(&song));

    // A selector of 10 (the last pattern) can.
    let mut image = zero_image();
    image[4 + 46] = 10;
    let song = Song::from_slice(&image).unwrap();
    assert!(playable(&song));

    // A sequence length using the whole table would run one position past
    // its end, so it cannot be played either.
    let mut image = zero_image();
    image[3332] = 48;
    let song = Song::from_slice(&image).unwrap();
    assert!(!playable(&song));

    let mut image = zero_image();
    image[3332] = 47;
    let song = Song::from_slice(&image).unwrap();
    assert!(playable(&song));
}

#[test]
fn transport_advances_on_quarter_and_eighth_notes() {
    let mut image = zero_image();
    put_u32(&mut image, 0, 4);
    image[3332] = 1;
    let song = Song::from_slice(&image).unwrap();

    let (mut seq, _) = Sequencer::new(&song, 4, &envs_of(&song), &[0; NUM_INSTRUMENTS]);
    assert_eq!(seq.quarter_note_length, 4);
    assert_eq!(seq.eighth_note_length, 2);
    assert_eq!(seq.note_count, 0);
    assert_eq!(seq.seq_count, 0);

    // The note column advances each quarter note.
    for expected in [0usize, 0, 0, 1, 1, 1, 1, 2] {
        seq.advance(&song);
        assert_eq!(seq.note_count, expected);
    }
    assert_eq!(seq.sample_count, 8);

    // After 32 note columns the next sequence position begins; one position
    // past the end the counter stops.
    while seq.sample_count < 4 * 32 {
        seq.advance(&song);
    }
    assert_eq!(seq.note_count, 0);
    assert_eq!(seq.seq_count, 1);
    while seq.sample_count < 4 * 32 * 3 {
        seq.advance(&song);
    }
    assert_eq!(seq.seq_count, 2);
    assert!(seq.is_finished(&song));
}

#[test]
fn note_on_pitch_wraps_like_the_original_bytes() {
    // Pitch 200 with an octave knob of 30 ((30 - 8) * 12 = 264 mod 256 = 8)
    // and a detune frequency of 100 plays at (200 + 8 + 100) mod 256 = 52.
    let mut image = zero_image();
    put_u32(&mut image, 0, 4);
    image[3332] = 1;
    image[4 + 46] = 1;
    image[4 + 94] = 200;
    image[4] = 30; // oscillator 0 octave knob
    image[4 + 1] = 100; // oscillator 0 detune frequency
    let song = Song::from_slice(&image).unwrap();

    let (_, events) = Sequencer::new(&song, 4, &envs_of(&song), &[0; NUM_INSTRUMENTS]);
    assert_eq!(events.len(), 1);
    assert_eq!(events[0].pitch, 200);
    assert_eq!(events[0].osc0_pitch, 52);
    // Oscillator 1 keeps the zero knobs: (200 + 160 + 0) mod 256 = 104.
    assert_eq!(events[0].osc1_pitch, 104);
}
