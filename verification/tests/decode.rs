use byteorder::ByteOrder;
use byteorder::LittleEndian;
use sonant::song::load_pattern;
use sonant::song::load_sequence;
use sonant::song::parse_waveform;
use sonant::song::Filter;
use sonant::song::Waveform;
use sonant::Error;
use sonant::Song;

const SONG_LENGTH: usize = 3333;

fn zero_image() -> Vec<u8> {
    vec![0u8; SONG_LENGTH]
}

fn put_u32(image: &mut [u8], off: usize, v: u32) {
    image[off..off + 4].copy_from_slice(&v.to_le_bytes());
}

#[test]
fn decode_wrong_length_fails() {
    assert!(matches!(
        Song::from_slice(&vec![0u8; SONG_LENGTH - 1]),
        Err(Error::FileLength)
    ));
    assert!(matches!(
        Song::from_slice(&vec![0u8; SONG_LENGTH + 1]),
        Err(Error::FileLength)
    ));
    assert!(matches!(Song::from_slice(&[]), Err(Error::FileLength)));
}

#[test]
fn decode_zeroed_image_succeeds() {
    let song = Song::from_slice(&zero_image()).unwrap();
    assert_eq!(song.seq_length, 0);
    assert_eq!(song.quarter_note_length, 0);
    for inst in song.instruments.iter() {
        // An octave byte of 0 wraps: (0 - 8) * 12 mod 256 = 160.
        assert_eq!(inst.osc[0].octave, 160);
        assert_eq!(inst.osc[1].octave, 160);
        assert_eq!(inst.osc[0].waveform, Waveform::Sine);
        assert_eq!(inst.fx.filter, Filter::NoFilter);
        assert_eq!(inst.env.attack, 0);
        assert!(inst.seq.iter().all(|&p| p == 0));
        assert!(inst.pat.iter().all(|p| p.notes.iter().all(|&n| n == 0)));
    }
}

#[test]
fn decode_invalid_waveform_fails() {
    // Waveform byte of oscillator 0 of instrument 0 sits at offset 9.
    let mut image = zero_image();
    image[9] = 4;
    assert!(matches!(
        Song::from_slice(&image),
        Err(Error::InvalidWaveform)
    ));

    // Oscillator 1's waveform byte sits at offset 15.
    let mut image = zero_image();
    image[15] = 255;
    assert!(matches!(
        Song::from_slice(&image),
        Err(Error::InvalidWaveform)
    ));

    // The LFO waveform byte of instrument 0 sits at offset 4 + 45.
    let mut image = zero_image();
    image[4 + 45] = 4;
    assert!(matches!(
        Song::from_slice(&image),
        Err(Error::InvalidWaveform)
    ));

    // A waveform byte of 3 is still valid.
    let mut image = zero_image();
    image[9] = 3;
    assert!(Song::from_slice(&image).is_ok());
}

#[test]
fn decode_invalid_filter_fails() {
    // The filter byte of instrument 0 sits at offset 4 + 29 = 33.
    let mut image = zero_image();
    image[33] = 5;
    assert!(matches!(Song::from_slice(&image), Err(Error::InvalidFilter)));

    let mut image = zero_image();
    image[33] = 4;
    assert!(Song::from_slice(&image).is_ok());
}

#[test]
fn decode_reports_first_error() {
    // Within one instrument the oscillator waveforms are checked before the
    // filter.
    let mut image = zero_image();
    image[9] = 4;
    image[33] = 5;
    assert!(matches!(
        Song::from_slice(&image),
        Err(Error::InvalidWaveform)
    ));

    // Instrument 0 is checked before instrument 1.
    let mut image = zero_image();
    image[33] = 5;
    image[4 + 416 + 5] = 4;
    assert!(matches!(Song::from_slice(&image), Err(Error::InvalidFilter)));
}

#[test]
fn decode_quarter_note_length_is_forced_even() {
    let mut image = zero_image();
    put_u32(&mut image, 0, 5513);
    let song = Song::from_slice(&image).unwrap();
    assert_eq!(song.quarter_note_length, 5512);
    assert_eq!(song.quarter_note_length % 2, 0);

    put_u32(&mut image, 0, 5512);
    let song = Song::from_slice(&image).unwrap();
    assert_eq!(song.quarter_note_length, 5512);
}

#[test]
fn decode_header_matches_byteorder() {
    // The header word is read little-endian, exactly as byteorder reads it.
    let mut image = zero_image();
    image[0] = 0x2a;
    image[1] = 0x01;
    image[2] = 0xfe;
    image[3] = 0x80;
    let raw = LittleEndian::read_u32(&image[0..4]);
    let song = Song::from_slice(&image).unwrap();
    assert_eq!(song.quarter_note_length, raw - raw % 2);

    // The envelope words are read the same way.
    let mut image = zero_image();
    put_u32(&mut image, 4 + 16, 100_000);
    put_u32(&mut image, 4 + 20, 44_100);
    put_u32(&mut image, 4 + 24, 77);
    let song = Song::from_slice(&image).unwrap();
    assert_eq!(
        song.instruments[0].env.attack,
        LittleEndian::read_u32(&image[20..24])
    );
    assert_eq!(song.instruments[0].env.sustain, 44_100);
    assert_eq!(song.instruments[0].env.release, 77);
}

#[test]
fn decode_instrument_fields() {
    let mut image = zero_image();
    let base = 4 + 2 * 416; // instrument 2

    // Oscillator 0.
    image[base] = 10; // octave knob: (10 - 8) * 12 = 24
    image[base + 1] = 7; // detune frequency
    image[base + 2] = 9; // detune knob byte
    image[base + 3] = 1; // envelope toggle
    image[base + 4] = 200; // volume byte
    image[base + 5] = 2; // saw

    // Oscillator 1.
    image[base + 6] = 8; // octave knob: (8 - 8) * 12 = 0
    image[base + 11] = 1; // square

    image[base + 12] = 77; // noise fader byte

    // Envelope.
    put_u32(&mut image, base + 16, 100);
    put_u32(&mut image, base + 20, 200);
    put_u32(&mut image, base + 24, 300);
    image[base + 28] = 50; // master byte

    // Effects.
    image[base + 29] = 3; // band pass
    put_u32(&mut image, base + 32, 1.0f32.to_bits()); // cutoff bit pattern
    image[base + 36] = 5; // resonance
    image[base + 37] = 2; // delay time
    image[base + 38] = 128; // delay amount
    image[base + 39] = 3; // pan frequency
    image[base + 40] = 4; // pan amount

    // LFO.
    image[base + 41] = 1;
    image[base + 42] = 1;
    image[base + 43] = 6; // lfo frequency
    image[base + 44] = 7; // lfo amount
    image[base + 45] = 3; // triangle

    // Sequence and patterns.
    image[base + 46] = 1;
    image[base + 46 + 47] = 10;
    image[base + 94] = 140; // pattern 0, note 0
    image[base + 94 + 32 * 9 + 31] = 255; // pattern 9, note 31

    image[3332] = 2; // sequence length

    let song = Song::from_slice(&image).unwrap();
    assert_eq!(song.seq_length, 2);

    let inst = &song.instruments[2];
    assert_eq!(inst.osc[0].octave, 24);
    assert_eq!(inst.osc[0].detune_freq, 7);
    assert_eq!(inst.osc[0].detune, 9);
    assert!(inst.osc[0].envelope);
    assert_eq!(inst.osc[0].volume, 200);
    assert_eq!(inst.osc[0].waveform, Waveform::Saw);

    assert_eq!(inst.osc[1].octave, 0);
    assert!(!inst.osc[1].envelope);
    assert_eq!(inst.osc[1].waveform, Waveform::Square);

    assert_eq!(inst.noise_fader, 77);

    assert_eq!(inst.env.attack, 100);
    assert_eq!(inst.env.sustain, 200);
    assert_eq!(inst.env.release, 300);
    assert_eq!(inst.env.master, 50);

    assert_eq!(inst.fx.filter, Filter::BandPass);
    assert_eq!(inst.fx.freq, 1.0f32.to_bits());
    assert_eq!(f32::from_bits(inst.fx.freq), 1.0);
    assert_eq!(inst.fx.resonance, 5);
    assert_eq!(inst.fx.delay_time, 2);
    assert_eq!(inst.fx.delay_amount, 128);
    assert_eq!(inst.fx.pan_freq, 3);
    assert_eq!(inst.fx.pan_amount, 4);

    assert!(inst.lfo.osc0_freq);
    assert!(inst.lfo.fx_freq);
    assert_eq!(inst.lfo.freq, 6);
    assert_eq!(inst.lfo.amount, 7);
    assert_eq!(inst.lfo.waveform, Waveform::Triangle);

    assert_eq!(inst.seq[0], 1);
    assert_eq!(inst.seq[47], 10);
    assert_eq!(inst.pat[0].notes[0], 140);
    assert_eq!(inst.pat[9].notes[31], 255);

    // The neighbouring instruments stay untouched.
    assert_eq!(song.instruments[1].noise_fader, 0);
    assert_eq!(song.instruments[3].osc[0].octave, 160);
}

#[test]
fn parse_waveform_accepts_exactly_four_kinds() {
    assert!(matches!(parse_waveform(0), Ok(Waveform::Sine)));
    assert!(matches!(parse_waveform(1), Ok(Waveform::Square)));
    assert!(matches!(parse_waveform(2), Ok(Waveform::Saw)));
    assert!(matches!(parse_waveform(3), Ok(Waveform::Triangle)));
    for b in 4..=255u8 {
        assert!(matches!(parse_waveform(b), Err(Error::InvalidWaveform)));
    }
}

#[test]
fn load_sequence_copies_the_bytes() {
    let mut bytes = vec![0u8; 64];
    for (k, b) in bytes.iter_mut().enumerate() {
        *b = k as u8;
    }
    let seq = load_sequence(&bytes, 10);
    for k in 0..48 {
        assert_eq!(seq[k], 10 + k);
    }
}

#[test]
fn load_pattern_copies_the_selected_block() {
    let mut bytes = vec![0u8; 400];
    for (k, b) in bytes.iter_mut().enumerate() {
        *b = (k % 251) as u8;
    }
    let pat = load_pattern(&bytes, 5, 3);
    for n in 0..32 {
        assert_eq!(pat.notes[n], ((5 + 3 * 32 + n) % 251) as u8);
    }
}

#[test]
fn decode_octave_wrapping() {
    // The octave decode wraps mod 256 exactly like 8-bit arithmetic.
    let cases = [(0u8, 160u8), (8, 0), (9, 12), (30, 8), (255, 148)];
    for &(knob, expect) in cases.iter() {
        let mut image = zero_image();
        image[4] = knob;
        let song = Song::from_slice(&image).unwrap();
        assert_eq!(song.instruments[0].osc[0].octave, expect);
        assert_eq!(
            expect,
            knob.wrapping_sub(8).wrapping_mul(12),
            "wrapping reference"
        );
    }
}
