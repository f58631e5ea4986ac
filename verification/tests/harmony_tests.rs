use passacaglia::config::{Config, Harmony, Rhythm};
use passacaglia::harmony::{chord_events, harmony_chord, write_harmony, write_harmony_midi};
use passacaglia::lily::LilypondWriter;
use passacaglia::midi::MidiWriter;
use passacaglia::pitch::Pitch;

fn config(harmony: Harmony, repeat: u32) -> Config {
    Config {
        harmony,
        rhythm: Rhythm::Sinusoidal,
        tempo: 80,
        harmony_base: -12,
        melody_base: 12,
        repeat,
        seed: 0,
        volume: 90,
    }
}

#[test]
fn style_names_parse() {
    assert!(matches!(Harmony::from_str("quarter"), Some(Harmony::Quarter)));
    assert!(matches!(Harmony::from_str("up-octaves"), Some(Harmony::UpOctaves)));
    assert!(matches!(Harmony::from_str("down-octaves"), Some(Harmony::DownOctaves)));
    assert!(matches!(Harmony::from_str("center-8ths"), Some(Harmony::CenterEighths)));
    assert!(matches!(Harmony::from_str("mirror"), Some(Harmony::Mirror)));
    assert!(matches!(Harmony::from_str("triples"), Some(Harmony::Triples)));
    assert!(matches!(Harmony::from_str("quarter-chords"), Some(Harmony::QuarterChords)));
    assert!(Harmony::from_str("waltz").is_none());
    assert!(matches!(Rhythm::from_str("sine"), Some(Rhythm::Sinusoidal)));
    assert!(matches!(Rhythm::from_str("sinusoidal"), Some(Rhythm::Sinusoidal)));
    assert!(matches!(Rhythm::from_str("saw"), Some(Rhythm::Sawtooth)));
    assert!(matches!(Rhythm::from_str("sawtooth"), Some(Rhythm::Sawtooth)));
    assert!(Rhythm::from_str("swing").is_none());
}

#[test]
fn quantize_chords_cycle_by_measure() {
    assert_eq!(harmony_chord(0), vec![Pitch(0), Pitch(4), Pitch(7), Pitch(11)]);
    assert_eq!(harmony_chord(16), vec![Pitch(0), Pitch(2), Pitch(5), Pitch(9)]);
    assert_eq!(harmony_chord(32), vec![Pitch(0), Pitch(4), Pitch(7), Pitch(11)]);
    assert_eq!(harmony_chord(48), vec![Pitch(2), Pitch(5), Pitch(7), Pitch(11)]);
    assert_eq!(harmony_chord(64), vec![Pitch(0), Pitch(4), Pitch(7), Pitch(11)]);
    assert_eq!(harmony_chord(17), harmony_chord(31));
}

#[test]
fn quarter_style_renders_the_first_chord_as_four_quarters() {
    // With the harmony a full octave down, the chord [0, 4, 7, 11] turns
    // into quarter notes at absolute pitches -12, -8, -5, -1, in order.
    let evs = chord_events(Harmony::Quarter, -12, &[0, 4, 7, 11]);
    assert_eq!(evs.len(), 4);
    let expected = [-12, -8, -5, -1];
    for (e, want) in evs.iter().zip(expected) {
        assert_eq!(e.pitches.len(), 1);
        assert_eq!(e.pitches[0], Pitch(want));
        assert_eq!(e.duration, 4);
    }
}

#[test]
fn every_style_fills_one_measure() {
    for style in [
        Harmony::Quarter,
        Harmony::UpOctaves,
        Harmony::DownOctaves,
        Harmony::CenterEighths,
        Harmony::Mirror,
        Harmony::Triples,
        Harmony::QuarterChords,
    ] {
        let evs = chord_events(style, 0, &[0, 4, 7, 11]);
        let total: u32 = evs.iter().map(|e| e.duration).sum();
        assert_eq!(total, 16);
    }
}

#[test]
fn quarter_chords_style_emits_three_note_chords() {
    let evs = chord_events(Harmony::QuarterChords, 0, &[0, 4, 7, 11]);
    assert_eq!(evs.len(), 4);
    assert_eq!(evs[0].pitches, vec![Pitch(0), Pitch(4), Pitch(7)]);
    assert_eq!(evs[3].pitches, vec![Pitch(4), Pitch(7), Pitch(11)]);
    assert!(evs.iter().all(|e| e.duration == 4));
}

#[test]
fn harmony_text_opens_with_the_repeat_block() {
    let mut w = LilypondWriter::new();
    write_harmony(&config(Harmony::Quarter, 2), &mut w);
    assert!(w.output.starts_with("\\repeat unfold 2 {\nc,4 e,4 g,4 b,4 "));
    assert!(w.output.ends_with("}"));
    assert_eq!(w.measure_left, 16);
}

#[test]
fn harmony_text_is_a_function_of_the_configuration() {
    let cfg = config(Harmony::Triples, 3);
    let mut a = LilypondWriter::new();
    let mut b = LilypondWriter::new();
    write_harmony(&cfg, &mut a);
    write_harmony(&cfg, &mut b);
    assert_eq!(a.output, b.output);
}

#[test]
fn harmony_timeline_is_a_function_of_the_configuration() {
    let cfg = config(Harmony::CenterEighths, 2);
    let mut a = MidiWriter::new(&cfg);
    let mut b = MidiWriter::new(&cfg);
    write_harmony_midi(&cfg, &mut a);
    write_harmony_midi(&cfg, &mut b);
    assert_eq!(a.output, b.output);
}

#[test]
fn harmony_timeline_unfolds_the_repeats() {
    let once = config(Harmony::Quarter, 1);
    let twice = config(Harmony::Quarter, 2);
    let mut a = MidiWriter::new(&once);
    let mut b = MidiWriter::new(&twice);
    write_harmony_midi(&once, &mut a);
    write_harmony_midi(&twice, &mut b);
    // 16 measures of 4 notes, 2 events per note.
    assert_eq!(a.output.len(), 16 * 4 * 2);
    assert_eq!(b.output.len(), 2 * a.output.len());
    assert_eq!(&b.output[..a.output.len()], &a.output[..]);
}

#[test]
fn chord_tones_land_on_the_configured_base() {
    let cfg = config(Harmony::Quarter, 1);
    let mut w = MidiWriter::new(&cfg);
    write_harmony_midi(&cfg, &mut w);
    // First event: key for pitch -12 offset by the key base 48.
    assert_eq!(w.output[0].key, 36);
    assert_eq!(w.output[0].velocity, 90);
    assert_eq!(w.output[0].delta, 0);
    // Its release comes a quarter (4 steps) later.
    assert_eq!(w.output[1].key, 36);
    assert_eq!(w.output[1].velocity, 0);
    assert_eq!(w.output[1].delta, 4);
}
