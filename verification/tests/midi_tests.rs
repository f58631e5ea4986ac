use passacaglia::config::{Config, Harmony, Rhythm};
use passacaglia::midi::{pitch_to_midi, tempo_micros, total_ticks, MidiEvent, MidiWriter};
use passacaglia::pitch::{Note, Pitch};

fn config() -> Config {
    Config {
        harmony: Harmony::Quarter,
        rhythm: Rhythm::Sinusoidal,
        tempo: 80,
        harmony_base: -12,
        melody_base: 12,
        repeat: 1,
        seed: 0,
        volume: 100,
    }
}

#[test]
fn keys_center_on_forty_eight() {
    assert_eq!(pitch_to_midi(Pitch(0)), 48);
    assert_eq!(pitch_to_midi(Pitch(12)), 60);
    assert_eq!(pitch_to_midi(Pitch(-48)), 0);
    assert_eq!(pitch_to_midi(Pitch(79)), 127);
}

#[test]
fn a_note_becomes_press_and_timed_release() {
    let mut w = MidiWriter::new(&config());
    w.write_note(Note { pitch: Pitch(12), duration: 7 });
    assert_eq!(
        w.output,
        vec![
            MidiEvent { delta: 0, key: 60, velocity: 100 },
            MidiEvent { delta: 7, key: 60, velocity: 0 },
        ]
    );
}

#[test]
fn a_chord_presses_together_and_releases_together() {
    let mut w = MidiWriter::new(&config());
    w.write_chord(&[Pitch(0), Pitch(4), Pitch(7)], 4);
    assert_eq!(
        w.output,
        vec![
            MidiEvent { delta: 0, key: 48, velocity: 100 },
            MidiEvent { delta: 0, key: 52, velocity: 100 },
            MidiEvent { delta: 0, key: 55, velocity: 100 },
            // Only the first release carries the duration; the rest are
            // simultaneous.
            MidiEvent { delta: 4, key: 48, velocity: 0 },
            MidiEvent { delta: 0, key: 52, velocity: 0 },
            MidiEvent { delta: 0, key: 55, velocity: 0 },
        ]
    );
}

#[test]
fn control_values() {
    assert_eq!(tempo_micros(80), 750_000);
    assert_eq!(tempo_micros(60), 1_000_000);
    assert_eq!(tempo_micros(1), 60_000_000);
    assert_eq!(total_ticks(1), 256);
    assert_eq!(total_ticks(3), 768);
}
