use passacaglia::config::Rhythm;
use passacaglia::lily::LilypondWriter;
use passacaglia::melody::MelodyState;
use passacaglia::midi::{MidiEvent, MidiWriter};
use passacaglia::config::{Config, Harmony};
use rand::{Rng, SeedableRng};
use rand_xoshiro::Xoshiro256StarStar;

/// The floating-point side of the melody walk, as the binary drives it.
struct Walk {
    rhythm: Rhythm,
    min_len: f32,
    max_len: f32,
    steady: f32,
    gravity: f32,
    drag: f32,
    nudge: f32,
    stutter: f32,
    melody_base: i32,
}

fn default_walk() -> Walk {
    Walk {
        rhythm: Rhythm::Sinusoidal,
        min_len: 1.0,
        max_len: 4.0,
        steady: std::f64::consts::PI as f32,
        gravity: 0.15,
        drag: 0.22,
        nudge: 1.5,
        stutter: 0.05,
        melody_base: 12,
    }
}

fn shaping(rhythm: &Rhythm, clock: f64) -> f32 {
    match rhythm {
        Rhythm::Sinusoidal => (clock * 2.0 * std::f64::consts::PI).cos() as f32,
        Rhythm::Sawtooth => 1.0 - 2.0 * (clock as f32 % 1.0),
    }
}

struct Run {
    notes: Vec<(i32, u32)>,
    rest: u32,
    text: String,
    events: Vec<MidiEvent>,
}

fn run_melody(p: &Walk, seed: u64, repeat: u32) -> Run {
    let config = Config {
        harmony: Harmony::Quarter,
        rhythm: Rhythm::Sinusoidal,
        tempo: 80,
        harmony_base: -12,
        melody_base: p.melody_base,
        repeat,
        seed,
        volume: 90,
    };
    let mut rng = Xoshiro256StarStar::seed_from_u64(seed);
    let mut state = MelodyState::new(p.melody_base);
    let mut lily = LilypondWriter::new();
    let mut midi = MidiWriter::new(&config);
    let mut notes = Vec::new();
    let mut pitch = p.melody_base as f32;
    let mut velocity = 0.0f32;
    let mut progress = 0.0f32;
    for _ in 0..repeat * 4 {
        for _ in 0..64 {
            let nudge = if rng.gen() { p.nudge } else { -p.nudge };
            let gravity = (pitch - p.melody_base as f32) * -p.gravity;
            let v = (velocity + gravity) * (1.0 - p.drag) + nudge;
            pitch += v;
            velocity = v;
            let med = (p.max_len + p.min_len) / 2.0;
            let dev = (p.max_len - p.min_len) / 2.0;
            let clock = state.time as f64 / 16.0 / p.steady as f64;
            let add_time = shaping(&p.rhythm, clock);
            let speed = 1.0 / (dev * add_time + med);
            progress += speed;
            if (progress > 1.0 || rng.gen::<f32>() < p.stutter) && rng.gen::<f32>() > p.stutter {
                progress -= 1.0;
                let rounded = pitch.round() as i32;
                let closed = state.close_note(&mut rng, rounded);
                lily.write_note(closed);
                assert!((-48..=79).contains(&closed.pitch.0), "pitch out of key range");
                midi.write_note(closed);
                notes.push((closed.pitch.0, closed.duration));
            } else {
                state.extend_note();
            }
        }
        lily.push('\n');
    }
    let rest = if state.measure_left() != 16 { state.measure_left() } else { 0 };
    state.finish_melody(&mut lily);
    Run { notes, rest, text: lily.output, events: midi.output }
}

#[test]
fn identical_seed_and_settings_reproduce_the_run() {
    let walk = default_walk();
    let a = run_melody(&walk, 42, 2);
    let b = run_melody(&walk, 42, 2);
    assert_eq!(a.notes, b.notes);
    assert_eq!(a.text, b.text);
    assert_eq!(a.events, b.events);
}

#[test]
fn different_seeds_diverge() {
    let walk = default_walk();
    let a = run_melody(&walk, 42, 1);
    let b = run_melody(&walk, 43, 1);
    assert_ne!(a.text, b.text);
}

#[test]
fn melody_steps_fill_the_run_exactly() {
    let walk = default_walk();
    for seed in [1u64, 7, 42, 1000] {
        let run = run_melody(&walk, seed, 1);
        let played: u32 = run.notes.iter().map(|(_, d)| d).sum();
        assert_eq!(played + run.rest, 256, "seed {seed}");
    }
}

#[test]
fn sawtooth_shaping_is_a_falling_ramp() {
    // The sawtooth value is exactly 1 - 2 * (t mod 1): 1 at each integer,
    // falling linearly, and jumping back up at the next integer.
    assert_eq!(shaping(&Rhythm::Sawtooth, 0.0), 1.0);
    assert_eq!(shaping(&Rhythm::Sawtooth, 0.25), 0.5);
    assert_eq!(shaping(&Rhythm::Sawtooth, 0.5), 0.0);
    assert_eq!(shaping(&Rhythm::Sawtooth, 0.75), -0.5);
    assert_eq!(shaping(&Rhythm::Sawtooth, 1.0), 1.0);
    assert_eq!(shaping(&Rhythm::Sawtooth, 2.25), 0.5);
    for i in 0..64 {
        let t = i as f64 * 0.095;
        let v = shaping(&Rhythm::Sawtooth, t);
        assert!((-1.0..=1.0).contains(&v));
        assert_eq!(v, 1.0 - 2.0 * (t as f32 % 1.0));
    }
}

#[test]
fn seed_forty_two_always_opens_the_same_way() {
    let walk = default_walk();
    let run = run_melody(&walk, 42, 1);
    let first = run.notes[0];
    assert_eq!(first, run_melody(&walk, 42, 1).notes[0]);
    // The first note of this walk: the center pitch held for four steps.
    assert_eq!(first, (12, 4));
}
