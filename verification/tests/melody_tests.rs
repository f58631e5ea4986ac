use passacaglia::lily::LilypondWriter;
use passacaglia::melody::MelodyState;
use passacaglia::pitch::Pitch;
use rand::SeedableRng;
use rand_xoshiro::Xoshiro256StarStar;

#[test]
fn a_fresh_state_opens_one_note_at_the_center() {
    let s = MelodyState::new(12);
    assert_eq!(s.time, 0);
    assert_eq!(s.last_note, 0);
    assert_eq!(s.note.pitch, Pitch(12));
    assert_eq!(s.note.duration, 1);
    assert_eq!(s.measure_left(), 16);
}

#[test]
fn extending_grows_the_open_note() {
    let mut s = MelodyState::new(12);
    s.extend_note();
    s.extend_note();
    assert_eq!(s.time, 2);
    assert_eq!(s.note.duration, 3);
    assert_eq!(s.last_note, 0);
}

#[test]
fn closing_returns_the_open_note_and_opens_a_new_one() {
    let mut rng = Xoshiro256StarStar::seed_from_u64(5);
    let mut s = MelodyState::new(12);
    s.extend_note();
    s.extend_note();
    let closed = s.close_note(&mut rng, 12);
    assert_eq!(closed.pitch, Pitch(12));
    assert_eq!(closed.duration, 3);
    assert_eq!(s.time, 3);
    assert_eq!(s.last_note, 3);
    assert_eq!(s.note.duration, 1);
    // Time 3 is the last sub-beat of a beat: the new note enters
    // unquantized, exactly at the rounded walk position.
    let mut rng = Xoshiro256StarStar::seed_from_u64(5);
    let mut s = MelodyState::new(12);
    s.extend_note();
    s.extend_note();
    s.close_note(&mut rng, 13);
    assert_eq!(s.note.pitch, Pitch(13));
}

#[test]
fn closing_off_the_last_sub_beat_quantizes_to_the_chord() {
    let mut rng = Xoshiro256StarStar::seed_from_u64(5);
    let mut s = MelodyState::new(12);
    // Close at time 1: the active chord holds classes 0, 4, 7 and 11, so
    // the rounded position 13 (class 1) moves to the nearest tone, 12.
    let _ = s.close_note(&mut rng, 13);
    assert_eq!(s.last_note, 1);
    assert_eq!(s.note.pitch, Pitch(12));
}

#[test]
fn measure_left_follows_the_last_close() {
    let mut rng = Xoshiro256StarStar::seed_from_u64(5);
    let mut s = MelodyState::new(12);
    for _ in 0..4 {
        s.extend_note();
    }
    let _ = s.close_note(&mut rng, 12);
    assert_eq!(s.last_note, 5);
    assert_eq!(s.measure_left(), 11);
}

#[test]
fn finishing_pads_the_last_measure_with_a_rest() {
    let mut rng = Xoshiro256StarStar::seed_from_u64(5);
    let mut lily = LilypondWriter::new();
    let mut s = MelodyState::new(0);
    for _ in 0..4 {
        s.extend_note();
    }
    s.next_note(&mut rng, true, 0, &mut lily);
    // Five steps played; a rest of eleven fills the measure.
    s.finish_melody(&mut lily);
    assert_eq!(lily.output, "c4~16 r2~8. ");
}

#[test]
fn finishing_on_a_measure_boundary_adds_nothing() {
    let mut rng = Xoshiro256StarStar::seed_from_u64(5);
    let mut lily = LilypondWriter::new();
    let mut s = MelodyState::new(0);
    for _ in 0..15 {
        s.extend_note();
    }
    s.next_note(&mut rng, true, 0, &mut lily);
    assert_eq!(s.measure_left(), 16);
    let before = lily.output.clone();
    s.finish_melody(&mut lily);
    assert_eq!(lily.output, before);
}
