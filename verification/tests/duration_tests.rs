use passacaglia::duration::write_duration;
use passacaglia::lily::LilypondWriter;
use passacaglia::pitch::{Note, Pitch};

fn encode(d: u32) -> String {
    let mut s = String::new();
    write_duration(d, &mut s);
    s
}

/// Reads a tie/dot duration text back into a step count.
fn decode(s: &str) -> u32 {
    let b = s.as_bytes();
    let mut i = 0;
    let mut total = 0u32;
    let mut last = 0u32;
    while i < b.len() {
        match b[i] {
            b'1' => {
                if i + 1 < b.len() && b[i + 1] == b'6' {
                    last = 1;
                    i += 2;
                } else {
                    last = 16;
                    i += 1;
                }
            }
            b'8' => {
                last = 2;
                i += 1;
            }
            b'4' => {
                last = 4;
                i += 1;
            }
            b'2' => {
                last = 8;
                i += 1;
            }
            b'.' => {
                last /= 2;
                i += 1;
            }
            b'~' => {
                i += 1;
                continue;
            }
            _ => break,
        }
        total += last;
    }
    total
}

#[test]
fn base_lengths() {
    assert_eq!(encode(1), "16");
    assert_eq!(encode(2), "8");
    assert_eq!(encode(4), "4");
    assert_eq!(encode(8), "2");
    assert_eq!(encode(16), "1");
}

#[test]
fn dotted_lengths() {
    assert_eq!(encode(3), "8.");
    assert_eq!(encode(6), "4.");
    assert_eq!(encode(7), "4..");
    assert_eq!(encode(12), "2.");
    assert_eq!(encode(14), "2..");
    assert_eq!(encode(15), "2...");
    assert_eq!(encode(24), "1.");
    assert_eq!(encode(31), "1....");
}

#[test]
fn tied_lengths() {
    assert_eq!(encode(5), "4~16");
    assert_eq!(encode(9), "2~16");
    assert_eq!(encode(10), "2~8");
    assert_eq!(encode(17), "1~16");
    assert_eq!(encode(21), "1~4~16");
    assert_eq!(encode(27), "1.~8.");
}

#[test]
fn encoding_round_trips_up_to_two_measures() {
    for d in 1..32u32 {
        assert_eq!(decode(&encode(d)), d, "duration {d}");
    }
}

#[test]
fn sink_splits_at_measure_boundaries() {
    let mut w = LilypondWriter::new();
    w.write_duration(20);
    assert_eq!(w.output, "1~4 ");
    let mut w = LilypondWriter::new();
    // A note of 12 steps leaves 4 in the measure; the next 10 steps split
    // as 4 in this measure tied to 6 in the next.
    w.write_note(Note { pitch: Pitch(0), duration: 12 });
    w.write_duration(10);
    assert_eq!(w.output, "c2. 4~4. ");
}

#[test]
fn sink_split_pieces_sum_to_the_duration() {
    let mut w = LilypondWriter::new();
    w.write_duration(37);
    // Pieces: a full measure, a full measure, five steps.
    let pieces: Vec<u32> = w.output.trim_end().split('~').map(decode).collect();
    assert_eq!(pieces.iter().sum::<u32>(), 37);
}

#[test]
fn sink_rolls_the_measure_counter_over() {
    let mut w = LilypondWriter::new();
    w.write_duration(16);
    assert_eq!(w.measure_left, 16);
    w.write_duration(5);
    assert_eq!(w.measure_left, 11);
    w.write_duration(11);
    assert_eq!(w.measure_left, 16);
}
