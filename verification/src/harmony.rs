//! The fixed chord progression and its expansion under a harmony preset.

use vstd::prelude::*;
use crate::config::{Config, Harmony};
use crate::lily::{ml_from, render_from, repeat_header, steps_from, LilypondWriter};
use crate::midi::{key_of, midi_from, MidiEvent, MidiWriter};
use crate::pitch::Pitch;

verus! {

/// The chord of the progression at flat index `k` in 0..16: four rows of
/// four chords, one chord per measure; the first two rows are the same.
pub open spec fn spec_progression(k: int) -> Seq<i32> {
    if k == 0 || k == 4 {
        seq![0i32, 4i32, 7i32, 11i32]
    } else if k == 1 || k == 5 {
        seq![12i32, 9i32, 5i32, 2i32]
    } else if k == 2 || k == 6 {
        seq![0i32, 4i32, 7i32, 12i32]
    } else if k == 3 || k == 7 {
        seq![14i32, 11i32, 7i32, 2i32]
    } else if k == 8 {
        seq![4i32, 7i32, 12i32, 16i32]
    } else if k == 9 {
        seq![17i32, 14i32, 12i32, 9i32]
    } else if k == 10 {
        seq![7i32, 11i32, 12i32, 16i32]
    } else if k == 11 {
        seq![19i32, 17i32, 14i32, 11i32]
    } else if k == 12 {
        seq![12i32, 7i32, 4i32, 0i32]
    } else if k == 13 {
        seq![2i32, 5i32, 9i32, 12i32]
    } else if k == 14 {
        seq![11i32, 7i32, 4i32, 0i32]
    } else {
        seq![-1i32, 2i32, 7i32, 5i32]
    }
}

/// The chord of the progression at flat index `k`.
pub fn progression_chord(k: usize) -> (c: [i32; 4])
    requires
        k < 16,
    ensures
        c@ == spec_progression(k as int),
{
    let c: [i32; 4] = match k {
        0 | 4 => [0, 4, 7, 11],
        1 | 5 => [12, 9, 5, 2],
        2 | 6 => [0, 4, 7, 12],
        3 | 7 => [14, 11, 7, 2],
        8 => [4, 7, 12, 16],
        9 => [17, 14, 12, 9],
        10 => [7, 11, 12, 16],
        11 => [19, 17, 14, 11],
        12 => [12, 7, 4, 0],
        13 => [2, 5, 9, 12],
        14 => [11, 7, 4, 0],
        _ => [-1, 2, 7, 5],
    };
    assert(c@ =~= spec_progression(k as int));
    c
}

/// Every offset in the progression lies between -1 and 19.
pub proof fn lemma_progression_bounds(k: int, i: int)
    requires
        0 <= i < 4,
    ensures
        -1 <= spec_progression(k)[i] <= 19,
{
}

/// The simplified four-tone harmony active at elapsed step `time`, used to
/// quantize the melody: one diatonic set per measure of the four-measure
/// cycle.
pub open spec fn spec_harmony_chord(time: int) -> Seq<Pitch> {
    let m = (time / 16) % 4;
    if m == 1 {
        seq![Pitch(0), Pitch(2), Pitch(5), Pitch(9)]
    } else if m == 3 {
        seq![Pitch(2), Pitch(5), Pitch(7), Pitch(11)]
    } else {
        seq![Pitch(0), Pitch(4), Pitch(7), Pitch(11)]
    }
}

/// The four chord tones the melody is quantized against at step `time`.
pub fn harmony_chord(time: u32) -> (c: Vec<Pitch>)
    ensures
        c@ == spec_harmony_chord(time as int),
        c@.len() == 4,
{
    let m = (time / 4 / 4) % 4;
    let c = match m {
        1 => vec![Pitch(0), Pitch(2), Pitch(5), Pitch(9)],
        3 => vec![Pitch(2), Pitch(5), Pitch(7), Pitch(11)],
        _ => vec![Pitch(0), Pitch(4), Pitch(7), Pitch(11)],
    };
    assert(c@ =~= spec_harmony_chord(time as int));
    c
}

/// One event a harmony preset emits: one pitch for a plain note, several
/// for a simultaneous chord, with a shared length in steps.
#[derive(Clone, Debug)]
pub struct MusicEvent {
    pub pitches: Vec<Pitch>,
    pub duration: u32,
}

/// The model of an event: its pitches and its length.
pub open spec fn ev_view(e: MusicEvent) -> (Seq<Pitch>, int) {
    (e.pitches@, e.duration as int)
}

/// A single-note event in the event model.
pub open spec fn sev(p: int, d: int) -> (Seq<Pitch>, int) {
    (seq![Pitch(p as i32)], d)
}

/// A three-note chord event in the event model.
pub open spec fn cev(a: int, b: int, c: int, d: int) -> (Seq<Pitch>, int) {
    (seq![Pitch(a as i32), Pitch(b as i32), Pitch(c as i32)], d)
}

/// The events one chord of the progression unfolds into under a harmony
/// preset, all pitches offset by the harmony base.  Every preset fills
/// exactly one 16-step measure.
pub open spec fn spec_style_events(style: Harmony, base: int, c: Seq<i32>) -> Seq<
    (Seq<Pitch>, int),
> {
    let p0 = base + c[0];
    let p1 = base + c[1];
    let p2 = base + c[2];
    let p3 = base + c[3];
    match style {
        Harmony::Quarter => seq![sev(p0, 4), sev(p1, 4), sev(p2, 4), sev(p3, 4)],
        Harmony::UpOctaves => seq![
            sev(p0 - 12, 2),
            sev(p0, 2),
            sev(p1 - 12, 2),
            sev(p1, 2),
            sev(p2 - 12, 2),
            sev(p2, 2),
            sev(p3 - 12, 2),
            sev(p3, 2),
        ],
        Harmony::DownOctaves => seq![
            sev(p0, 2),
            sev(p0 - 12, 2),
            sev(p1, 2),
            sev(p1 - 12, 2),
            sev(p2, 2),
            sev(p2 - 12, 2),
            sev(p3, 2),
            sev(p3 - 12, 2),
        ],
        Harmony::CenterEighths => seq![
            sev(p0, 4),
            sev(p1, 2),
            sev(p2, 2),
            sev(p1, 2),
            sev(p2, 2),
            sev(p3, 4),
        ],
        Harmony::Mirror => seq![
            sev(p0, 2),
            sev(p0 - 12, 2),
            sev(p1 - 12, 2),
            sev(p2 - 12, 2),
            sev(p3 - 12, 2),
            sev(p1, 2),
            sev(p2, 2),
            sev(p3, 2),
        ],
        Harmony::Triples => seq![
            sev(p0, 1),
            sev(p1, 1),
            sev(p2, 2),
            sev(p0, 1),
            sev(p1, 1),
            sev(p2, 2),
            sev(p1, 1),
            sev(p2, 1),
            sev(p3, 2),
            sev(p3, 4),
        ],
        Harmony::QuarterChords => seq![
            cev(p0, p1, p2, 4),
            cev(p0, p1, p3, 4),
            cev(p0, p2, p3, 4),
            cev(p1, p2, p3, 4),
        ],
    }
}

fn note_event(p: i32, d: u32) -> (e: MusicEvent)
    ensures
        ev_view(e) == sev(p as int, d as int),
        e.pitches@.len() == 1,
        e.pitches@[0].0 == p,
        e.duration == d,
{
    let e = MusicEvent { pitches: vec![Pitch(p)], duration: d };
    assert(e.pitches@ =~= seq![Pitch(p)]);
    e
}

fn chord_event(a: i32, b: i32, c: i32, d: u32) -> (e: MusicEvent)
    ensures
        ev_view(e) == cev(a as int, b as int, c as int, d as int),
        e.pitches@.len() == 3,
        e.pitches@[0].0 == a && e.pitches@[1].0 == b && e.pitches@[2].0 == c,
        e.duration == d,
{
    let e = MusicEvent { pitches: vec![Pitch(a), Pitch(b), Pitch(c)], duration: d };
    assert(e.pitches@ =~= seq![Pitch(a), Pitch(b), Pitch(c)]);
    e
}

/// The events one chord of the progression unfolds into under a harmony
/// preset.
pub fn chord_events(style: Harmony, base: i32, chord: &[i32; 4]) -> (v: Vec<MusicEvent>)
    requires
        -2147483635 <= base <= 2147483628,
        forall|i: int| 0 <= i < 4 ==> -1 <= #[trigger] chord@[i] <= 19,
    ensures
        v@.len() == spec_style_events(style, base as int, chord@).len(),
        forall|i: int|
            0 <= i < v@.len() ==> ev_view(#[trigger] v@[i]) == spec_style_events(
                style,
                base as int,
                chord@,
            )[i],
        forall|i: int| 0 <= i < v@.len() ==> 1 <= (#[trigger] v@[i]).duration <= 4,
        forall|i: int, j: int|
            0 <= i < v@.len() && 0 <= j < (#[trigger] v@[i]).pitches@.len() ==> base - 13 <= (
            #[trigger] v@[i].pitches@[j]).0 <= base + 19,
{
    let p0 = base + chord[0];
    let p1 = base + chord[1];
    let p2 = base + chord[2];
    let p3 = base + chord[3];
    let mut v: Vec<MusicEvent> = Vec::new();
    match style {
        Harmony::Quarter => {
            v.push(note_event(p0, 4));
            v.push(note_event(p1, 4));
            v.push(note_event(p2, 4));
            v.push(note_event(p3, 4));
        },
        Harmony::UpOctaves => {
            v.push(note_event(p0 - 12, 2));
            v.push(note_event(p0, 2));
            v.push(note_event(p1 - 12, 2));
            v.push(note_event(p1, 2));
            v.push(note_event(p2 - 12, 2));
            v.push(note_event(p2, 2));
            v.push(note_event(p3 - 12, 2));
            v.push(note_event(p3, 2));
        },
        Harmony::DownOctaves => {
            v.push(note_event(p0, 2));
            v.push(note_event(p0 - 12, 2));
            v.push(note_event(p1, 2));
            v.push(note_event(p1 - 12, 2));
            v.push(note_event(p2, 2));
            v.push(note_event(p2 - 12, 2));
            v.push(note_event(p3, 2));
            v.push(note_event(p3 - 12, 2));
        },
        Harmony::CenterEighths => {
            v.push(note_event(p0, 4));
            v.push(note_event(p1, 2));
            v.push(note_event(p2, 2));
            v.push(note_event(p1, 2));
            v.push(note_event(p2, 2));
            v.push(note_event(p3, 4));
        },
        Harmony::Mirror => {
            v.push(note_event(p0, 2));
            v.push(note_event(p0 - 12, 2));
            v.push(note_event(p1 - 12, 2));
            v.push(note_event(p2 - 12, 2));
            v.push(note_event(p3 - 12, 2));
            v.push(note_event(p1, 2));
            v.push(note_event(p2, 2));
            v.push(note_event(p3, 2));
        },
        Harmony::Triples => {
            v.push(note_event(p0, 1));
            v.push(note_event(p1, 1));
            v.push(note_event(p2, 2));
            v.push(note_event(p0, 1));
            v.push(note_event(p1, 1));
            v.push(note_event(p2, 2));
            v.push(note_event(p1, 1));
            v.push(note_event(p2, 1));
            v.push(note_event(p3, 2));
            v.push(note_event(p3, 4));
        },
        Harmony::QuarterChords => {
            v.push(chord_event(p0, p1, p2, 4));
            v.push(chord_event(p0, p1, p3, 4));
            v.push(chord_event(p0, p2, p3, 4));
            v.push(chord_event(p1, p2, p3, 4));
        },
    }
    v
}

/// Every harmony preset fills exactly one measure: its events carry 16
/// steps, and a sink that starts a measure ends it flush.
pub proof fn lemma_style_measure(style: Harmony, base: int, c: Seq<i32>)
    ensures
        steps_from(spec_style_events(style, base, c), 0) == 16,
        ml_from(spec_style_events(style, base, c), 0, 16) == 16,
{
    reveal_with_fuel(steps_from, 12);
    reveal_with_fuel(ml_from, 12);
    reveal_with_fuel(crate::lily::spec_ml_after, 2);
}

/// The notation text of the sixteen measures of one pass over the
/// progression, from measure `k` on, each measure starting flush.
pub open spec fn measures_text(style: Harmony, base: int, k: int) -> Seq<char>
    decreases 16 - k,
{
    if k < 0 || k >= 16 {
        Seq::empty()
    } else {
        render_from(spec_style_events(style, base, spec_progression(k)), 0, 16) + measures_text(
            style,
            base,
            k + 1,
        )
    }
}

/// The full notation text of the harmony part: a repeat block around one
/// pass over the progression.
pub open spec fn harmony_text(c: Config) -> Seq<char> {
    repeat_header(c.repeat as int) + measures_text(c.harmony, c.harmony_base as int, 0) + seq!['}']
}

/// Writes the harmony part as notation text: a repeat block around the
/// sixteen measures of the progression, unfolded under the configured
/// preset.  The text is a function of the configuration alone.
#[verifier::rlimit(50)]
pub fn write_harmony(config: &Config, out: &mut LilypondWriter)
    requires
        config.wf(),
        old(out).wf(),
        old(out).measure_left == 16,
    ensures
        final(out).wf(),
        final(out).output@ == old(out).output@ + harmony_text(*config),
        final(out).measure_left == 16,
        final(out).steps@ == old(out).steps@ + 256,
{
    let ghost style = config.harmony;
    let ghost base = config.harmony_base as int;
    out.begin_repeat(config.repeat);
    let ghost after_header = out.output@;
    let mut k: usize = 0;
    while k < 16
        invariant
            out.wf(),
            out.measure_left == 16,
            k <= 16,
            config.wf(),
            style == config.harmony,
            base == config.harmony_base as int,
            out.steps@ == old(out).steps@ + 16 * k,
            after_header == old(out).output@ + repeat_header(config.repeat as int),
            out.output@ + measures_text(style, base, k as int) =~= after_header + measures_text(
                style,
                base,
                0,
            ),
        decreases 16 - k,
    {
        let ghost pre = out.output@;
        let chord = progression_chord(k);
        proof {
            assert forall|i: int| 0 <= i < 4 implies -1 <= #[trigger] chord@[i] <= 19 by {
                lemma_progression_bounds(k as int, i);
            }
        }
        let evs = chord_events(config.harmony, config.harmony_base, &chord);
        let ghost sevs = spec_style_events(style, base, spec_progression(k as int));
        proof {
            let ms = evs@.map_values(|e: MusicEvent| ev_view(e));
            assert(forall|i: int|
                0 <= i < evs@.len() ==> ev_view(#[trigger] evs@[i]) == spec_style_events(
                    style,
                    base,
                    chord@,
                )[i]);
            assert forall|i: int| 0 <= i < ms.len() implies ms[i] == sevs[i] by {
                assert(ev_view(evs@[i]) == spec_style_events(style, base, chord@)[i]);
                assert(ms[i] == ev_view(evs@[i]));
            }
            assert(ms =~= sevs);
            lemma_style_measure(style, base, spec_progression(k as int));
        }
        out.write_events(&evs);
        assert(pre + measures_text(style, base, k as int) =~= out.output@ + measures_text(
            style,
            base,
            k as int + 1,
        ));
        k += 1;
    }
    out.push('}');
    assert(final(out).output@ =~= old(out).output@ + harmony_text(*config));
}

/// The timeline of the sixteen measures of one pass over the progression,
/// from measure `k` on.
pub open spec fn measures_midi(style: Harmony, base: int, vol: int, k: int) -> Seq<MidiEvent>
    decreases 16 - k,
{
    if k < 0 || k >= 16 {
        Seq::empty()
    } else {
        midi_from(spec_style_events(style, base, spec_progression(k)), 0, vol) + measures_midi(
            style,
            base,
            vol,
            k + 1,
        )
    }
}

/// The timeline of `n` passes over the progression, in sequence: the
/// event form has no repeat construct, so the passes are written out.
pub open spec fn repeated_midi(style: Harmony, base: int, vol: int, n: int) -> Seq<MidiEvent>
    decreases n,
{
    if n <= 0 {
        Seq::empty()
    } else {
        repeated_midi(style, base, vol, n - 1) + measures_midi(style, base, vol, 0)
    }
}

/// The full timeline of the harmony part.
pub open spec fn harmony_midi(c: Config) -> Seq<MidiEvent> {
    repeated_midi(c.harmony, c.harmony_base as int, c.volume as int, c.repeat as int)
}

/// Writes the harmony part as an event timeline, the configured number of
/// passes in sequence.  The timeline is a function of the configuration
/// alone.
#[verifier::rlimit(50)]
pub fn write_harmony_midi(config: &Config, out: &mut MidiWriter)
    requires
        config.wf(),
        -24 <= config.harmony_base <= 60,
        old(out).volume == config.volume,
    ensures
        final(out).volume == old(out).volume,
        final(out).output@ == old(out).output@ + harmony_midi(*config),
{
    let ghost style = config.harmony;
    let ghost base = config.harmony_base as int;
    let ghost vol = config.volume as int;
    let mut r: u32 = 0;
    while r < config.repeat
        invariant
            r <= config.repeat,
            config.wf(),
            -24 <= config.harmony_base <= 60,
            style == config.harmony,
            base == config.harmony_base as int,
            vol == config.volume as int,
            out.volume == old(out).volume,
            out.volume == config.volume,
            out.output@ =~= old(out).output@ + repeated_midi(style, base, vol, r as int),
        decreases config.repeat - r,
    {
        let mut k: usize = 0;
        while k < 16
            invariant
                k <= 16,
                config.wf(),
                -24 <= config.harmony_base <= 60,
                style == config.harmony,
                base == config.harmony_base as int,
                vol == config.volume as int,
                out.volume == old(out).volume,
                out.volume == config.volume,
                out.output@ =~= old(out).output@ + repeated_midi(style, base, vol, r as int)
                    + measures_midi_prefix(style, base, vol, k as int),
            decreases 16 - k,
        {
            let ghost pre = out.output@;
            let chord = progression_chord(k);
            proof {
                assert forall|i: int| 0 <= i < 4 implies -1 <= #[trigger] chord@[i] <= 19 by {
                    lemma_progression_bounds(k as int, i);
                }
            }
            let evs = chord_events(config.harmony, config.harmony_base, &chord);
            let ghost sevs = spec_style_events(style, base, spec_progression(k as int));
            proof {
                let ms = evs@.map_values(|e: MusicEvent| ev_view(e));
                assert(forall|i: int|
                    0 <= i < evs@.len() ==> ev_view(#[trigger] evs@[i]) == spec_style_events(
                        style,
                        base,
                        chord@,
                    )[i]);
                assert forall|i: int| 0 <= i < ms.len() implies ms[i] == sevs[i] by {
                    assert(ev_view(evs@[i]) == spec_style_events(style, base, chord@)[i]);
                    assert(ms[i] == ev_view(evs@[i]));
                }
                assert(ms =~= sevs);
                assert(forall|a: int, j: int|
                    0 <= a < evs@.len() && 0 <= j < (#[trigger] evs@[a]).pitches@.len() ==> 0
                        <= key_of(#[trigger] evs@[a].pitches@[j].0 as int) <= 127);
            }
            out.write_events(&evs);
            assert(out.output@ =~= pre + midi_from(sevs, 0, out.volume as int));
            proof {
                lemma_measures_midi_prefix_snoc(style, base, vol, k as int);
            }
            k += 1;
        }
        proof {
            lemma_measures_midi_prefix_full(style, base, vol);
            assert(repeated_midi(style, base, vol, r as int) + measures_midi(style, base, vol, 0)
                == repeated_midi(style, base, vol, r as int + 1));
        }
        r += 1;
    }
    assert(final(out).output@ =~= old(out).output@ + harmony_midi(*config));
}

/// The timeline of the measures before measure `k` of one pass.
pub open spec fn measures_midi_prefix(style: Harmony, base: int, vol: int, k: int) -> Seq<
    MidiEvent,
>
    decreases k,
{
    if k <= 0 {
        Seq::empty()
    } else {
        measures_midi_prefix(style, base, vol, k - 1) + midi_from(
            spec_style_events(style, base, spec_progression(k - 1)),
            0,
            vol,
        )
    }
}

proof fn lemma_measures_midi_prefix_snoc(style: Harmony, base: int, vol: int, k: int)
    requires
        0 <= k,
    ensures
        measures_midi_prefix(style, base, vol, k + 1) == measures_midi_prefix(style, base, vol, k)
            + midi_from(spec_style_events(style, base, spec_progression(k)), 0, vol),
{
}

/// The prefix of all sixteen measures is one full pass.
proof fn lemma_measures_midi_prefix_full(style: Harmony, base: int, vol: int)
    ensures
        measures_midi_prefix(style, base, vol, 16) == measures_midi(style, base, vol, 0),
{
    lemma_measures_midi_parts(style, base, vol, 16);
    assert(measures_midi_prefix(style, base, vol, 16) + measures_midi(style, base, vol, 16) =~=
        measures_midi_prefix(style, base, vol, 16));
}

proof fn lemma_measures_midi_parts(style: Harmony, base: int, vol: int, k: int)
    requires
        0 <= k <= 16,
    ensures
        measures_midi_prefix(style, base, vol, k) + measures_midi(style, base, vol, k)
            == measures_midi(style, base, vol, 0),
    decreases k,
{
    if k == 0 {
        assert(measures_midi_prefix(style, base, vol, 0) + measures_midi(style, base, vol, 0) =~=
            measures_midi(style, base, vol, 0));
    } else {
        lemma_measures_midi_parts(style, base, vol, k - 1);
        assert(measures_midi_prefix(style, base, vol, k) + measures_midi(style, base, vol, k) =~=
            measures_midi_prefix(style, base, vol, k - 1) + (midi_from(
            spec_style_events(style, base, spec_progression(k - 1)),
            0,
            vol,
        ) + measures_midi(style, base, vol, k)));
        assert(midi_from(spec_style_events(style, base, spec_progression(k - 1)), 0, vol)
            + measures_midi(style, base, vol, k) == measures_midi(style, base, vol, k - 1));
    }
}

} // verus!
