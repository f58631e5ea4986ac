//! The notation sink: accumulates Lilypond text, tracks how many steps are
//! left in the current measure, and splits notes that cross a measure
//! boundary into tied pieces.

use vstd::prelude::*;
use vstd::string::StringExecFns;
use crate::duration::{duration_text, duration_steps};
use crate::harmony::{ev_view, MusicEvent};
use crate::pitch::{pitch_text, Note, Pitch};
use crate::text::{dec_digits, push_char, write_u32};

verus! {

/// The tie/dot text of a duration of `d` steps written with `ml` steps
/// left in the current measure: the note is split at each measure boundary
/// it crosses and the pieces are tied.
pub open spec fn lily_duration_text(d: int, ml: int) -> Seq<char>
    decreases d,
{
    if d <= 0 || ml <= 0 {
        Seq::empty()
    } else if d <= ml {
        duration_text(d as u32)
    } else {
        duration_text(ml as u32) + seq!['~'] + lily_duration_text(d - ml, 16)
    }
}

/// The steps left in the current measure after writing `d` steps with `ml`
/// left: always back in 1..=16, a full measure where the note ended flush.
pub open spec fn spec_ml_after(d: int, ml: int) -> int
    decreases d,
{
    if d <= 0 || ml <= 0 {
        ml
    } else if d < ml {
        ml - d
    } else if d == ml {
        16
    } else {
        spec_ml_after(d - ml, 16)
    }
}

/// The sum of the tie-split pieces of a duration.
pub open spec fn lily_piece_sum(d: int, ml: int) -> int
    decreases d,
{
    if d <= 0 || ml <= 0 {
        0
    } else if d <= ml {
        d
    } else {
        ml + lily_piece_sum(d - ml, 16)
    }
}

/// Splitting a duration at measure boundaries loses nothing: the tied
/// pieces sum back to the duration itself.
pub proof fn lemma_split_preserves_sum(d: int, ml: int)
    requires
        d >= 1,
        ml >= 1,
    ensures
        lily_piece_sum(d, ml) == d,
    decreases d,
{
    if d > ml {
        lemma_split_preserves_sum(d - ml, 16);
    }
}

/// The pitches of a chord, space-separated, from index `k` on.
pub open spec fn join_from(ps: Seq<Pitch>, k: int) -> Seq<char>
    decreases ps.len() - k,
{
    if k < 0 || k >= ps.len() {
        Seq::empty()
    } else if k == ps.len() - 1 {
        pitch_text(ps[k].0 as int)
    } else {
        pitch_text(ps[k].0 as int) + seq![' '] + join_from(ps, k + 1)
    }
}

/// The notation text of one event written with `ml` steps left: a pitch or
/// an angle-bracketed chord, its (possibly split) duration, and a space.
pub open spec fn event_text(ev: (Seq<Pitch>, int), ml: int) -> Seq<char> {
    if ev.0.len() == 1 {
        pitch_text(ev.0[0].0 as int) + lily_duration_text(ev.1, ml) + seq![' ']
    } else {
        seq!['<'] + join_from(ev.0, 0) + seq!['>'] + lily_duration_text(ev.1, ml) + seq![' ']
    }
}

/// The notation text of the events from index `k` on, threading the
/// measure counter through.
pub open spec fn render_from(evs: Seq<(Seq<Pitch>, int)>, k: int, ml: int) -> Seq<char>
    decreases evs.len() - k,
{
    if k < 0 || k >= evs.len() {
        Seq::empty()
    } else {
        event_text(evs[k], ml) + render_from(evs, k + 1, spec_ml_after(evs[k].1, ml))
    }
}

/// The measure counter after the events from index `k` on.
pub open spec fn ml_from(evs: Seq<(Seq<Pitch>, int)>, k: int, ml: int) -> int
    decreases evs.len() - k,
{
    if k < 0 || k >= evs.len() {
        ml
    } else {
        ml_from(evs, k + 1, spec_ml_after(evs[k].1, ml))
    }
}

/// The total steps of the events from index `k` on.
pub open spec fn steps_from(evs: Seq<(Seq<Pitch>, int)>, k: int) -> int
    decreases evs.len() - k,
{
    if k < 0 || k >= evs.len() {
        0
    } else {
        evs[k].1 + steps_from(evs, k + 1)
    }
}

/// The header of a textual repeat block.
pub open spec fn repeat_header(times: int) -> Seq<char> {
    "\\repeat unfold "@ + dec_digits(times) + " {\n"@
}

/// The notation sink.  `output` accumulates the Lilypond text;
/// `measure_left` counts the steps left in the current measure; `steps`
/// tracks, in the ghost state, the total steps of everything written.
pub struct LilypondWriter {
    pub measure_left: u32,
    pub output: String,
    pub steps: Ghost<nat>,
}

impl LilypondWriter {
    /// A well-formed sink is somewhere inside a 16-step measure.
    pub open spec fn wf(self) -> bool {
        1 <= self.measure_left <= 16
    }

    /// A fresh sink: empty text at the start of a measure.
    pub fn new() -> (w: Self)
        ensures
            w.wf(),
            w.output@ == Seq::<char>::empty(),
            w.measure_left == 16,
            w.steps@ == 0,
    {
        LilypondWriter { measure_left: 16, output: String::new(), steps: Ghost(0) }
    }

    /// Appends one character of glue text (not accounted as steps).
    pub fn push(&mut self, ch: char)
        ensures
            final(self).output@ == old(self).output@ + seq![ch],
            final(self).measure_left == old(self).measure_left,
            final(self).steps@ == old(self).steps@,
    {
        push_char(&mut self.output, ch);
    }

    /// Appends the duration of a note being written: split at measure
    /// boundaries, tied, and followed by a space; advances the measure
    /// counter and accounts the steps.
    pub fn write_duration(&mut self, duration: u32)
        requires
            old(self).wf(),
            duration >= 1,
        ensures
            final(self).wf(),
            final(self).output@ == old(self).output@ + lily_duration_text(
                duration as int,
                old(self).measure_left as int,
            ) + seq![' '],
            final(self).measure_left == spec_ml_after(
                duration as int,
                old(self).measure_left as int,
            ),
            final(self).steps@ == old(self).steps@ + duration,
    {
        let mut d = duration;
        while d > self.measure_left
            invariant
                self.wf(),
                1 <= d,
                self.steps@ == old(self).steps@,
                old(self).output@ + lily_duration_text(duration as int, old(self).measure_left as int)
                    =~= self.output@ + lily_duration_text(d as int, self.measure_left as int),
                spec_ml_after(duration as int, old(self).measure_left as int) == spec_ml_after(
                    d as int,
                    self.measure_left as int,
                ),
            decreases d,
        {
            let ghost pre = self.output@;
            let ghost pre_d = d as int;
            let ghost pre_ml = self.measure_left as int;
            crate::duration::write_duration(self.measure_left, &mut self.output);
            push_char(&mut self.output, '~');
            d = d - self.measure_left;
            self.measure_left = 16;
            assert(pre + lily_duration_text(pre_d, pre_ml) =~= self.output@ + lily_duration_text(
                d as int,
                16,
            ));
        }
        crate::duration::write_duration(d, &mut self.output);
        push_char(&mut self.output, ' ');
        self.measure_left = self.measure_left - d;
        if self.measure_left == 0 {
            self.measure_left = 16;
        }
        self.steps = Ghost(self.steps@ + duration as nat);
        assert(final(self).output@ =~= old(self).output@ + lily_duration_text(
            duration as int,
            old(self).measure_left as int,
        ) + seq![' ']);
    }

    /// Writes one note: its pitch text, then its duration.
    pub fn write_note(&mut self, note: Note)
        requires
            old(self).wf(),
            note.duration >= 1,
        ensures
            final(self).wf(),
            final(self).output@ == old(self).output@ + event_text(
                (seq![note.pitch], note.duration as int),
                old(self).measure_left as int,
            ),
            final(self).measure_left == spec_ml_after(
                note.duration as int,
                old(self).measure_left as int,
            ),
            final(self).steps@ == old(self).steps@ + note.duration,
    {
        note.pitch.write_name(&mut self.output);
        self.write_duration(note.duration);
        assert(final(self).output@ =~= old(self).output@ + event_text(
            (seq![note.pitch], note.duration as int),
            old(self).measure_left as int,
        ));
    }

    /// Writes one chord: the pitches between angle brackets, then the
    /// shared duration.
    pub fn write_chord(&mut self, chord: &[Pitch], duration: u32)
        requires
            old(self).wf(),
            duration >= 1,
            chord@.len() != 1,
        ensures
            final(self).wf(),
            final(self).output@ == old(self).output@ + event_text(
                (chord@, duration as int),
                old(self).measure_left as int,
            ),
            final(self).measure_left == spec_ml_after(
                duration as int,
                old(self).measure_left as int,
            ),
            final(self).steps@ == old(self).steps@ + duration,
    {
        push_char(&mut self.output, '<');
        write_pitches_from(chord, 0, &mut self.output);
        push_char(&mut self.output, '>');
        self.write_duration(duration);
        assert(final(self).output@ =~= old(self).output@ + event_text(
            (chord@, duration as int),
            old(self).measure_left as int,
        ));
    }

    /// Writes one event: a plain note where it has a single pitch, a chord
    /// otherwise.
    pub fn write_event(&mut self, e: &MusicEvent)
        requires
            old(self).wf(),
            e.duration >= 1,
        ensures
            final(self).wf(),
            final(self).output@ == old(self).output@ + event_text(
                ev_view(*e),
                old(self).measure_left as int,
            ),
            final(self).measure_left == spec_ml_after(
                e.duration as int,
                old(self).measure_left as int,
            ),
            final(self).steps@ == old(self).steps@ + e.duration,
    {
        if e.pitches.len() == 1 {
            let n = Note { pitch: e.pitches[0], duration: e.duration };
            self.write_note(n);
            assert(seq![e.pitches@[0]] =~= e.pitches@);
        } else {
            self.write_chord(e.pitches.as_slice(), e.duration);
        }
    }

    /// Writes a rest filling `duration` steps of the current measure.
    pub fn write_rest(&mut self, duration: u32)
        requires
            old(self).wf(),
            1 <= duration < 32,
        ensures
            final(self).wf(),
            final(self).output@ == old(self).output@ + seq!['r'] + duration_text(duration) + seq![
                ' ',
            ],
            final(self).steps@ == old(self).steps@ + duration,
            duration_steps(duration_text(duration)) == duration,
            duration >= old(self).measure_left ==> final(self).measure_left == 16,
            duration < old(self).measure_left ==> final(self).measure_left == old(
                self,
            ).measure_left - duration,
    {
        push_char(&mut self.output, 'r');
        crate::duration::write_duration(duration, &mut self.output);
        push_char(&mut self.output, ' ');
        self.measure_left = if duration >= self.measure_left {
            16
        } else {
            self.measure_left - duration
        };
        self.steps = Ghost(self.steps@ + duration as nat);
    }

    /// Opens a textual repeat block that plays its body `times` times.
    pub fn begin_repeat(&mut self, times: u32)
        ensures
            final(self).output@ == old(self).output@ + repeat_header(times as int),
            final(self).measure_left == old(self).measure_left,
            final(self).steps@ == old(self).steps@,
    {
        self.output.append("\\repeat unfold ");
        write_u32(times, &mut self.output);
        self.output.append(" {\n");
        assert(final(self).output@ =~= old(self).output@ + repeat_header(times as int));
    }

    /// Writes a run of events in order.
    pub fn write_events(&mut self, v: &Vec<MusicEvent>)
        requires
            old(self).wf(),
            forall|i: int| 0 <= i < v@.len() ==> (#[trigger] v@[i]).duration >= 1,
        ensures
            final(self).wf(),
            final(self).output@ == old(self).output@ + render_from(
                v@.map_values(|e: MusicEvent| ev_view(e)),
                0,
                old(self).measure_left as int,
            ),
            final(self).measure_left == ml_from(
                v@.map_values(|e: MusicEvent| ev_view(e)),
                0,
                old(self).measure_left as int,
            ),
            final(self).steps@ == old(self).steps@ + steps_from(
                v@.map_values(|e: MusicEvent| ev_view(e)),
                0,
            ),
    {
        let ghost sevs = v@.map_values(|e: MusicEvent| ev_view(e));
        let ghost ml0 = self.measure_left as int;
        let mut i: usize = 0;
        while i < v.len()
            invariant
                self.wf(),
                i <= v@.len(),
                sevs == v@.map_values(|e: MusicEvent| ev_view(e)),
                forall|j: int| 0 <= j < v@.len() ==> (#[trigger] v@[j]).duration >= 1,
                old(self).output@ + render_from(sevs, 0, ml0) =~= self.output@ + render_from(
                    sevs,
                    i as int,
                    self.measure_left as int,
                ),
                ml_from(sevs, 0, ml0) == ml_from(sevs, i as int, self.measure_left as int),
                old(self).steps@ + steps_from(sevs, 0) == self.steps@ + steps_from(sevs, i as int),
                ml0 == old(self).measure_left as int,
            decreases v@.len() - i,
        {
            let ghost pre = self.output@;
            let ghost pre_ml = self.measure_left as int;
            assert(sevs[i as int] == ev_view(v@[i as int]));
            self.write_event(&v[i]);
            assert(pre + render_from(sevs, i as int, pre_ml) =~= self.output@ + render_from(
                sevs,
                i as int + 1,
                self.measure_left as int,
            ));
            i += 1;
        }
        assert(final(self).output@ =~= old(self).output@ + render_from(sevs, 0, ml0));
    }
}

/// Appends the pitches of a chord from index `k` on, space-separated.
fn write_pitches_from(chord: &[Pitch], k: usize, out: &mut String)
    requires
        k <= chord@.len(),
    ensures
        final(out)@ == old(out)@ + join_from(chord@, k as int),
    decreases chord@.len() - k,
{
    if k == chord.len() {
        assert(final(out)@ =~= old(out)@ + join_from(chord@, k as int));
        return ;
    }
    chord[k].write_name(out);
    if k + 1 < chord.len() {
        push_char(out, ' ');
    }
    write_pitches_from(chord, k + 1, out);
    assert(final(out)@ =~= old(out)@ + join_from(chord@, k as int));
}

} // verus!
