//! The melody walk's discrete bookkeeping.
//!
//! The walk itself is a continuous simulation: position, velocity and a
//! progress accumulator move in floating point under the driver's control,
//! and each step the driver decides whether the open note keeps sounding
//! or closes.  This module holds everything integer about that process —
//! elapsed steps, the open note, the close-and-quantize transition — and
//! its contracts, so the driver only supplies the per-step decision and
//! the rounded pitch of the next note.

use vstd::prelude::*;
use crate::duration::duration_text;
use crate::harmony::{harmony_chord, spec_harmony_chord};
use crate::lily::{event_text, spec_ml_after, LilypondWriter};
use crate::pitch::{circ_dist, note_class, Note, Pitch};

verus! {

/// The discrete state of the melody walk.
pub struct MelodyState {
    /// Elapsed steps.
    pub time: u32,
    /// The step at which the last note closed.
    pub last_note: u32,
    /// The note currently sounding.
    pub note: Note,
}

/// The least multiple of 16 at or above `t`: the end of the measure a run
/// stopping at step `t` must be filled out to.
pub open spec fn round_up_16(t: int) -> int {
    if t % 16 == 0 {
        t
    } else {
        t + 16 - t % 16
    }
}

impl MelodyState {
    /// The bookkeeping stays consistent: the open note spans exactly the
    /// steps since the last close, plus the step it was opened on.
    pub open spec fn wf(self) -> bool {
        &&& self.last_note <= self.time
        &&& self.note.duration == self.time - self.last_note + 1
    }

    /// The state at the start of a run: one note of the center pitch just
    /// opened.
    pub fn new(melody_base: i32) -> (s: Self)
        ensures
            s.wf(),
            s.time == 0,
            s.last_note == 0,
            s.note.pitch.0 == melody_base,
            s.note.duration == 1,
    {
        MelodyState {
            time: 0,
            last_note: 0,
            note: Note { pitch: Pitch(melody_base), duration: 1 },
        }
    }

    /// The steps left in the measure the last note closed in.
    pub fn measure_left(&self) -> (r: u32)
        ensures
            r == 16 - self.last_note as int % 16,
            1 <= r <= 16,
    {
        16 - (self.last_note % 16)
    }

    /// One step on which the open note keeps sounding: time passes and
    /// the note grows by one step.
    pub fn extend_note(&mut self)
        requires
            old(self).wf(),
            old(self).time < 0xffff_fffe,
        ensures
            final(self).wf(),
            final(self).time == old(self).time + 1,
            final(self).last_note == old(self).last_note,
            final(self).note.pitch == old(self).note.pitch,
            final(self).note.duration == old(self).note.duration + 1,
    {
        self.time = self.time + 1;
        self.note.duration = self.note.duration + 1;
    }

    /// One step on which the open note closes.  Returns the closed note
    /// for the sink and opens the next note: the driver's rounded walk
    /// position, quantized to the nearest tone of the harmony active at
    /// the new time — except on the last sub-beat of a beat, which enters
    /// unquantized.
    pub fn close_note(
        &mut self,
        rng: &mut rand_xoshiro::Xoshiro256StarStar,
        rounded_pitch: i32,
    ) -> (closed: Note)
        requires
            old(self).wf(),
            old(self).time < 0xffff_fffe,
            -2147483642 <= rounded_pitch <= 2147483641,
        ensures
            final(self).wf(),
            closed == old(self).note,
            final(self).time == old(self).time + 1,
            final(self).last_note == final(self).time,
            final(self).note.duration == 1,
            final(self).last_note % 4 == 3 ==> final(self).note.pitch.0 == rounded_pitch,
            final(self).last_note % 4 != 3 ==> {
                let chord = spec_harmony_chord(final(self).time as int);
                let p = final(self).note.pitch.0 as int;
                &&& (exists|i: int|
                    0 <= i < chord.len() && note_class(p) == note_class(chord[i].0 as int))
                &&& (forall|i: int|
                    0 <= i < chord.len() ==> circ_dist(note_class(p), note_class(rounded_pitch as int))
                        <= circ_dist(note_class(chord[i].0 as int), note_class(rounded_pitch as int)))
                &&& -6 <= p - rounded_pitch <= 6
            },
    {
        self.time = self.time + 1;
        let closed = self.note;
        self.last_note = self.time;
        let mut pitch = Pitch(rounded_pitch);
        if self.last_note % 4 != 3 {
            let chord = harmony_chord(self.time);
            pitch = pitch.nearest_note(rng, chord.as_slice());
        }
        self.note = Note { pitch, duration: 1 };
        closed
    }

    /// One full melody step against the notation sink: the driver says
    /// whether the open note closes, and hands the rounded walk position
    /// for the note that opens next.  The sink's step total keeps pace
    /// with the closing times.
    pub fn next_note(
        &mut self,
        rng: &mut rand_xoshiro::Xoshiro256StarStar,
        emit: bool,
        rounded_pitch: i32,
        out: &mut LilypondWriter,
    )
        requires
            old(self).wf(),
            old(out).wf(),
            old(self).time < 0xffff_fffe,
            -2147483642 <= rounded_pitch <= 2147483641,
        ensures
            final(self).wf(),
            final(out).wf(),
            final(self).time == old(self).time + 1,
            !emit ==> final(self).last_note == old(self).last_note && *final(out) == *old(out)
                && final(self).note.pitch == old(self).note.pitch && final(self).note.duration
                == old(self).note.duration + 1,
            emit ==> final(self).last_note == final(self).time,
            emit ==> final(out).output@ == old(out).output@ + event_text(
                (seq![old(self).note.pitch], old(self).note.duration as int),
                old(out).measure_left as int,
            ),
            emit ==> final(out).measure_left == spec_ml_after(
                old(self).note.duration as int,
                old(out).measure_left as int,
            ),
            emit ==> final(out).steps@ == old(out).steps@ + old(self).note.duration,
            emit && final(self).last_note % 4 == 3 ==> final(self).note.pitch.0 == rounded_pitch,
            emit && final(self).last_note % 4 != 3 ==> {
                let chord = spec_harmony_chord(final(self).time as int);
                let p = final(self).note.pitch.0 as int;
                &&& (exists|i: int|
                    0 <= i < chord.len() && note_class(p) == note_class(chord[i].0 as int))
                &&& (forall|i: int|
                    0 <= i < chord.len() ==> circ_dist(note_class(p), note_class(rounded_pitch as int))
                        <= circ_dist(note_class(chord[i].0 as int), note_class(rounded_pitch as int)))
                &&& -6 <= p - rounded_pitch <= 6
            },
            old(out).steps@ == old(self).last_note ==> final(out).steps@ == final(self).last_note,
    {
        if emit {
            let closed = self.close_note(rng, rounded_pitch);
            out.write_note(closed);
        } else {
            self.extend_note();
        }
    }

    /// Fills the rest of the last measure with a rest, where the run did
    /// not stop flush on a measure boundary.  With the sink's step total
    /// in pace, the total comes to the last close time rounded up to a
    /// whole measure.
    pub fn finish_melody(&self, out: &mut LilypondWriter)
        requires
            old(out).wf(),
        ensures
            final(out).wf(),
            final(out).steps@ == old(out).steps@ + (round_up_16(self.last_note as int)
                - self.last_note),
            old(out).steps@ == self.last_note ==> final(out).steps@ == round_up_16(
                self.last_note as int,
            ),
            self.last_note % 16 == 0 ==> *final(out) == *old(out),
            self.last_note % 16 != 0 ==> final(out).output@ == old(out).output@ + seq!['r']
                + duration_text((16 - self.last_note % 16) as u32) + seq![' '],
    {
        let left = self.measure_left();
        if left != 16 {
            out.write_rest(left);
        }
    }
}

/// Measure accounting: the steps in the notation sink, trailing rest
/// included, always total whole measures; and where the last note closed
/// inside the final measure, they equal the run's full length exactly.
pub proof fn lemma_measure_accounting(last_note: u32, total: u32)
    requires
        total % 16 == 0,
        last_note <= total,
        total < last_note + 16,
    ensures
        round_up_16(last_note as int) % 16 == 0,
        round_up_16(last_note as int) == total,
{
    let t = last_note as int;
    vstd::arithmetic::div_mod::lemma_fundamental_div_mod(t, 16);
    vstd::arithmetic::div_mod::lemma_fundamental_div_mod(total as int, 16);
    vstd::arithmetic::div_mod::lemma_mod_bound(t, 16);
    if t % 16 == 0 {
        assert(t == 16 * (t / 16));
        assert(total == 16 * (total as int / 16));
        assert(t == total) by (nonlinear_arith)
            requires
                t == 16 * (t / 16),
                total == 16 * (total as int / 16),
                t <= total < t + 16,
        ;
    } else {
        let r = round_up_16(t);
        let m = t / 16;
        let q = total as int / 16;
        let rem = t % 16;
        assert(r == 16 * m + 16);
        assert(r % 16 == 0) by {
            vstd::arithmetic::div_mod::lemma_mod_multiples_basic(m + 1, 16);
        }
        assert(total == 16 * q);
        assert(r == total) by (nonlinear_arith)
            requires
                t == 16 * m + rem,
                0 < rem < 16,
                total == 16 * q,
                t <= total < t + 16,
                r == 16 * m + 16,
        ;
    }
}

} // verus!
