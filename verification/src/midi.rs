//! The event-timeline sink: a flat, ordered list of MIDI-like key events
//! per part, plus the control values a timeline file needs.

use vstd::prelude::*;
use crate::config::Config;
use crate::harmony::{ev_view, MusicEvent};
use crate::pitch::{Note, Pitch};

verus! {

/// One timed key event: `delta` ticks after the previous event, key `key`
/// pressed at velocity `velocity`.  A zero-velocity press stands for the
/// key release, as the historical wire convention has it.
#[derive(Clone, Copy, PartialEq, Eq, Structural, Debug)]
pub struct MidiEvent {
    pub delta: u32,
    pub key: u8,
    pub velocity: u8,
}

/// The event key of a pitch: offset so that the reference pitch becomes
/// key 48, three octaves above the lowest key.
pub open spec fn key_of(p: int) -> int {
    p + 48
}

/// Converts a pitch to its event key.
pub fn pitch_to_midi(pitch: Pitch) -> (k: u8)
    requires
        0 <= key_of(pitch.0 as int) <= 127,
    ensures
        k as int == key_of(pitch.0 as int),
{
    (pitch.0 + 48) as u8
}

/// A key press at the given velocity, at no delay.
pub open spec fn spec_on(p: int, vol: int) -> MidiEvent {
    MidiEvent { delta: 0, key: key_of(p) as u8, velocity: vol as u8 }
}

/// A key release (zero-velocity press), `d` ticks after the previous
/// event.
pub open spec fn spec_off(p: int, d: int) -> MidiEvent {
    MidiEvent { delta: d as u32, key: key_of(p) as u8, velocity: 0 }
}

/// The timeline of one event: every key pressed at once, then — after the
/// shared duration has passed — every key released.
pub open spec fn event_midi(ev: (Seq<Pitch>, int), vol: int) -> Seq<MidiEvent> {
    Seq::new(ev.0.len(), |i: int| spec_on(ev.0[i].0 as int, vol)) + Seq::new(
        ev.0.len(),
        |i: int|
            if i == 0 {
                spec_off(ev.0[i].0 as int, ev.1)
            } else {
                spec_off(ev.0[i].0 as int, 0)
            },
    )
}

/// The timeline of the events from index `k` on.
pub open spec fn midi_from(evs: Seq<(Seq<Pitch>, int)>, k: int, vol: int) -> Seq<MidiEvent>
    decreases evs.len() - k,
{
    if k < 0 || k >= evs.len() {
        Seq::empty()
    } else {
        event_midi(evs[k], vol) + midi_from(evs, k + 1, vol)
    }
}

/// The event-timeline sink for one part.
pub struct MidiWriter {
    pub volume: u8,
    pub output: Vec<MidiEvent>,
}

impl MidiWriter {
    /// A fresh, empty part at the configured velocity.
    pub fn new(config: &Config) -> (w: Self)
        ensures
            w.volume == config.volume,
            w.output@ == Seq::<MidiEvent>::empty(),
    {
        MidiWriter { volume: config.volume, output: Vec::new() }
    }

    /// Writes one note: a key press, and its release `duration` ticks
    /// later.
    pub fn write_note(&mut self, note: Note)
        requires
            0 <= key_of(note.pitch.0 as int) <= 127,
        ensures
            final(self).volume == old(self).volume,
            final(self).output@ == old(self).output@ + event_midi(
                (seq![note.pitch], note.duration as int),
                old(self).volume as int,
            ),
    {
        let key = pitch_to_midi(note.pitch);
        self.output.push(MidiEvent { delta: 0, key, velocity: self.volume });
        self.output.push(MidiEvent { delta: note.duration, key, velocity: 0 });
        assert(final(self).output@ =~= old(self).output@ + event_midi(
            (seq![note.pitch], note.duration as int),
            old(self).volume as int,
        ));
    }

    /// Writes one chord: simultaneous presses, then — after the shared
    /// duration — simultaneous releases.
    pub fn write_chord(&mut self, chord: &[Pitch], duration: u32)
        requires
            forall|j: int| 0 <= j < chord@.len() ==> 0 <= key_of((#[trigger] chord@[j]).0 as int) <= 127,
        ensures
            final(self).volume == old(self).volume,
            final(self).output@ == old(self).output@ + event_midi(
                (chord@, duration as int),
                old(self).volume as int,
            ),
    {
        let ghost ons = Seq::new(chord@.len(), |i: int| spec_on(chord@[i].0 as int, self.volume as int));
        let ghost offs = Seq::new(
            chord@.len(),
            |i: int|
                if i == 0 {
                    spec_off(chord@[i].0 as int, duration as int)
                } else {
                    spec_off(chord@[i].0 as int, 0)
                },
        );
        let mut k: usize = 0;
        while k < chord.len()
            invariant
                k <= chord@.len(),
                self.volume == old(self).volume,
                forall|j: int|
                    0 <= j < chord@.len() ==> 0 <= key_of((#[trigger] chord@[j]).0 as int) <= 127,
                ons == Seq::new(
                    chord@.len(),
                    |i: int| spec_on(chord@[i].0 as int, old(self).volume as int),
                ),
                self.output@ == old(self).output@ + ons.take(k as int),
            decreases chord@.len() - k,
        {
            let key = pitch_to_midi(chord[k]);
            self.output.push(MidiEvent { delta: 0, key, velocity: self.volume });
            assert(ons.take(k as int) + seq![ons[k as int]] =~= ons.take(k as int + 1));
            k += 1;
        }
        let mut k: usize = 0;
        while k < chord.len()
            invariant
                k <= chord@.len(),
                self.volume == old(self).volume,
                forall|j: int|
                    0 <= j < chord@.len() ==> 0 <= key_of((#[trigger] chord@[j]).0 as int) <= 127,
                ons == Seq::new(
                    chord@.len(),
                    |i: int| spec_on(chord@[i].0 as int, old(self).volume as int),
                ),
                offs == Seq::new(
                    chord@.len(),
                    |i: int|
                        if i == 0 {
                            spec_off(chord@[i].0 as int, duration as int)
                        } else {
                            spec_off(chord@[i].0 as int, 0)
                        },
                ),
                self.output@ == old(self).output@ + ons + offs.take(k as int),
            decreases chord@.len() - k,
        {
            let key = pitch_to_midi(chord[k]);
            let delta = if k == 0 {
                duration
            } else {
                0
            };
            self.output.push(MidiEvent { delta, key, velocity: 0 });
            assert(offs.take(k as int) + seq![offs[k as int]] =~= offs.take(k as int + 1));
            k += 1;
        }
        assert(ons.take(chord@.len() as int) =~= ons);
        assert(offs.take(chord@.len() as int) =~= offs);
        assert(final(self).output@ =~= old(self).output@ + event_midi(
            (chord@, duration as int),
            old(self).volume as int,
        ));
    }

    /// Writes one event: a note or a chord, as its pitch count says.
    pub fn write_event(&mut self, e: &MusicEvent)
        requires
            forall|j: int|
                0 <= j < e.pitches@.len() ==> 0 <= key_of((#[trigger] e.pitches@[j]).0 as int)
                    <= 127,
        ensures
            final(self).volume == old(self).volume,
            final(self).output@ == old(self).output@ + event_midi(
                ev_view(*e),
                old(self).volume as int,
            ),
    {
        if e.pitches.len() == 1 {
            let n = Note { pitch: e.pitches[0], duration: e.duration };
            self.write_note(n);
            assert(seq![e.pitches@[0]] =~= e.pitches@);
        } else {
            self.write_chord(e.pitches.as_slice(), e.duration);
        }
    }

    /// Writes a run of events in order.
    pub fn write_events(&mut self, v: &Vec<MusicEvent>)
        requires
            forall|i: int, j: int|
                0 <= i < v@.len() && 0 <= j < (#[trigger] v@[i]).pitches@.len() ==> 0 <= key_of(
                    #[trigger] v@[i].pitches@[j].0 as int,
                ) <= 127,
        ensures
            final(self).volume == old(self).volume,
            final(self).output@ == old(self).output@ + midi_from(
                v@.map_values(|e: MusicEvent| ev_view(e)),
                0,
                old(self).volume as int,
            ),
    {
        let ghost sevs = v@.map_values(|e: MusicEvent| ev_view(e));
        let mut i: usize = 0;
        while i < v.len()
            invariant
                i <= v@.len(),
                self.volume == old(self).volume,
                sevs == v@.map_values(|e: MusicEvent| ev_view(e)),
                forall|a: int, j: int|
                    0 <= a < v@.len() && 0 <= j < (#[trigger] v@[a]).pitches@.len() ==> 0 <= key_of(
                        #[trigger] v@[a].pitches@[j].0 as int,
                    ) <= 127,
                old(self).output@ + midi_from(sevs, 0, old(self).volume as int) =~= self.output@
                    + midi_from(sevs, i as int, old(self).volume as int),
            decreases v@.len() - i,
        {
            let ghost pre = self.output@;
            assert(sevs[i as int] == ev_view(v@[i as int]));
            self.write_event(&v[i]);
            assert(pre + midi_from(sevs, i as int, old(self).volume as int) =~= self.output@
                + midi_from(sevs, i as int + 1, old(self).volume as int));
            i += 1;
        }
        assert(final(self).output@ =~= old(self).output@ + midi_from(
            sevs,
            0,
            old(self).volume as int,
        ));
    }
}

/// The microseconds one beat lasts at `tempo` beats per minute.
pub fn tempo_micros(tempo: u32) -> (r: u32)
    requires
        tempo >= 1,
    ensures
        r == 60_000_000int / tempo as int,
{
    60_000_000 / tempo
}

/// The total length of a run in ticks: `repeat` passes over the sixteen
/// measures of the progression, sixteen steps each.
pub fn total_ticks(repeat: u32) -> (r: u32)
    requires
        repeat <= 0xffff_ffffu32 / 256,
    ensures
        r == 256 * repeat,
{
    256 * repeat
}

} // verus!
