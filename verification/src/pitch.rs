//! Semitone pitch model: note-class/octave decomposition and note spelling.

use vstd::prelude::*;
use vstd::string::StringExecFns;
use crate::text::push_char;

verus! {

/// A pitch as a signed number of semitones from the reference pitch
/// (the C below middle C in notation output).
#[derive(Clone, Copy, PartialEq, Eq, Structural, Debug)]
pub struct Pitch(pub i32);

/// The note class of a pitch value: its residue modulo 12, always in 0..12.
pub open spec fn note_class(p: int) -> int {
    p % 12
}

/// The octave of a pitch value: Euclidean division by 12, so negative
/// pitches fall in negative octaves.
pub open spec fn octave_of(p: int) -> int {
    p / 12
}

impl Pitch {
    /// The pitch reduced to its note class, as a pitch in the reference octave.
    pub fn note(&self) -> (r: Self)
        ensures
            r.0 == note_class(self.0 as int),
    {
        Pitch(self.0.checked_rem_euclid(12).unwrap())
    }

    /// The octave this pitch lies in.
    pub fn octave(&self) -> (r: i32)
        ensures
            r == octave_of(self.0 as int),
    {
        self.0.checked_div_euclid(12).unwrap()
    }
}

/// Every pitch decomposes into its octave and its note class: the class lies
/// in 0..12 and re-assembling octave and class gives the pitch back.
pub proof fn lemma_pitch_decomposition(p: Pitch)
    ensures
        0 <= note_class(p.0 as int) < 12,
        p.0 as int == 12 * octave_of(p.0 as int) + note_class(p.0 as int),
{
}

/// A pitch together with its length in sixteenth-note steps.
#[derive(Clone, Copy, PartialEq, Eq, Structural, Debug)]
pub struct Note {
    pub pitch: Pitch,
    pub duration: u32,
}

/// The distance between two note classes on the circle of twelve
/// semitones: going up or going down, whichever is shorter.
pub open spec fn circ_dist(a: int, b: int) -> int {
    let d = if a >= b {
        a - b
    } else {
        b - a
    };
    if d > 6 {
        12 - d
    } else {
        d
    }
}

impl Pitch {
    /// The candidate tone nearest to this pitch.
    ///
    /// Picks, among the candidates' note classes, one at the smallest
    /// circular distance from this pitch's note class — a tie falls to a
    /// coin flip, an exact match wins outright — and places it in the
    /// octave nearest to this pitch, at most six semitones away.
    pub fn nearest_note(
        &self,
        rng: &mut rand_xoshiro::Xoshiro256StarStar,
        pitches: &[Pitch],
    ) -> (r: Pitch)
        requires
            pitches@.len() > 0,
            -2147483642 <= self.0 <= 2147483641,
        ensures
            exists|i: int|
                0 <= i < pitches@.len() && note_class(r.0 as int) == note_class(
                    pitches@[i].0 as int,
                ),
            forall|i: int|
                0 <= i < pitches@.len() ==> circ_dist(
                    note_class(r.0 as int),
                    note_class(self.0 as int),
                ) <= circ_dist(note_class(pitches@[i].0 as int), note_class(self.0 as int)),
            -6 <= r.0 - self.0 <= 6,
    {
        let sn = self.note();
        let mut best: u32 = 12;
        let mut nearest: Pitch = *self;
        let mut k: usize = 0;
        while k < pitches.len()
            invariant_except_break
                k <= pitches@.len(),
                pitches@.len() > 0,
                0 <= sn.0 < 12,
                sn.0 == note_class(self.0 as int),
                k == 0 ==> best == 12,
                k > 0 ==> 1 <= best <= 6 && 0 <= nearest.0 < 12 && best == circ_dist(
                    nearest.0 as int,
                    sn.0 as int,
                ) && (exists|i: int|
                    0 <= i < k && nearest.0 == note_class(pitches@[i].0 as int)) && (forall|i: int|
                    0 <= i < k ==> circ_dist(note_class(pitches@[i].0 as int), sn.0 as int)
                        >= best),
            ensures
                0 <= nearest.0 < 12,
                exists|i: int|
                    0 <= i < pitches@.len() && nearest.0 == note_class(pitches@[i].0 as int),
                forall|i: int|
                    0 <= i < pitches@.len() ==> circ_dist(note_class(pitches@[i].0 as int), sn.0 as int)
                        >= circ_dist(nearest.0 as int, sn.0 as int),
            decreases pitches@.len() - k,
        {
            let pn = pitches[k].note();
            let mut diff: u32 = if pn.0 >= sn.0 {
                (pn.0 - sn.0) as u32
            } else {
                (sn.0 - pn.0) as u32
            };
            if diff > 6 {
                diff = 12 - diff;
            }
            assert(diff == circ_dist(pn.0 as int, sn.0 as int));
            if diff == 0 {
                nearest = pn;
                assert(forall|i: int|
                    0 <= i < pitches@.len() ==> circ_dist(
                        note_class(pitches@[i].0 as int),
                        sn.0 as int,
                    ) >= 0);
                break ;
            } else if diff < best {
                nearest = pn;
                best = diff;
            } else if diff == best && crate::rng::coin_flip(rng) {
                nearest = pn;
            }
            k += 1;
        }
        let nn = nearest.note();
        let mut diff: i32 = nn.0 - sn.0;
        if diff > 6 {
            diff = diff - 12;
        } else if diff < -6 {
            diff = diff + 12;
        }
        let r = Pitch(self.0 + diff);
        proof {
            let t: int = if nn.0 - sn.0 > 6 {
                -1
            } else if nn.0 - sn.0 < -6 {
                1
            } else {
                0
            };
            assert(r.0 as int == 12 * (octave_of(self.0 as int) + t) + nearest.0 as int);
            vstd::arithmetic::div_mod::lemma_mod_multiples_vanish(
                octave_of(self.0 as int) + t,
                nearest.0 as int,
                12,
            );
            vstd::arithmetic::div_mod::lemma_small_mod(nearest.0 as nat, 12);
            assert(note_class(r.0 as int) == nearest.0 as int);
        }
        r
    }
}

/// The chosen octave placement is nearest: no other pitch of the same note
/// class lies closer to the starting pitch than one at most six semitones
/// away.
pub proof fn lemma_nearest_placement(p: int, r: int, k: int)
    requires
        -6 <= r - p <= 6,
        note_class(k) == note_class(r),
    ensures
        vstd::math::abs(r - p) <= vstd::math::abs(k - p),
{
    if k != r {
        vstd::arithmetic::div_mod::lemma_mod_equivalence(k, r, 12);
        assert((k - r) % 12 == 0);
        vstd::arithmetic::div_mod::lemma_fundamental_div_mod(k - r, 12);
        let j = (k - r) / 12;
        assert(k - r == 12 * j);
        assert(j != 0);
        assert(j >= 1 || j <= -1);
        assert(12 * j >= 12 || 12 * j <= -12) by (nonlinear_arith)
            requires
                j >= 1 || j <= -1,
        ;
    }
}

/// The Lilypond spelling of a note class.  The spellings are chosen to be
/// enharmonically right for the keys from D major through A-flat major and
/// from F-sharp minor through C minor.
pub open spec fn note_name(c: int) -> Seq<char> {
    if c == 0 {
        "c"@
    } else if c == 1 {
        "cis"@
    } else if c == 2 {
        "d"@
    } else if c == 3 {
        "ees"@
    } else if c == 4 {
        "e"@
    } else if c == 5 {
        "f"@
    } else if c == 6 {
        "fis"@
    } else if c == 7 {
        "g"@
    } else if c == 8 {
        "aes"@
    } else if c == 9 {
        "a"@
    } else if c == 10 {
        "bes"@
    } else {
        "b"@
    }
}

/// `n` copies of the character `c`.
pub open spec fn repeat_char(c: char, n: nat) -> Seq<char>
    decreases n,
{
    if n == 0 {
        Seq::empty()
    } else {
        repeat_char(c, (n - 1) as nat) + seq![c]
    }
}

/// The octave marks after a note name: one raise mark per octave above the
/// reference octave, or one lower mark per octave below it.
pub open spec fn octave_marks(oct: int) -> Seq<char> {
    if oct >= 0 {
        repeat_char('\'', oct as nat)
    } else {
        repeat_char(',', (-oct) as nat)
    }
}

/// The full Lilypond text of a pitch: its note name and its octave marks.
pub open spec fn pitch_text(p: int) -> Seq<char> {
    note_name(note_class(p)) + octave_marks(octave_of(p))
}

impl Pitch {
    /// The spelling of this pitch's note class.
    pub fn to_name(&self) -> (r: &'static str)
        ensures
            r@ == note_name(note_class(self.0 as int)),
    {
        match self.note().0 {
            0 => "c",
            1 => "cis",
            2 => "d",
            3 => "ees",
            4 => "e",
            5 => "f",
            6 => "fis",
            7 => "g",
            8 => "aes",
            9 => "a",
            10 => "bes",
            _ => "b",
        }
    }

    /// Appends the Lilypond text of this pitch: note name, then octave
    /// marks.
    pub fn write_name(&self, out: &mut String)
        ensures
            final(out)@ == old(out)@ + pitch_text(self.0 as int),
    {
        out.append(self.to_name());
        let oct = self.octave();
        let mark = if oct >= 0 {
            '\''
        } else {
            ','
        };
        let n: u32 = if oct >= 0 {
            oct as u32
        } else {
            (-oct) as u32
        };
        let mut i: u32 = 0;
        while i < n
            invariant
                i <= n,
                out@ == old(out)@ + note_name(note_class(self.0 as int)) + repeat_char(
                    mark,
                    i as nat,
                ),
            decreases n - i,
        {
            push_char(out, mark);
            i += 1;
        }
        assert(final(out)@ =~= old(out)@ + pitch_text(self.0 as int));
    }
}

} // verus!
