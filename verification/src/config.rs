//! The settings a generation run works from.

use vstd::prelude::*;
use crate::text::str_eq;

verus! {

/// The harmony preset: how each chord of the progression unfolds in time.
#[derive(Clone, Copy, PartialEq, Eq, Structural, Debug)]
pub enum Harmony {
    Quarter,
    UpOctaves,
    DownOctaves,
    CenterEighths,
    Mirror,
    Triples,
    QuarterChords,
}

/// The harmony preset a name stands for.
pub open spec fn spec_harmony_from(s: Seq<char>) -> Option<Harmony> {
    if s == "quarter"@ {
        Some(Harmony::Quarter)
    } else if s == "up-octaves"@ {
        Some(Harmony::UpOctaves)
    } else if s == "down-octaves"@ {
        Some(Harmony::DownOctaves)
    } else if s == "center-8ths"@ {
        Some(Harmony::CenterEighths)
    } else if s == "mirror"@ {
        Some(Harmony::Mirror)
    } else if s == "triples"@ {
        Some(Harmony::Triples)
    } else if s == "quarter-chords"@ {
        Some(Harmony::QuarterChords)
    } else {
        None
    }
}

impl Harmony {
    /// Parses a harmony preset name.
    pub fn from_str(str: &str) -> (r: Option<Harmony>)
        ensures
            r == spec_harmony_from(str@),
    {
        if str_eq(str, "quarter") {
            Some(Harmony::Quarter)
        } else if str_eq(str, "up-octaves") {
            Some(Harmony::UpOctaves)
        } else if str_eq(str, "down-octaves") {
            Some(Harmony::DownOctaves)
        } else if str_eq(str, "center-8ths") {
            Some(Harmony::CenterEighths)
        } else if str_eq(str, "mirror") {
            Some(Harmony::Mirror)
        } else if str_eq(str, "triples") {
            Some(Harmony::Triples)
        } else if str_eq(str, "quarter-chords") {
            Some(Harmony::QuarterChords)
        } else {
            None
        }
    }
}

/// The rhythm tendency: which periodic shape drives note speed over time.
#[derive(Clone, Copy, PartialEq, Eq, Structural, Debug)]
pub enum Rhythm {
    Sinusoidal,
    Sawtooth,
}

/// The rhythm tendency a name stands for.
pub open spec fn spec_rhythm_from(s: Seq<char>) -> Option<Rhythm> {
    if s == "sine"@ || s == "sinusoidal"@ {
        Some(Rhythm::Sinusoidal)
    } else if s == "saw"@ || s == "sawtooth"@ {
        Some(Rhythm::Sawtooth)
    } else {
        None
    }
}

impl Rhythm {
    /// Parses a rhythm tendency name.
    pub fn from_str(str: &str) -> (r: Option<Rhythm>)
        ensures
            r == spec_rhythm_from(str@),
    {
        if str_eq(str, "sine") || str_eq(str, "sinusoidal") {
            Some(Rhythm::Sinusoidal)
        } else if str_eq(str, "saw") || str_eq(str, "sawtooth") {
            Some(Rhythm::Sawtooth)
        } else {
            None
        }
    }
}

/// What the notation and event sinks need to know of a run.
///
/// The floating-point simulation coefficients (note-length range,
/// steadiness, gravity, drag, nudge, stutter) belong to the driver of the
/// melody walk; the library sees their effect only through the per-step
/// decisions handed to it.
#[derive(Clone, Copy, Debug)]
pub struct Config {
    /// The harmony preset to use.
    pub harmony: Harmony,
    /// The rhythm tendency to use.
    pub rhythm: Rhythm,
    /// The number of beats per minute.
    pub tempo: u32,
    /// The pitch of the harmony's lowest note; a multiple of 12.
    pub harmony_base: i32,
    /// The pitch of the melody's center.
    pub melody_base: i32,
    /// The number of times to repeat the harmony.
    pub repeat: u32,
    /// The seed of the random generator.
    pub seed: u64,
    /// The key velocity of direct event output, between 1 and 127.
    pub volume: u8,
}

impl Config {
    /// A configuration the generator can run from: the harmony base is a
    /// multiple of 12 and leaves room for the chord offsets, and tempo,
    /// repeat count and velocity are in range.
    pub open spec fn wf(self) -> bool {
        &&& self.tempo >= 1
        &&& self.repeat >= 1
        &&& 1 <= self.volume <= 127
        &&& self.harmony_base % 12 == 0
        &&& -2147483635 <= self.harmony_base <= 2147483628
    }
}

} // verus!
