//! Assembles the two generated parts into a complete two-staff score.

use vstd::prelude::*;
use vstd::string::StringExecFns;
use crate::text::dec_digits;

verus! {

/// The full score text around a melody body and a harmony body: version
/// header, a comment echoing the settings, a treble staff with the tempo
/// and the melody, and a bass staff with the harmony, both in C major at
/// 4/4.
pub open spec fn score_text(tempo: int, desc: Seq<char>, mel: Seq<char>, har: Seq<char>) -> Seq<
    char,
> {
    "\\version \"2.24.1\"\n% generated by passacaglia\n% "@ + desc
        + "\n\\score {\n\\new PianoStaff <<\n\\new Staff {\n\\tempo 4 = "@ + dec_digits(tempo)
        + "\n\\clef treble\n\\key c \\major\n\\time 4/4\n"@ + mel
        + "\n\\fine\n}\n\\new Staff {\n\\clef bass\n\\key c \\major\n\\time 4/4\n"@ + har
        + "\n\\fine\n}\n>>\n\\layout {}\n\\midi {}\n}"@
}

/// Renders the full score around the two part bodies.  `desc` is the
/// settings line the driver wants echoed in the header comment.
pub fn render_score(tempo: u32, desc: &str, melody: &str, harmony: &str) -> (s: String)
    ensures
        s@ == score_text(tempo as int, desc@, melody@, harmony@),
{
    let mut s = String::new();
    s.append("\\version \"2.24.1\"\n% generated by passacaglia\n% ");
    s.append(desc);
    s.append("\n\\score {\n\\new PianoStaff <<\n\\new Staff {\n\\tempo 4 = ");
    crate::text::write_u32(tempo, &mut s);
    s.append("\n\\clef treble\n\\key c \\major\n\\time 4/4\n");
    s.append(melody);
    s.append("\n\\fine\n}\n\\new Staff {\n\\clef bass\n\\key c \\major\n\\time 4/4\n");
    s.append(harmony);
    s.append("\n\\fine\n}\n>>\n\\layout {}\n\\midi {}\n}");
    assert(s@ =~= score_text(tempo as int, desc@, melody@, harmony@));
    s
}

} // verus!
