//! Duration encoder: integer step counts rendered as tied and dotted
//! note lengths, and the decoding that gives the step count back.
//!
//! Durations are measured in sixteenth-note steps; a whole note is 16 steps.
//! The encoder scans the bits of the duration from the highest set bit
//! downward: the first set bit of a run becomes a base note length, the rest
//! of the run becomes dots, and separate runs are joined with a tie.

use vstd::prelude::*;
use vstd::string::StringExecFns;
use crate::text::push_char;

verus! {

/// Two to the power `m`, for the bit positions of a duration below 32.
pub open spec fn pow2m(m: int) -> int {
    if m <= 0 {
        1
    } else if m == 1 {
        2
    } else if m == 2 {
        4
    } else if m == 3 {
        8
    } else if m == 4 {
        16
    } else {
        32
    }
}

/// Whether bit `m` of `d` is set, for the five bits a duration can use.
pub open spec fn bit_set(d: u32, m: int) -> bool {
    0 <= m < 5 && (d as int / pow2m(m)) % 2 == 1
}

/// The value of the bits of `d` at and below `m`.
pub open spec fn bits_value(d: u32, m: int) -> int
    decreases m + 1,
{
    if m < 0 {
        0
    } else if bit_set(d, m) {
        pow2m(m) + bits_value(d, m - 1)
    } else {
        bits_value(d, m - 1)
    }
}

/// The notation for a base note length: bit index 0 is a sixteenth,
/// 4 a whole note.
pub open spec fn base_text(m: int) -> Seq<char> {
    if m == 0 {
        seq!['1', '6']
    } else if m == 1 {
        seq!['8']
    } else if m == 2 {
        seq!['4']
    } else if m == 3 {
        seq!['2']
    } else {
        seq!['1']
    }
}

/// The text emitted for the bits of `d` at and below `m`, before any base
/// length has been emitted for the current run; `printed` says whether an
/// earlier base length needs a tie in front of the next one.
pub open spec fn text_bits(d: u32, m: int, printed: bool) -> Seq<char>
    decreases m + 1,
{
    if m < 0 {
        Seq::empty()
    } else if !bit_set(d, m) {
        text_bits(d, m - 1, printed)
    } else if printed {
        seq!['~'] + base_text(m) + text_dots(d, m - 1)
    } else {
        base_text(m) + text_dots(d, m - 1)
    }
}

/// The text emitted directly after a base length: a dot for every further
/// set bit of the run, then the remaining bits with a tie owed.
pub open spec fn text_dots(d: u32, m: int) -> Seq<char>
    decreases m + 1,
{
    if m < 0 {
        Seq::empty()
    } else if bit_set(d, m) {
        seq!['.'] + text_dots(d, m - 1)
    } else {
        text_bits(d, m - 1, true)
    }
}

/// The full tie/dot notation of a duration of `d` steps.
pub open spec fn duration_text(d: u32) -> Seq<char> {
    text_bits(d, 4, false)
}

/// Decodes a note length starting at `i`: a base token, its dots, and
/// whatever a tie joins on.  Returns 0 where no base token starts.
pub open spec fn decode_note(s: Seq<char>, i: int) -> int
    decreases s.len() - i, 1int,
{
    if i < 0 || i >= s.len() {
        0
    } else if i + 1 < s.len() && s[i] == '1' && s[i + 1] == '6' {
        1 + decode_tail(s, i + 2, 1)
    } else if s[i] == '8' {
        2 + decode_tail(s, i + 1, 2)
    } else if s[i] == '4' {
        4 + decode_tail(s, i + 1, 4)
    } else if s[i] == '2' {
        8 + decode_tail(s, i + 1, 8)
    } else if s[i] == '1' {
        16 + decode_tail(s, i + 1, 16)
    } else {
        0
    }
}

/// Decodes what follows a base length worth `last` steps: each dot adds
/// half of what was last added, and a tie starts a further note length.
pub open spec fn decode_tail(s: Seq<char>, i: int, last: int) -> int
    decreases s.len() - i, 0int,
{
    if i < 0 || i >= s.len() {
        0
    } else if s[i] == '.' {
        last / 2 + decode_tail(s, i + 1, last / 2)
    } else if s[i] == '~' {
        decode_note(s, i + 1)
    } else {
        0
    }
}

/// The step count a stretch of tie/dot notation stands for.
pub open spec fn duration_steps(s: Seq<char>) -> int {
    decode_note(s, 0)
}

proof fn lemma_decode_note_shift(prefix: Seq<char>, rest: Seq<char>, i: int)
    requires
        0 <= i <= rest.len(),
    ensures
        decode_note(prefix + rest, prefix.len() + i) == decode_note(rest, i),
    decreases rest.len() - i, 1int,
{
    let s = prefix + rest;
    let j = prefix.len() + i;
    if i < rest.len() {
        if i + 1 < rest.len() && rest[i] == '1' && rest[i + 1] == '6' {
            lemma_decode_tail_shift(prefix, rest, i + 2, 1);
        } else if rest[i] == '8' {
            lemma_decode_tail_shift(prefix, rest, i + 1, 2);
        } else if rest[i] == '4' {
            lemma_decode_tail_shift(prefix, rest, i + 1, 4);
        } else if rest[i] == '2' {
            lemma_decode_tail_shift(prefix, rest, i + 1, 8);
        } else if rest[i] == '1' {
            lemma_decode_tail_shift(prefix, rest, i + 1, 16);
        }
    }
}

proof fn lemma_decode_tail_shift(prefix: Seq<char>, rest: Seq<char>, i: int, last: int)
    requires
        0 <= i <= rest.len(),
    ensures
        decode_tail(prefix + rest, prefix.len() + i, last) == decode_tail(rest, i, last),
    decreases rest.len() - i, 0int,
{
    if i < rest.len() {
        if rest[i] == '.' {
            lemma_decode_tail_shift(prefix, rest, i + 1, last / 2);
        } else if rest[i] == '~' {
            lemma_decode_note_shift(prefix, rest, i + 1);
        }
    }
}

proof fn lemma_bits_nonneg(d: u32, m: int)
    ensures
        bits_value(d, m) >= 0,
    decreases m + 1,
{
    if m >= 0 {
        lemma_bits_nonneg(d, m - 1);
    }
}

/// With a tie owed, the emitted text is the untied text with a tie in
/// front, or nothing at all where no bit is set.
proof fn lemma_tie_prefix(d: u32, m: int)
    ensures
        bits_value(d, m) == 0 ==> text_bits(d, m, true) == Seq::<char>::empty(),
        bits_value(d, m) != 0 ==> text_bits(d, m, true) == seq!['~'] + text_bits(d, m, false),
    decreases m + 1,
{
    if m >= 0 {
        if bit_set(d, m) {
            lemma_bits_nonneg(d, m - 1);
            assert(text_bits(d, m, true) =~= seq!['~'] + text_bits(d, m, false));
        } else {
            lemma_tie_prefix(d, m - 1);
        }
    }
}

/// The text after a base length starts with a dot or a tie, never with a
/// character that could extend the base token.
proof fn lemma_dots_first_char(d: u32, m: int)
    ensures
        text_dots(d, m).len() == 0 || text_dots(d, m)[0] == '.' || text_dots(d, m)[0] == '~',
    decreases m + 1,
{
    if m >= 0 && !bit_set(d, m) {
        lemma_tie_prefix(d, m - 1);
        if bits_value(d, m - 1) != 0 {
            assert(text_bits(d, m - 1, true)[0] == '~');
        }
    }
}

proof fn lemma_decode_bits(d: u32, m: int)
    requires
        m < 5,
    ensures
        decode_note(text_bits(d, m, false), 0) == bits_value(d, m),
    decreases m + 1, 1int,
{
    if m >= 0 {
        if !bit_set(d, m) {
            lemma_decode_bits(d, m - 1);
        } else {
            let s = text_bits(d, m, false);
            let dots = text_dots(d, m - 1);
            assert(s =~= base_text(m) + dots);
            lemma_dots_first_char(d, m - 1);
            if m == 0 {
                lemma_decode_tail_shift(base_text(0), dots, 0, 1);
                lemma_decode_dots(d, -1, 1);
            } else if m == 1 {
                lemma_decode_tail_shift(base_text(1), dots, 0, 2);
                lemma_decode_dots(d, 0, 2);
            } else if m == 2 {
                lemma_decode_tail_shift(base_text(2), dots, 0, 4);
                lemma_decode_dots(d, 1, 4);
            } else if m == 3 {
                lemma_decode_tail_shift(base_text(3), dots, 0, 8);
                lemma_decode_dots(d, 2, 8);
            } else {
                assert(s[0] == '1');
                assert(s.len() > 1 ==> (s[1] == '.' || s[1] == '~'));
                lemma_decode_tail_shift(base_text(4), dots, 0, 16);
                lemma_decode_dots(d, 3, 16);
            }
        }
    }
}

proof fn lemma_decode_dots(d: u32, m: int, last: int)
    requires
        m < 5,
        last == pow2m(m + 1),
    ensures
        decode_tail(text_dots(d, m), 0, last) == bits_value(d, m),
    decreases m + 1, 0int,
{
    if m >= 0 {
        if bit_set(d, m) {
            let s = text_dots(d, m);
            assert(s =~= seq!['.'] + text_dots(d, m - 1));
            lemma_decode_tail_shift(seq!['.'], text_dots(d, m - 1), 0, last / 2);
            lemma_decode_dots(d, m - 1, last / 2);
        } else {
            lemma_tie_prefix(d, m - 1);
            if bits_value(d, m - 1) != 0 {
                let s = text_bits(d, m - 1, true);
                assert(s[0] == '~');
                lemma_decode_note_shift(seq!['~'], text_bits(d, m - 1, false), 0);
                lemma_decode_bits(d, m - 1);
            }
        }
    }
}

/// The bits of a duration below 32 are all at positions 0 through 4, so
/// their value is the duration itself.
proof fn lemma_bits_value_id(d: u32)
    requires
        d < 32,
    ensures
        bits_value(d, 4) == d,
{
    reveal_with_fuel(bits_value, 6);
    let x = d as int;
    assert(x == 16 * ((x / 16) % 2) + 8 * ((x / 8) % 2) + 4 * ((x / 4) % 2) + 2 * ((x / 2) % 2)
        + x % 2);
}

/// The duration encoding round-trips: decoding the emitted tie/dot text of
/// any duration the encoder accepts gives the original step count back.
pub proof fn lemma_duration_roundtrip(d: u32)
    requires
        1 <= d < 32,
    ensures
        duration_steps(duration_text(d)) == d,
{
    lemma_decode_bits(d, 4);
    lemma_bits_value_id(d);
}

/// Whether bit `m` of `d` is set.
fn bit_of(d: u32, m: u32) -> (b: bool)
    requires
        m <= 4,
    ensures
        b == bit_set(d, m as int),
{
    let p: u32 = match m {
        0 => 1,
        1 => 2,
        2 => 4,
        3 => 8,
        _ => 16,
    };
    (d / p) % 2 == 1
}

/// Emits the bits of `d` at and below bit `m` as note lengths, dots and
/// ties, mirroring `text_bits`.
fn write_bits(d: u32, m: i32, printed: bool, out: &mut String)
    requires
        d < 32,
        m <= 4,
    ensures
        final(out)@ == old(out)@ + text_bits(d, m as int, printed),
    decreases m + 1,
{
    if m < 0 {
        assert(final(out)@ =~= old(out)@ + text_bits(d, m as int, printed));
        return ;
    }
    if bit_of(d, m as u32) {
        if printed {
            push_char(out, '~');
        }
        match m {
            0 => out.append("16"),
            1 => out.append("8"),
            2 => out.append("4"),
            3 => out.append("2"),
            _ => out.append("1"),
        }
        proof {
            reveal_strlit("16");
            reveal_strlit("8");
            reveal_strlit("4");
            reveal_strlit("2");
            reveal_strlit("1");
        }
        write_dots(d, m - 1, out);
        assert(final(out)@ =~= old(out)@ + text_bits(d, m as int, printed));
    } else {
        write_bits(d, m - 1, printed, out);
    }
}

/// Emits the dots of a run of set bits, then carries on below it.
fn write_dots(d: u32, m: i32, out: &mut String)
    requires
        d < 32,
        m <= 4,
    ensures
        final(out)@ == old(out)@ + text_dots(d, m as int),
    decreases m + 1,
{
    if m < 0 {
        assert(final(out)@ =~= old(out)@ + text_dots(d, m as int));
        return ;
    }
    if bit_of(d, m as u32) {
        push_char(out, '.');
        write_dots(d, m - 1, out);
        assert(final(out)@ =~= old(out)@ + text_dots(d, m as int));
    } else {
        write_bits(d, m - 1, true, out);
    }
}

/// Appends the tie/dot notation of a duration of `duration` steps.
///
/// Callers keep durations below two measures; a longer note is split at
/// measure boundaries first (see the notation sink).
pub fn write_duration(duration: u32, out: &mut String)
    requires
        1 <= duration < 32,
    ensures
        final(out)@ == old(out)@ + duration_text(duration),
        duration_steps(duration_text(duration)) == duration,
{
    proof {
        lemma_duration_roundtrip(duration);
    }
    write_bits(duration, 4, false, out);
}

} // verus!
