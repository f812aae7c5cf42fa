//! Text helpers: case-insensitive comparison of ASCII words and the tiled
//! line of watermark text.

use vstd::prelude::*;
use vstd::string::StringExecFns;

verus! {

/// The lower-case form of an ASCII capital; every other character unchanged.
pub open spec fn ascii_lower(c: char) -> char {
    if 'A' <= c && c <= 'Z' {
        ((c as u8 + 32) as u8) as char
    } else {
        c
    }
}

/// Whether two texts are equal once ASCII capitals are lowered.
pub open spec fn same_ignoring_case(a: Seq<char>, b: Seq<char>) -> bool {
    a.len() == b.len() && forall|i: int| 0 <= i < a.len() ==> ascii_lower(a[i]) == ascii_lower(b[i])
}

/// Lowers one character.
pub fn lower(c: char) -> (l: char)
    ensures
        l == ascii_lower(c),
{
    if 'A' <= c && c <= 'Z' {
        ((c as u8 + 32) as u8) as char
    } else {
        c
    }
}

/// Compares two texts without regard to the case of ASCII letters.
pub fn eq_ignore_ascii_case(a: &str, b: &str) -> (same: bool)
    ensures
        same == same_ignoring_case(a@, b@),
{
    let n: usize = a.unicode_len();
    if b.unicode_len() != n {
        return false;
    }
    let mut i: usize = 0;
    while i < n
        invariant
            n == a@.len(),
            n == b@.len(),
            i <= n,
            forall|k: int| 0 <= k < i ==> ascii_lower(a@[k]) == ascii_lower(b@[k]),
        decreases n - i,
    {
        if lower(a.get_char(i)) != lower(b.get_char(i)) {
            return false;
        }
        i += 1;
    }
    true
}

/// Repeats of the text unit used when the unit's rendered width is unknown.
pub const DEFAULT_REPEATS: u64 = 128;

/// What separates one copy of the watermark text from the next in a line.
pub open spec fn separator() -> Seq<char> {
    seq![' ', ' ', ' ']
}

/// `count` copies of `unit`, one after another.
pub open spec fn repeated(unit: Seq<char>, count: nat) -> Seq<char>
    decreases count,
{
    if count == 0 {
        Seq::empty()
    } else {
        repeated(unit, (count - 1) as nat) + unit
    }
}

/// A repeated text is as long as its unit times the count.
pub proof fn lemma_repeated_len(unit: Seq<char>, count: nat)
    ensures
        repeated(unit, count).len() == count * unit.len(),
    decreases count,
{
    if count > 0 {
        lemma_repeated_len(unit, (count - 1) as nat);
        assert((count - 1) * unit.len() + unit.len() == count * unit.len()) by (nonlinear_arith);
    } else {
        assert(0 * unit.len() == 0) by (nonlinear_arith);
    }
}

/// Builds one line of watermark text: `repeats` copies of the text, each
/// followed by the separator. An empty text gives a line of separators.
pub fn tiled_line(text: &str, repeats: u64) -> (line: String)
    ensures
        line@ == repeated(text@ + separator(), repeats as nat),
        line@.len() == repeats * (text@.len() + 3),
{
    proof {
        lemma_repeated_len(text@ + separator(), repeats as nat);
    }
    let mut line = String::new();
    let mut done: u64 = 0;
    proof {
        reveal_strlit("   ");
        assert("   "@ =~= separator());
    }
    while done < repeats
        invariant
            done <= repeats,
            "   "@ == separator(),
            line@ == repeated(text@ + separator(), done as nat),
        decreases repeats - done,
    {
        let ghost before = line@;
        line.append(text);
        line.append("   ");
        assert(line@ =~= before + (text@ + separator()));
        done += 1;
    }
    line
}

/// Copies of the text unit needed for a line to reach past a canvas `side`
/// pixels wide, when one unit renders `unit_width` pixels wide: the least
/// count whose total width exceeds `side`. A unit without width gets
/// `DEFAULT_REPEATS` copies.
pub fn line_repeats(unit_width: u32, side: u32) -> (repeats: u64)
    ensures
        unit_width == 0 ==> repeats == DEFAULT_REPEATS,
        unit_width > 0 ==> repeats * unit_width > side && (repeats - 1) * unit_width <= side,
        repeats >= 1,
{
    if unit_width == 0 {
        return DEFAULT_REPEATS;
    }
    let whole: u64 = (side / unit_width) as u64;
    proof {
        let s = side as int;
        let u = unit_width as int;
        let q = s / u;
        assert(q * u <= s && (q + 1) * u > s && q <= s && q >= 0) by (nonlinear_arith)
            requires
                q == s / u,
                u >= 1,
                s >= 0,
        ;
    }
    whole + 1
}

} // verus!
