//! Watermark colours: six hexadecimal digits, with or without one `#` in
//! front, plus an opacity.

use crate::raster::Rgba;
use vstd::prelude::*;

verus! {

/// Why a colour text was refused.
#[derive(Clone, Copy, Debug, PartialEq, Eq, Structural)]
pub enum ColorError {
    /// The text does not hold six characters after its optional `#`.
    BadLength,
    /// One of the six characters is not a hexadecimal digit.
    BadDigit,
}

/// The text without the `#` at its start, if it has one. At most one mark
/// is taken off: a second one counts as a character of the colour.
pub open spec fn strip_mark(text: Seq<char>) -> Seq<char> {
    if text.len() > 0 && text[0] == '#' {
        text.drop_first()
    } else {
        text
    }
}

/// Value of a hexadecimal digit of either case, or `None` for any other
/// character.
pub open spec fn hex_value(c: char) -> Option<u8> {
    if '0' <= c && c <= '9' {
        Some((c as u8 - '0' as u8) as u8)
    } else if 'a' <= c && c <= 'f' {
        Some((c as u8 - 'a' as u8 + 10) as u8)
    } else if 'A' <= c && c <= 'F' {
        Some((c as u8 - 'A' as u8 + 10) as u8)
    } else {
        None
    }
}

/// Whether the text is exactly six hexadecimal digits.
pub open spec fn is_hex_color(digits: Seq<char>) -> bool {
    digits.len() == 6 && forall|i: int| 0 <= i < 6 ==> (#[trigger] hex_value(digits[i])) is Some
}

/// The byte that two hexadecimal digits spell.
pub open spec fn hex_pair(high: char, low: char) -> u8 {
    (hex_value(high).unwrap() * 16 + hex_value(low).unwrap()) as u8
}

/// The colour that six hexadecimal digits spell, with the given opacity.
pub open spec fn color_of(digits: Seq<char>, alpha: u8) -> Rgba {
    Rgba {
        r: hex_pair(digits[0], digits[1]),
        g: hex_pair(digits[2], digits[3]),
        b: hex_pair(digits[4], digits[5]),
        a: alpha,
    }
}

/// What `parse_color` owes for a text and an opacity.
pub open spec fn parsed_color(text: Seq<char>, alpha: u8) -> Result<Rgba, ColorError> {
    let digits = strip_mark(text);
    if digits.len() != 6 {
        Err(ColorError::BadLength)
    } else if !is_hex_color(digits) {
        Err(ColorError::BadDigit)
    } else {
        Ok(color_of(digits, alpha))
    }
}

/// The capital hexadecimal digit for a value below 16.
pub open spec fn hex_char(value: u8) -> char {
    if value < 10 {
        (('0' as u8 + value) as u8) as char
    } else {
        (('A' as u8 + value - 10) as u8) as char
    }
}

/// The six capital digits that spell a colour.
pub open spec fn spelled(r: u8, g: u8, b: u8) -> Seq<char> {
    seq![
        hex_char(r / 16),
        hex_char(r % 16),
        hex_char(g / 16),
        hex_char(g % 16),
        hex_char(b / 16),
        hex_char(b % 16),
    ]
}

/// The six digits of a colour in small letters.
pub open spec fn spelled_small(r: u8, g: u8, b: u8) -> Seq<char> {
    spelled(r, g, b).map_values(|c: char| crate::text::ascii_lower(c))
}

/// Every colour round-trips: the six digits that spell its components, in
/// capitals or in small letters, with or without one `#` in front, parse to
/// exactly those components, and the opacity comes out as given. With two
/// marks in front the text is refused.
pub proof fn lemma_color_round_trip(r: u8, g: u8, b: u8, alpha: u8)
    ensures
        parsed_color(spelled(r, g, b), alpha) == Ok::<Rgba, ColorError>(Rgba { r, g, b, a: alpha }),
        parsed_color(seq!['#'] + spelled(r, g, b), alpha) == Ok::<Rgba, ColorError>(
            Rgba { r, g, b, a: alpha },
        ),
        parsed_color(spelled_small(r, g, b), alpha) == Ok::<Rgba, ColorError>(
            Rgba { r, g, b, a: alpha },
        ),
        parsed_color(seq!['#'] + spelled_small(r, g, b), alpha) == Ok::<Rgba, ColorError>(
            Rgba { r, g, b, a: alpha },
        ),
        parsed_color(seq!['#', '#'] + spelled(r, g, b), alpha) == Err::<Rgba, ColorError>(
            ColorError::BadLength,
        ),
{
    let digits = spelled(r, g, b);
    let small = spelled_small(r, g, b);
    assert forall|v: u8| v < 16 implies hex_value(#[trigger] hex_char(v)) == Some(v) && hex_char(v)
        != '#' && hex_value(crate::text::ascii_lower(hex_char(v))) == Some(v)
        && crate::text::ascii_lower(hex_char(v)) != '#' by {}
    assert(r / 16 < 16 && r % 16 < 16 && g / 16 < 16 && g % 16 < 16 && b / 16 < 16 && b % 16 < 16);
    assert(strip_mark(digits) == digits);
    assert(strip_mark(small) == small);
    assert((seq!['#'] + digits).drop_first() =~= digits);
    assert((seq!['#'] + small).drop_first() =~= small);
    assert((seq!['#', '#'] + digits).drop_first().len() == 7);
    assert(is_hex_color(digits));
    assert(is_hex_color(small));
    assert(color_of(digits, alpha) == (Rgba { r, g, b, a: alpha }));
    assert(color_of(small, alpha) == (Rgba { r, g, b, a: alpha }));
}

/// Reads one hexadecimal digit.
pub fn hex_digit(c: char) -> (v: Option<u8>)
    ensures
        v == hex_value(c),
        v matches Some(d) ==> d < 16,
{
    if '0' <= c && c <= '9' {
        Some(c as u8 - '0' as u8)
    } else if 'a' <= c && c <= 'f' {
        Some(c as u8 - 'a' as u8 + 10)
    } else if 'A' <= c && c <= 'F' {
        Some(c as u8 - 'A' as u8 + 10)
    } else {
        None
    }
}

/// Reads a colour such as `FF0000` or `#ff0000` and joins it with an
/// opacity. The red, green and blue components are the values of the three
/// digit pairs; the alpha component is `alpha` as given. Any text that is
/// not six hexadecimal digits after at most one `#` is refused.
pub fn parse_color(hex: &str, alpha: u8) -> (r: Result<Rgba, ColorError>)
    ensures
        r == parsed_color(hex@, alpha),
{
    let n: usize = hex.unicode_len();
    let start: usize = if n > 0 && hex.get_char(0) == '#' {
        1
    } else {
        0
    };
    let ghost digits = hex@.subrange(start as int, n as int);
    assert(digits =~= strip_mark(hex@));
    if n - start != 6 {
        return Err(ColorError::BadLength);
    }
    let mut values: Vec<u8> = Vec::new();
    let mut i: usize = 0;
    while i < 6
        invariant
            n == hex@.len(),
            start + 6 == n,
            digits == hex@.subrange(start as int, n as int),
            digits == strip_mark(hex@),
            i <= 6,
            values@.len() == i,
            forall|k: int| 0 <= k < i ==> hex_value(digits[k]) == Some(#[trigger] values@[k]),
            forall|k: int| 0 <= k < i ==> (#[trigger] values@[k]) < 16,
        decreases 6 - i,
    {
        match hex_digit(hex.get_char(start + i)) {
            Some(v) => {
                values.push(v);
            },
            None => {
                assert(hex_value(digits[i as int]) is None);
                return Err(ColorError::BadDigit);
            },
        }
        i += 1;
    }
    assert forall|k: int| 0 <= k < 6 implies (#[trigger] hex_value(digits[k])) is Some by {
        assert(values@[k] < 16);
    }
    Ok(
        Rgba {
            r: values[0] * 16 + values[1],
            g: values[2] * 16 + values[3],
            b: values[4] * 16 + values[5],
            a: alpha,
        },
    )
}

} // verus!
