//! Watermark patterns and the numbers that size them: the working canvas,
//! the glyph size, the line spacing, and the pseudo-random stream that
//! jitters the random pattern.

use vstd::prelude::*;

verus! {

/// How the watermark text is laid over the image.
#[derive(Copy, Clone, Debug, PartialEq, Eq, Structural)]
pub enum Pattern {
    /// Lines running from the lower left to the upper right.
    Diagonal,
    /// Level lines.
    Horizontal,
    /// Upright lines.
    Vertical,
    /// Both diagonals.
    CrossDiagonal,
    /// Three passes at pseudo-random angles with jittered spacing.
    Random,
}

/// Whether `side` is the least whole number whose square is at least
/// `width^2 + height^2`: the diagonal of the image, rounded up.
pub open spec fn is_canvas_side(side: nat, width: nat, height: nat) -> bool {
    &&& side * side >= width * width + height * height
    &&& side > 0 ==> (side - 1) * (side - 1) < width * width + height * height
}

/// Squaring is monotone on the naturals.
pub proof fn lemma_square_monotone(a: int, b: int)
    requires
        0 <= a <= b,
    ensures
        a * a <= b * b,
{
    assert(a * a <= b * b) by (nonlinear_arith)
        requires
            0 <= a <= b,
    ;
}

/// The canvas side is unique, and a canvas of that side is at least as wide
/// and as high as the image, so that any rotation of it about its centre
/// still covers the image.
pub proof fn lemma_canvas_side_covers(side: nat, other: nat, width: nat, height: nat)
    requires
        is_canvas_side(side, width, height),
    ensures
        side >= width,
        side >= height,
        is_canvas_side(other, width, height) ==> other == side,
{
    let s = side as int;
    let w = width as int;
    let h = height as int;
    let o = other as int;
    if s < w {
        lemma_square_monotone(s + 1, w);
        assert(s * s < (s + 1) * (s + 1)) by (nonlinear_arith)
            requires
                0 <= s,
        ;
        assert(h * h >= 0) by (nonlinear_arith);
    }
    if s < h {
        lemma_square_monotone(s + 1, h);
        assert(s * s < (s + 1) * (s + 1)) by (nonlinear_arith)
            requires
                0 <= s,
        ;
        assert(w * w >= 0) by (nonlinear_arith);
    }
    if is_canvas_side(other, width, height) {
        if o < s {
            lemma_square_monotone(o, s - 1);
        }
        if s < o {
            lemma_square_monotone(s, o - 1);
        }
    }
}

/// Side of the square working canvas for a `width` by `height` image: the
/// image's diagonal rounded up to a whole number of pixels.
pub fn canvas_side(width: u32, height: u32) -> (side: u64)
    ensures
        is_canvas_side(side as nat, width as nat, height as nat),
        side >= width,
        side >= height,
        side <= 0x2_0000_0000,
{
    let w: u128 = width as u128;
    let h: u128 = height as u128;
    assert(w * w <= 0xffff_ffff * 0xffff_ffff && h * h <= 0xffff_ffff * 0xffff_ffff)
        by (nonlinear_arith)
        requires
            0 <= w <= 0xffff_ffff,
            0 <= h <= 0xffff_ffff,
    ;
    let target: u128 = w * w + h * h;
    if target == 0 {
        assert(w == 0 && h == 0) by (nonlinear_arith)
            requires
                w * w + h * h == 0,
                w >= 0,
                h >= 0,
        ;
        return 0;
    }
    let mut lo: u64 = 0;
    let mut hi: u64 = 0x2_0000_0000;
    while hi - lo > 1
        invariant
            lo < hi <= 0x2_0000_0000,
            lo * lo < target,
            hi * hi >= target,
            target == w * w + h * h,
        decreases hi - lo,
    {
        let mid: u64 = lo + (hi - lo) / 2;
        assert(mid * mid <= 0x2_0000_0000 * 0x2_0000_0000) by (nonlinear_arith)
            requires
                0 <= mid <= 0x2_0000_0000,
        ;
        let square: u128 = (mid as u128) * (mid as u128);
        if square >= target {
            hi = mid;
        } else {
            lo = mid;
        }
    }
    proof {
        lemma_canvas_side_covers(hi as nat, hi as nat, width as nat, height as nat);
    }
    hi
}

/// Glyph height in thousandths of a pixel: the image height times the text
/// scale (itself in thousandths), but never less than one pixel.
pub open spec fn glyph_milli(height: nat, text_scale_milli: int) -> nat {
    if height * text_scale_milli >= 1000 {
        (height * text_scale_milli) as nat
    } else {
        1000
    }
}

/// Distance between text lines in whole pixels: the glyph height times the
/// spacing scale (in thousandths), rounded down, at least 1 and at most
/// `i32::MAX`.
pub open spec fn line_gap(glyph: nat, space_scale_milli: int) -> nat {
    let exact = glyph * space_scale_milli / 1_000_000;
    if exact < 1 {
        1
    } else if exact > i32::MAX {
        i32::MAX as nat
    } else {
        exact as nat
    }
}

/// Resolves the glyph height for an image. A zero or negative scale
/// resolves to the floor of one pixel.
pub fn resolve_glyph_milli(height: u32, text_scale_milli: i32) -> (glyph: u64)
    ensures
        glyph == glyph_milli(height as nat, text_scale_milli as int),
        glyph >= 1000,
{
    if text_scale_milli <= 0 {
        assert(height * text_scale_milli <= 0) by (nonlinear_arith)
            requires
                height >= 0,
                text_scale_milli <= 0,
        ;
        return 1000;
    }
    assert(0 <= height * text_scale_milli <= 0xffff_ffff * 0x7fff_ffff) by (nonlinear_arith)
        requires
            0 <= height <= 0xffff_ffff,
            0 < text_scale_milli <= 0x7fff_ffff,
    ;
    let exact: u64 = (height as u64) * (text_scale_milli as u64);
    if exact >= 1000 {
        exact
    } else {
        1000
    }
}

/// Resolves the line spacing for a glyph height. A zero or negative scale
/// resolves to the floor of one pixel, so a line grid always advances.
pub fn resolve_line_gap(glyph: u64, space_scale_milli: i32) -> (gap: u32)
    ensures
        gap == line_gap(glyph as nat, space_scale_milli as int),
        1 <= gap <= i32::MAX,
{
    if space_scale_milli <= 0 {
        assert(glyph * space_scale_milli <= 0) by (nonlinear_arith)
            requires
                glyph >= 0,
                space_scale_milli <= 0,
        ;
        return 1;
    }
    assert(0 <= glyph * space_scale_milli <= 0xffff_ffff_ffff_ffff * 0x7fff_ffff)
        by (nonlinear_arith)
        requires
            0 <= glyph <= 0xffff_ffff_ffff_ffff,
            0 < space_scale_milli <= 0x7fff_ffff,
    ;
    let exact: u128 = (glyph as u128) * (space_scale_milli as u128) / 1_000_000;
    if exact < 1 {
        1
    } else if exact > 0x7fff_ffff {
        0x7fff_ffff
    } else {
        exact as u32
    }
}

/// Seed of the stream that jitters the random pattern.
pub const JITTER_SEED: u32 = 0x1234_5678;

/// One step of the xorshift32 generator.
pub open spec fn xorshift32(x: u32) -> u32 {
    let a = x ^ (x << 13);
    let b = a ^ (a >> 17);
    b ^ (b << 5)
}

/// The generator never reaches zero from a nonzero state, so the stream
/// never degenerates.
pub proof fn lemma_xorshift32_nonzero(x: u32)
    requires
        x != 0,
    ensures
        xorshift32(x) != 0,
{
    let a = x ^ (x << 13);
    let b = a ^ (a >> 17);
    let c = b ^ (b << 5);
    assert(a != 0) by (bit_vector)
        requires
            x != 0,
            a == x ^ (x << 13),
    ;
    assert(b != 0) by (bit_vector)
        requires
            a != 0,
            b == a ^ (a >> 17),
    ;
    assert(c != 0) by (bit_vector)
        requires
            b != 0,
            c == b ^ (b << 5),
    ;
}

/// `draw * range / 2^32`, rounded down: a draw scaled into `[0, range)`.
pub open spec fn scaled(draw: u32, range: nat) -> nat {
    (draw * range / 0x1_0000_0000) as nat
}

/// A scaled draw lies below its range.
pub proof fn lemma_scaled_below(draw: u32, range: nat)
    requires
        range >= 1,
    ensures
        scaled(draw, range) < range,
{
    let d = draw as int;
    let r = range as int;
    assert(d * r / 0x1_0000_0000 < r && d * r >= 0) by (nonlinear_arith)
        requires
            0 <= d < 0x1_0000_0000,
            1 <= r,
    ;
}

/// A deterministic xorshift32 stream. The same seed gives the same draws on
/// every run; the stream is not fit for cryptography.
#[derive(Clone, Copy, Debug)]
pub struct Xorshift32 {
    state: u32,
}

impl View for Xorshift32 {
    type V = u32;

    closed spec fn view(&self) -> u32 {
        self.state
    }
}

impl Xorshift32 {
    /// A stream that starts from `seed`.
    pub fn new(seed: u32) -> (rng: Xorshift32)
        ensures
            rng@ == seed,
    {
        Xorshift32 { state: seed }
    }

    /// Advances the stream and returns the new state as the draw.
    pub fn next(&mut self) -> (draw: u32)
        ensures
            draw == xorshift32(old(self)@),
            final(self)@ == draw,
    {
        let mut x: u32 = self.state;
        x = x ^ (x << 13);
        x = x ^ (x >> 17);
        x = x ^ (x << 5);
        self.state = x;
        x
    }

    /// Advances the stream and scales the draw into `[0, range)`; gives 0
    /// for an empty range.
    pub fn next_below(&mut self, range: u64) -> (value: u64)
        ensures
            final(self)@ == xorshift32(old(self)@),
            value == scaled(final(self)@, range as nat),
            range >= 1 ==> value < range,
    {
        let draw: u32 = self.next();
        proof {
            if range >= 1 {
                lemma_scaled_below(draw, range as nat);
            }
            assert(0 <= draw * range <= 0xffff_ffff * 0xffff_ffff_ffff_ffff) by (nonlinear_arith)
                requires
                    0 <= draw <= 0xffff_ffff,
                    0 <= range <= 0xffff_ffff_ffff_ffff,
            ;
        }
        let product: u128 = (draw as u128) * (range as u128);
        (product / 0x1_0000_0000) as u64
    }
}

} // verus!
