//! Straight alpha blending of an overlay onto an opaque base.
//!
//! Each colour channel of the result is the integer nearest to
//! `base * (1 - a) + overlay * a` with `a = overlay_alpha / 255`; the result
//! is always fully opaque. The arithmetic is exact: the weighted sum is
//! computed over the common denominator 255 and rounded once.

use crate::raster::{lemma_offset_in_bounds, Raster, RasterView, Rgba};
use vstd::prelude::*;

verus! {

/// Why two rasters could not be blended.
#[derive(Clone, Copy, Debug, PartialEq, Eq, Structural)]
pub enum BlendError {
    /// Base and overlay differ in width or height.
    DimensionMismatch,
    /// The image has no pixels, so there is nothing to dispatch.
    EmptyImage,
}

/// The weighted channel sum scaled by 255: `base * (255 - alpha) + over * alpha`.
pub open spec fn weighted_sum(base: u8, over: u8, alpha: u8) -> int {
    base as int * (255 - alpha as int) + over as int * alpha as int
}

/// One blended colour channel: `weighted_sum / 255` rounded to nearest.
pub open spec fn blend_channel(base: u8, over: u8, alpha: u8) -> u8 {
    ((weighted_sum(base, over, alpha) + 127) / 255) as u8
}

/// Byte `i` of the blend of two pixel buffers: alpha bytes become 255,
/// colour bytes are blended with the alpha of the overlay pixel they belong to.
pub open spec fn blended_byte(base: Seq<u8>, over: Seq<u8>, i: int) -> u8 {
    if i % 4 == 3 {
        255u8
    } else {
        blend_channel(base[i], over[i], over[i - i % 4 + 3])
    }
}

/// The blend of two pixel buffers of equal length.
pub open spec fn blend_bytes(base: Seq<u8>, over: Seq<u8>) -> Seq<u8> {
    Seq::new(base.len(), |i: int| blended_byte(base, over, i))
}

/// The blend of two rasters of equal dimensions.
pub open spec fn blend_view(base: RasterView, over: RasterView) -> RasterView {
    RasterView {
        width: base.width,
        height: base.height,
        bytes: blend_bytes(base.bytes, over.bytes),
    }
}

/// The blend of one overlay pixel onto one base pixel: each colour channel
/// blended with the overlay's alpha, the result opaque.
pub open spec fn blend_pixel(base: Rgba, over: Rgba) -> Rgba {
    Rgba {
        r: blend_channel(base.r, over.r, over.a),
        g: blend_channel(base.g, over.g, over.a),
        b: blend_channel(base.b, over.b, over.a),
        a: 255,
    }
}

/// A pixel as one 32-bit word: red in the lowest byte, then green, blue and
/// alpha, as a little-endian read of the four stored bytes gives it.
pub open spec fn pack(p: Rgba) -> u32 {
    (p.r as u32) | ((p.g as u32) << 8) | ((p.b as u32) << 16) | ((p.a as u32) << 24)
}

/// The pixel that a 32-bit word holds.
pub open spec fn unpack(word: u32) -> Rgba {
    Rgba {
        r: (word & 0xff) as u8,
        g: ((word >> 8) & 0xff) as u8,
        b: ((word >> 16) & 0xff) as u8,
        a: ((word >> 24) & 0xff) as u8,
    }
}

/// Packing loses nothing: a packed pixel unpacks to itself.
pub proof fn lemma_unpack_pack(p: Rgba)
    ensures
        unpack(pack(p)) == p,
{
    let r = p.r as u32;
    let g = p.g as u32;
    let b = p.b as u32;
    let a = p.a as u32;
    let word = r | (g << 8) | (b << 16) | (a << 24);
    assert(word & 0xff == r && (word >> 8) & 0xff == g && (word >> 16) & 0xff == b && (word >> 24)
        & 0xff == a) by (bit_vector)
        requires
            r < 256,
            g < 256,
            b < 256,
            a < 256,
            word == r | (g << 8) | (b << 16) | (a << 24),
    ;
}

/// Every word is the packing of the pixel it holds.
pub proof fn lemma_pack_unpack(word: u32)
    ensures
        pack(unpack(word)) == word,
{
    let r = word & 0xff;
    let g = (word >> 8) & 0xff;
    let b = (word >> 16) & 0xff;
    let a = (word >> 24) & 0xff;
    assert(r < 256 && g < 256 && b < 256 && a < 256 && (r | (g << 8) | (b << 16) | (a << 24))
        == word) by (bit_vector)
        requires
            r == word & 0xff,
            g == (word >> 8) & 0xff,
            b == (word >> 16) & 0xff,
            a == (word >> 24) & 0xff,
    ;
}

/// The blend of two rasters is the blend of their pixels, place by place,
/// and every pixel of it is opaque.
pub proof fn lemma_blend_view_pixelwise(base: RasterView, over: RasterView, x: int, y: int)
    requires
        base.wf(),
        over.wf(),
        base.width == over.width,
        base.height == over.height,
        base.contains(x, y),
    ensures
        blend_view(base, over).wf(),
        blend_view(base, over).pixel(x, y) == blend_pixel(base.pixel(x, y), over.pixel(x, y)),
        blend_view(base, over).pixel(x, y).a == 255,
{
    lemma_offset_in_bounds(base, x, y);
    lemma_offset_in_bounds(over, x, y);
}

/// The blended channel is the integer nearest to the exact weighted mean:
/// it differs from `weighted_sum / 255` by less than one half, and no tie
/// can occur. It always lies between the two inputs' extremes, so no
/// clamping is ever needed.
pub proof fn lemma_blend_channel_nearest(base: u8, over: u8, alpha: u8)
    ensures
        -127 <= 255 * (blend_channel(base, over, alpha) as int) - weighted_sum(base, over, alpha)
            <= 127,
        blend_channel(base, over, alpha) as int == (weighted_sum(base, over, alpha) + 127) / 255,
        base <= over ==> base <= blend_channel(base, over, alpha) <= over,
        over <= base ==> over <= blend_channel(base, over, alpha) <= base,
{
    let n = weighted_sum(base, over, alpha);
    let b = base as int;
    let o = over as int;
    let a = alpha as int;
    assert(0 <= n <= 255 * 255 && (b <= o ==> 255 * b <= n <= 255 * o) && (o <= b ==> 255 * o <= n
        <= 255 * b)) by (nonlinear_arith)
        requires
            n == b * (255 - a) + o * a,
            0 <= a <= 255,
            0 <= b <= 255,
            0 <= o <= 255,
    ;
    let q = (n + 127) / 255;
    assert(0 <= q <= 255 && 255 * q <= n + 127 < 255 * q + 255);
}

/// A transparent overlay pixel leaves the base colour unchanged.
pub proof fn lemma_blend_transparent(base: u8, over: u8)
    ensures
        blend_channel(base, over, 0) == base,
{
    assert(weighted_sum(base, over, 0) == 255 * (base as int)) by (nonlinear_arith)
        requires
            weighted_sum(base, over, 0) == base as int * (255 - 0) + over as int * 0,
    ;
}

/// An opaque overlay pixel replaces the base colour.
pub proof fn lemma_blend_opaque(base: u8, over: u8)
    ensures
        blend_channel(base, over, 255) == over,
{
    assert(weighted_sum(base, over, 255) == 255 * (over as int)) by (nonlinear_arith)
        requires
            weighted_sum(base, over, 255) == base as int * (255 - 255) + over as int * 255,
    ;
}

/// Blending a window that starts on a pixel boundary gives the same bytes as
/// cutting that window out of the blend of the whole buffers.
pub proof fn lemma_blend_window(base: Seq<u8>, over: Seq<u8>, start: int, end: int)
    requires
        base.len() == over.len(),
        0 <= start <= end <= base.len(),
        start % 4 == 0,
        end % 4 == 0,
    ensures
        blend_bytes(base.subrange(start, end), over.subrange(start, end)) == blend_bytes(
            base,
            over,
        ).subrange(start, end),
{
    let left = blend_bytes(base.subrange(start, end), over.subrange(start, end));
    let right = blend_bytes(base, over).subrange(start, end);
    assert(left.len() == right.len());
    assert forall|i: int| 0 <= i < left.len() implies left[i] == right[i] by {
        assert((start + i) % 4 == i % 4);
        let j = i - i % 4 + 3;
        if i % 4 != 3 {
            assert(0 <= j < end - start);
            assert(over.subrange(start, end)[j] == over[start + j]);
        }
    }
    assert(left =~= right);
}

/// Computes one blended colour channel.
pub fn blend_one(base: u8, over: u8, alpha: u8) -> (c: u8)
    ensures
        c == blend_channel(base, over, alpha),
{
    proof {
        lemma_blend_channel_nearest(base, over, alpha);
    }
    let inv: u32 = 255 - alpha as u32;
    assert((base as int) * (inv as int) <= 255 * 255 && (over as int) * (alpha as int) <= 255 * 255)
        by (nonlinear_arith)
        requires
            0 <= base <= 255,
            0 <= over <= 255,
            0 <= alpha <= 255,
            0 <= inv <= 255,
    ;
    let sum: u32 = (base as u32) * inv + (over as u32) * (alpha as u32);
    ((sum + 127) / 255) as u8
}

/// The blend kernel on one pixel, as a device runs it on packed words.
pub fn blend_word(base: u32, over: u32) -> (out: u32)
    ensures
        out == pack(blend_pixel(unpack(base), unpack(over))),
        unpack(out) == blend_pixel(unpack(base), unpack(over)),
{
    proof {
        lemma_unpack_pack(blend_pixel(unpack(base), unpack(over)));
    }
    let alpha: u8 = ((over >> 24) & 0xff) as u8;
    let r: u8 = blend_one((base & 0xff) as u8, (over & 0xff) as u8, alpha);
    let g: u8 = blend_one(((base >> 8) & 0xff) as u8, ((over >> 8) & 0xff) as u8, alpha);
    let b: u8 = blend_one(((base >> 16) & 0xff) as u8, ((over >> 16) & 0xff) as u8, alpha);
    (r as u32) | ((g as u32) << 8) | ((b as u32) << 16) | (255u32 << 24)
}

/// The blend kernel: blends two packed pixel buffers byte for byte.
/// Returns `None` when the buffers differ in length or do not hold whole pixels.
pub fn blend_pixels(base: &[u8], over: &[u8]) -> (out: Option<Vec<u8>>)
    ensures
        out is Some <==> base@.len() == over@.len() && base@.len() % 4 == 0,
        out matches Some(bytes) ==> bytes@ == blend_bytes(base@, over@),
{
    let n: usize = base.len();
    if over.len() != n || n % 4 != 0 {
        return None;
    }
    let mut out: Vec<u8> = Vec::with_capacity(n);
    let mut i: usize = 0;
    while i < n
        invariant
            n == base@.len(),
            n == over@.len(),
            n % 4 == 0,
            i % 4 == 0,
            i <= n,
            out@.len() == i,
            forall|k: int| 0 <= k < i ==> #[trigger] out@[k] == blended_byte(base@, over@, k),
        decreases n - i,
    {
        let alpha: u8 = over[i + 3];
        out.push(blend_one(base[i], over[i], alpha));
        out.push(blend_one(base[i + 1], over[i + 1], alpha));
        out.push(blend_one(base[i + 2], over[i + 2], alpha));
        out.push(255u8);
        i += 4;
    }
    assert(out@ =~= blend_bytes(base@, over@));
    Some(out)
}

/// Blends `overlay` onto `base` in one piece, in process.
///
/// Fails exactly when the two rasters differ in size; otherwise every pixel
/// of the result is the straight alpha blend of the two pixels at its place.
pub fn cpu_blend(base: &Raster, overlay: &Raster) -> (r: Result<Raster, BlendError>)
    ensures
        r is Ok <==> base@.width == overlay@.width && base@.height == overlay@.height,
        r matches Ok(img) ==> img@ == blend_view(base@, overlay@) && img@.wf(),
        r matches Err(e) ==> e == BlendError::DimensionMismatch,
{
    if base.width() != overlay.width() || base.height() != overlay.height() {
        return Err(BlendError::DimensionMismatch);
    }
    let b = base.as_bytes();
    let o = overlay.as_bytes();
    match blend_pixels(b.as_slice(), o.as_slice()) {
        Some(bytes) => {
            match Raster::new(base.width(), base.height(), bytes) {
                Some(img) => Ok(img),
                None => Err(BlendError::DimensionMismatch),
            }
        },
        None => Err(BlendError::DimensionMismatch),
    }
}

} // verus!
