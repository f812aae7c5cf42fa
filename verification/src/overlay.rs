//! Assembling the overlay: rendered passes are stacked, later ones on top,
//! and the stack is cropped about its centre to the size of the image.

use crate::raster::{
    byte_count,
    byte_len,
    lemma_offset_in_bounds,
    Raster,
    RasterView,
    Rgba,
};
use vstd::prelude::*;

verus! {

/// Why no overlay could be assembled.
#[derive(Clone, Copy, Debug, PartialEq, Eq, Structural)]
pub enum OverlayError {
    /// No pass was rendered.
    NoPasses,
    /// A pass differs in size from the first one.
    PassMismatch,
    /// The overlay's bytes do not fit the address space.
    TooLarge,
}

/// Byte `i` of one layer laid over another: the upper layer's byte where
/// its pixel has any alpha, the lower layer's byte elsewhere.
pub open spec fn layered_byte(below: Seq<u8>, above: Seq<u8>, i: int) -> u8 {
    if above[i - i % 4 + 3] > 0 {
        above[i]
    } else {
        below[i]
    }
}

/// One pixel buffer laid over another of the same length.
pub open spec fn layered_bytes(below: Seq<u8>, above: Seq<u8>) -> Seq<u8> {
    Seq::new(below.len(), |i: int| layered_byte(below, above, i))
}

/// One raster laid over another of the same size.
pub open spec fn layered(below: RasterView, above: RasterView) -> RasterView {
    RasterView {
        width: below.width,
        height: below.height,
        bytes: layered_bytes(below.bytes, above.bytes),
    }
}

/// The first `count` passes stacked in order: the first pass as it is, each
/// further pass laid over what was stacked before it.
pub open spec fn stacked(passes: Seq<RasterView>, count: nat) -> RasterView
    decreases count,
{
    if count <= 1 {
        passes[0]
    } else {
        layered(stacked(passes, (count - 1) as nat), passes[count - 1])
    }
}

/// Whether every pass has the size of the first.
pub open spec fn same_size(passes: Seq<RasterView>) -> bool {
    forall|i: int|
        0 <= i < passes.len() ==> (#[trigger] passes[i]).width == passes[0].width
            && passes[i].height == passes[0].height
}

/// How far the crop window starts from the canvas edge along one axis.
/// Negative when the canvas is smaller than the image.
pub open spec fn crop_shift(canvas: nat, image: nat) -> int {
    canvas as int / 2 - image as int / 2
}

/// Pixel `(x, y)` of the crop of a canvas to `width` by `height` about its
/// centre: the canvas pixel under it, or transparent where the window
/// reaches past the canvas.
pub open spec fn cropped_pixel(canvas: RasterView, width: nat, height: nat, x: int, y: int) -> Rgba {
    let sx = x + crop_shift(canvas.width, width);
    let sy = y + crop_shift(canvas.height, height);
    if canvas.contains(sx, sy) {
        canvas.pixel(sx, sy)
    } else {
        Rgba { r: 0, g: 0, b: 0, a: 0 }
    }
}

/// Whether `img` is the crop of `canvas` to `width` by `height`.
pub open spec fn is_crop(img: RasterView, canvas: RasterView, width: nat, height: nat) -> bool {
    &&& img.wf()
    &&& img.width == width
    &&& img.height == height
    &&& forall|x: int, y: int|
        img.contains(x, y) ==> img.pixel(x, y) == #[trigger] cropped_pixel(
            canvas,
            width,
            height,
            x,
            y,
        )
}

/// On a canvas at least as wide and as high as the image, the crop window
/// lies wholly inside the canvas: every pixel of the crop is a pixel of the
/// canvas, and none is filled in.
pub proof fn lemma_crop_inside_canvas(canvas: RasterView, width: nat, height: nat, x: int, y: int)
    requires
        canvas.width >= width,
        canvas.height >= height,
        0 <= x < width,
        0 <= y < height,
    ensures
        crop_shift(canvas.width, width) >= 0,
        crop_shift(canvas.height, height) >= 0,
        canvas.contains(x + crop_shift(canvas.width, width), y + crop_shift(canvas.height, height)),
        cropped_pixel(canvas, width, height, x, y) == canvas.pixel(
            x + crop_shift(canvas.width, width),
            y + crop_shift(canvas.height, height),
        ),
{
}

/// A pixel's place in row-major order determines its coordinates.
pub proof fn lemma_row_major_unique(w: int, x1: int, y1: int, x2: int, y2: int)
    requires
        0 <= x1 < w,
        0 <= x2 < w,
        0 <= y1,
        0 <= y2,
        y1 * w + x1 == y2 * w + x2,
    ensures
        x1 == x2,
        y1 == y2,
{
    if y1 < y2 {
        assert(y1 * w + w <= y2 * w) by (nonlinear_arith)
            requires
                y1 + 1 <= y2,
                w > 0,
        ;
    }
    if y2 < y1 {
        assert(y2 * w + w <= y1 * w) by (nonlinear_arith)
            requires
                y2 + 1 <= y1,
                w > 0,
        ;
    }
}

/// The crop of a canvas is unique: two crops of one canvas to one size hold
/// the same bytes.
pub proof fn lemma_crop_unique(a: RasterView, b: RasterView, canvas: RasterView, width: nat, height: nat)
    requires
        is_crop(a, canvas, width, height),
        is_crop(b, canvas, width, height),
    ensures
        a == b,
{
    assert(a.bytes.len() == b.bytes.len());
    assert forall|i: int| 0 <= i < a.bytes.len() implies a.bytes[i] == b.bytes[i] by {
        let w = width as int;
        let h = height as int;
        let n = i / 4;
        assert(w > 0 && h > 0) by (nonlinear_arith)
            requires
                w * h * 4 > 0,
                w >= 0,
                h >= 0,
        ;
        let x = n % w;
        let y = n / w;
        assert(0 <= y < h && y * w + x == n) by (nonlinear_arith)
            requires
                0 <= n < w * h,
                w > 0,
                x == n % w,
                y == n / w,
        ;
        assert(a.contains(x, y) && b.contains(x, y));
        let p = cropped_pixel(canvas, width, height, x, y);
        assert(a.pixel(x, y) == p && b.pixel(x, y) == p);
        assert(a.offset(x, y) == 4 * n && b.offset(x, y) == 4 * n);
    }
    assert(a.bytes =~= b.bytes);
}

/// Lays `above` over `below`: where a pixel of `above` has any alpha it
/// replaces the pixel below it, elsewhere the pixel below stays.
///
/// Fails exactly when the two rasters differ in size.
pub fn layer_over(below: &Raster, above: &Raster) -> (r: Option<Raster>)
    ensures
        r is Some <==> below@.width == above@.width && below@.height == above@.height,
        r matches Some(img) ==> img@ == layered(below@, above@) && img@.wf(),
{
    if below.width() != above.width() || below.height() != above.height() {
        return None;
    }
    let low = below.as_bytes();
    let high = above.as_bytes();
    let n: usize = low.len();
    let mut out: Vec<u8> = Vec::with_capacity(n);
    let mut i: usize = 0;
    while i < n
        invariant
            n == low@.len(),
            n == high@.len(),
            n % 4 == 0,
            i % 4 == 0,
            i <= n,
            out@.len() == i,
            forall|k: int| 0 <= k < i ==> #[trigger] out@[k] == layered_byte(low@, high@, k),
        decreases n - i,
    {
        if high[i + 3] > 0 {
            out.push(high[i]);
            out.push(high[i + 1]);
            out.push(high[i + 2]);
            out.push(high[i + 3]);
        } else {
            out.push(low[i]);
            out.push(low[i + 1]);
            out.push(low[i + 2]);
            out.push(low[i + 3]);
        }
        i += 4;
    }
    assert(out@ =~= layered_bytes(low@, high@));
    Raster::new(below.width(), below.height(), out)
}

/// Crops `canvas` to `width` by `height` about its centre. Where the window
/// reaches past the canvas the result is transparent.
///
/// Fails only when the result's bytes do not fit the address space.
pub fn crop_center(canvas: &Raster, width: u32, height: u32) -> (r: Option<Raster>)
    ensures
        r is Some <==> byte_len(width as nat, height as nat) <= usize::MAX,
        r matches Some(img) ==> is_crop(img@, canvas@, width as nat, height as nat),
{
    let need: u128 = byte_count(width, height);
    if need > usize::MAX as u128 {
        return None;
    }
    let x_shift: i64 = (canvas.width() / 2) as i64 - (width / 2) as i64;
    let y_shift: i64 = (canvas.height() / 2) as i64 - (height / 2) as i64;
    let total: usize = need as usize;
    let ghost w = width as int;
    let ghost h = height as int;
    let mut data: Vec<u8> = Vec::new();
    let mut x: u32 = 0;
    let mut y: u32 = 0;
    proof {
        assert(0 * w + 0 == 0) by (nonlinear_arith);
        assert(w * h * 4 > 0 ==> w > 0 && h > 0) by (nonlinear_arith)
            requires
                w >= 0,
                h >= 0,
        ;
    }
    while data.len() < total
        invariant
            total == w * h * 4,
            canvas@.width <= u32::MAX,
            canvas@.height <= u32::MAX,
            w == width,
            h == height,
            x_shift == crop_shift(canvas@.width, width as nat),
            y_shift == crop_shift(canvas@.height, height as nat),
            data@.len() == (y * w + x) * 4,
            data@.len() <= total,
            data@.len() < total ==> x < w && y < h,
            forall|xx: int, yy: int|
                0 <= xx < w && 0 <= yy && yy * w + xx < y * w + x ==> pixel_at(
                    data@,
                    (yy * w + xx) * 4,
                ) == #[trigger] cropped_pixel(canvas@, width as nat, height as nat, xx, yy),
        decreases total - data@.len(),
    {
        let sx: i64 = x as i64 + x_shift;
        let sy: i64 = y as i64 + y_shift;
        let source: Option<Rgba> = if 0 <= sx && sx <= 0xffff_ffff && 0 <= sy && sy
            <= 0xffff_ffff {
            canvas.pixel(sx as u32, sy as u32)
        } else {
            None
        };
        let p: Rgba = match source {
            Some(p) => p,
            None => Rgba::transparent(),
        };
        assert(p == cropped_pixel(canvas@, width as nat, height as nat, x as int, y as int));
        let ghost before = data@;
        let ghost n = y * w + x;
        data.push(p.r);
        data.push(p.g);
        data.push(p.b);
        data.push(p.a);
        let ghost x0 = x as int;
        let ghost y0 = y as int;
        if x + 1 < width {
            x = x + 1;
        } else {
            x = 0;
            y = y + 1;
        }
        proof {
            assert(y * w + x == n + 1 && (n + 1 < w * h ==> y < h)) by (nonlinear_arith)
                requires
                    n == y0 * w + x0,
                    0 <= x0 < w,
                    0 <= y0 < h,
                    (x == x0 + 1 && y == y0 && x0 + 1 < w) || (x == 0 && y == y0 + 1 && x0 + 1 == w),
            ;
            assert forall|xx: int, yy: int|
                0 <= xx < w && 0 <= yy && yy * w + xx < y * w + x implies pixel_at(
                data@,
                (yy * w + xx) * 4,
            ) == #[trigger] cropped_pixel(canvas@, width as nat, height as nat, xx, yy) by {
                let m = yy * w + xx;
                assert(0 <= m) by (nonlinear_arith)
                    requires
                        m == yy * w + xx,
                        0 <= xx,
                        0 <= yy,
                        0 <= w,
                ;
                if m < n {
                    assert(pixel_at(data@, m * 4) == pixel_at(before, m * 4));
                } else {
                    lemma_row_major_unique(w, xx, yy, x0, y0);
                }
            }
        }
    }
    match Raster::new(width, height, data) {
        Some(img) => {
            proof {
                assert forall|xx: int, yy: int| img@.contains(xx, yy) implies img@.pixel(xx, yy)
                    == #[trigger] cropped_pixel(
                    canvas@,
                    width as nat,
                    height as nat,
                    xx,
                    yy,
                ) by {
                    lemma_offset_in_bounds(img@, xx, yy);
                }
            }
            Some(img)
        },
        None => None,
    }
}

/// The pixel whose first byte is at `offset` in a pixel buffer.
pub open spec fn pixel_at(bytes: Seq<u8>, offset: int) -> Rgba {
    Rgba { r: bytes[offset], g: bytes[offset + 1], b: bytes[offset + 2], a: bytes[offset + 3] }
}

/// The views of a vector of rasters, in order.
pub open spec fn raster_views(rasters: Seq<Raster>) -> Seq<RasterView> {
    Seq::new(rasters.len(), |i: int| rasters[i]@)
}

/// What `assemble_overlay` owes for given passes and image size.
pub open spec fn assembled(passes: Seq<RasterView>, width: nat, height: nat) -> Result<
    RasterView,
    OverlayError,
> {
    if passes.len() == 0 {
        Err(OverlayError::NoPasses)
    } else if !same_size(passes) {
        Err(OverlayError::PassMismatch)
    } else if byte_len(width, height) > usize::MAX {
        Err(OverlayError::TooLarge)
    } else {
        Ok(stacked(passes, passes.len()))
    }
}

/// Assembles the overlay for a `width` by `height` image from the rendered
/// passes: stacks the passes in order, later ones on top, and crops the
/// stack about its centre. The overlay always has exactly the size asked for.
pub fn assemble_overlay(passes: &Vec<Raster>, width: u32, height: u32) -> (r: Result<
    Raster,
    OverlayError,
>)
    ensures
        match assembled(raster_views(passes@), width as nat, height as nat) {
            Ok(stack) => r matches Ok(img) && is_crop(img@, stack, width as nat, height as nat),
            Err(e) => r == Err::<Raster, OverlayError>(e),
        },
{
    let ghost views = raster_views(passes@);
    let n: usize = passes.len();
    if n == 0 {
        return Err(OverlayError::NoPasses);
    }
    let first = &passes[0];
    if n == 1 {
        assert(same_size(views));
        return match crop_center(first, width, height) {
            Some(img) => Ok(img),
            None => Err(OverlayError::TooLarge),
        };
    }
    let mut stack: Raster = match layer_over(first, &passes[1]) {
        Some(stack) => stack,
        None => {
            assert(views[1].width != views[0].width || views[1].height != views[0].height);
            return Err(OverlayError::PassMismatch);
        },
    };
    let mut k: usize = 2;
    assert(stacked(views, 1) == views[0]);
    while k < n
        invariant
            2 <= k <= n,
            n == passes@.len(),
            views == raster_views(passes@),
            stack@ == stacked(views, k as nat),
            stack@.width == views[0].width,
            stack@.height == views[0].height,
            forall|i: int|
                0 <= i < k ==> (#[trigger] views[i]).width == views[0].width && views[i].height
                    == views[0].height,
        decreases n - k,
    {
        stack = match layer_over(&stack, &passes[k]) {
            Some(next) => next,
            None => {
                assert(views[k as int].width != views[0].width || views[k as int].height
                    != views[0].height);
                return Err(OverlayError::PassMismatch);
            },
        };
        k += 1;
    }
    assert(same_size(views));
    match crop_center(&stack, width, height) {
        Some(img) => Ok(img),
        None => Err(OverlayError::TooLarge),
    }
}

} // verus!
