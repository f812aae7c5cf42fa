//! Rasters: row-major grids of four-channel, eight-bit pixels without padding.

use vstd::prelude::*;

verus! {

/// One pixel, channels in storage order.
#[derive(Clone, Copy, Debug, PartialEq, Eq, Structural)]
pub struct Rgba {
    pub r: u8,
    pub g: u8,
    pub b: u8,
    pub a: u8,
}

impl Rgba {
    /// The fully transparent pixel that fills empty canvases.
    pub fn transparent() -> (p: Rgba)
        ensures
            p == (Rgba { r: 0, g: 0, b: 0, a: 0 }),
    {
        Rgba { r: 0, g: 0, b: 0, a: 0 }
    }
}

/// The mathematical content of a raster: its dimensions and its bytes.
pub ghost struct RasterView {
    pub width: nat,
    pub height: nat,
    pub bytes: Seq<u8>,
}

impl RasterView {
    /// The byte sequence holds exactly `width * height` pixels.
    pub open spec fn wf(self) -> bool {
        self.bytes.len() == self.width * self.height * 4
    }

    /// Position in `bytes` of the first channel of pixel `(x, y)`.
    pub open spec fn offset(self, x: int, y: int) -> int {
        (y * self.width + x) * 4
    }

    /// Whether `(x, y)` names a pixel of this raster.
    pub open spec fn contains(self, x: int, y: int) -> bool {
        0 <= x < self.width && 0 <= y < self.height
    }

    /// The pixel at `(x, y)`, for a position inside the raster.
    pub open spec fn pixel(self, x: int, y: int) -> Rgba {
        let o = self.offset(x, y);
        Rgba { r: self.bytes[o], g: self.bytes[o + 1], b: self.bytes[o + 2], a: self.bytes[o + 3] }
    }
}

/// Every pixel of a well-formed raster lies inside its byte sequence, and
/// distinct pixels occupy disjoint byte ranges in row-major order.
pub proof fn lemma_offset_in_bounds(v: RasterView, x: int, y: int)
    requires
        v.wf(),
        v.contains(x, y),
    ensures
        0 <= v.offset(x, y),
        v.offset(x, y) + 4 <= v.bytes.len(),
        v.offset(x, y) % 4 == 0,
{
    let w = v.width as int;
    let h = v.height as int;
    assert(y * w + x < h * w) by (nonlinear_arith)
        requires
            0 <= x < w,
            0 <= y < h,
    ;
    assert(0 <= y * w + x) by (nonlinear_arith)
        requires
            0 <= x < w,
            0 <= y < h,
    ;
    assert(w * h * 4 == (h * w) * 4) by (nonlinear_arith);
}

/// Number of bytes that a `width` by `height` raster occupies.
pub open spec fn byte_len(width: nat, height: nat) -> nat {
    width * height * 4
}

/// Computes `byte_len` without overflow.
pub fn byte_count(width: u32, height: u32) -> (n: u128)
    ensures
        n == byte_len(width as nat, height as nat),
{
    assert(0 <= (width as int) * (height as int) <= 0xffff_ffff * 0xffff_ffff) by (nonlinear_arith)
        requires
            0 <= width <= 0xffff_ffff,
            0 <= height <= 0xffff_ffff,
    ;
    (width as u128) * (height as u128) * 4
}

/// A width x height grid of RGBA pixels, stored row-major without padding.
pub struct Raster {
    width: u32,
    height: u32,
    data: Vec<u8>,
}

impl View for Raster {
    type V = RasterView;

    closed spec fn view(&self) -> RasterView {
        RasterView { width: self.width as nat, height: self.height as nat, bytes: self.data@ }
    }
}

impl Raster {
    #[verifier::type_invariant]
    spec fn inv(&self) -> bool {
        self@.wf()
    }

    /// Wraps a byte buffer as a raster. Succeeds exactly when the buffer
    /// holds `width * height` pixels.
    pub fn new(width: u32, height: u32, data: Vec<u8>) -> (r: Option<Raster>)
        ensures
            r is Some <==> data@.len() == byte_len(width as nat, height as nat),
            r matches Some(img) ==> img@ == (RasterView {
                width: width as nat,
                height: height as nat,
                bytes: data@,
            }),
    {
        let need: u128 = byte_count(width, height);
        if data.len() as u128 == need {
            Some(Raster { width, height, data })
        } else {
            None
        }
    }

    /// A raster of the given size with every pixel equal to `fill`. Fails
    /// only when the byte count does not fit the address space.
    pub fn filled(width: u32, height: u32, fill: Rgba) -> (r: Option<Raster>)
        ensures
            r is Some <==> byte_len(width as nat, height as nat) <= usize::MAX,
            r matches Some(img) ==> {
                &&& img@.width == width
                &&& img@.height == height
                &&& img@.wf()
                &&& forall|x: int, y: int| img@.contains(x, y) ==> #[trigger] img@.pixel(x, y) == fill
            },
    {
        let need: u128 = byte_count(width, height);
        if need > usize::MAX as u128 {
            return None;
        }
        let total: usize = need as usize;
        let mut data: Vec<u8> = Vec::new();
        while data.len() < total
            invariant
                data@.len() <= total,
                total % 4 == 0,
                data@.len() % 4 == 0,
                forall|k: int|
                    0 <= k < data@.len() ==> #[trigger] data@[k] == channel_of(fill, k % 4),
            decreases total - data@.len(),
        {
            data.push(fill.r);
            data.push(fill.g);
            data.push(fill.b);
            data.push(fill.a);
        }
        let img = Raster { width, height, data };
        proof {
            assert forall|x: int, y: int| img@.contains(x, y) implies #[trigger] img@.pixel(x, y)
                == fill by {
                lemma_offset_in_bounds(img@, x, y);
            }
        }
        Some(img)
    }

    /// Width in pixels.
    pub fn width(&self) -> (w: u32)
        ensures
            w == self@.width,
    {
        self.width
    }

    /// Height in pixels.
    pub fn height(&self) -> (h: u32)
        ensures
            h == self@.height,
    {
        self.height
    }

    /// Number of pixels.
    pub fn pixel_count(&self) -> (n: u64)
        ensures
            n == self@.width * self@.height,
    {
        assert(self@.width * self@.height <= 0xffff_ffff * 0xffff_ffff) by (nonlinear_arith)
            requires
                self@.width <= 0xffff_ffff,
                self@.height <= 0xffff_ffff,
        ;
        (self.width as u64) * (self.height as u64)
    }

    /// The pixel bytes in row-major order.
    pub fn as_bytes(&self) -> (bytes: &Vec<u8>)
        ensures
            bytes@ == self@.bytes,
            self@.wf(),
    {
        proof {
            use_type_invariant(self);
        }
        &self.data
    }

    /// Gives up the raster for its byte buffer.
    pub fn into_bytes(self) -> (bytes: Vec<u8>)
        ensures
            bytes@ == self@.bytes,
            self@.wf(),
    {
        proof {
            use_type_invariant(&self);
        }
        self.data
    }

    /// The pixel at `(x, y)`, or `None` outside the raster.
    pub fn pixel(&self, x: u32, y: u32) -> (p: Option<Rgba>)
        ensures
            self@.wf(),
            p is Some <==> self@.contains(x as int, y as int),
            p matches Some(px) ==> px == self@.pixel(x as int, y as int),
    {
        proof {
            use_type_invariant(self);
        }
        if x >= self.width || y >= self.height {
            return None;
        }
        proof {
            lemma_offset_in_bounds(self@, x as int, y as int);
        }
        let o: usize = self.offset_of(x, y);
        Some(Rgba { r: self.data[o], g: self.data[o + 1], b: self.data[o + 2], a: self.data[o + 3] })
    }

    /// Byte position of pixel `(x, y)`.
    pub(crate) fn offset_of(&self, x: u32, y: u32) -> (o: usize)
        requires
            self@.contains(x as int, y as int),
        ensures
            o == self@.offset(x as int, y as int),
            o + 4 <= self@.bytes.len(),
    {
        let len: usize = self.data.len();
        proof {
            use_type_invariant(self);
            lemma_offset_in_bounds(self@, x as int, y as int);
            assert(0 <= (y as int) * (self.width as int) <= (y as int) * (self.width as int) + x)
                by (nonlinear_arith)
                requires
                    0 <= x,
                    0 <= y,
                    0 <= self.width,
            ;
            assert(self@.bytes.len() == len);
        }
        let row: usize = (y as usize) * (self.width as usize);
        (row + x as usize) * 4
    }
}

/// Channel `k` (0 to 3) of a pixel in storage order.
pub open spec fn channel_of(p: Rgba, k: int) -> u8 {
    if k == 0 {
        p.r
    } else if k == 1 {
        p.g
    } else if k == 2 {
        p.b
    } else {
        p.a
    }
}

} // verus!
