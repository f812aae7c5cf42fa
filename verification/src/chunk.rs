//! Row chunks: how an image is cut into contiguous row ranges so that each
//! range fits a compute device's buffer-binding and dispatch limits.

use vstd::prelude::*;

verus! {

/// Invocations per workgroup of the blend kernel.
pub const WORKGROUP_SIZE: u32 = 256;

/// Most workgroups that one dispatch may span along one dimension.
pub const MAX_WORKGROUPS: u32 = 65_535;

/// The two limits that bound one chunk.
#[derive(Clone, Copy, Debug, PartialEq, Eq, Structural)]
pub struct DeviceLimits {
    /// Largest buffer, in bytes, that can be bound to the kernel.
    pub max_binding_bytes: u64,
    /// Most pixels that one dispatch can cover.
    pub max_dispatch_pixels: u64,
}

impl DeviceLimits {
    /// Limits of a device that reports the given largest storage binding and
    /// largest buffer: the binding limit is the smaller of the two, the
    /// dispatch limit is `WORKGROUP_SIZE * MAX_WORKGROUPS`.
    pub fn from_device(max_storage_binding: u32, max_buffer_size: u64) -> (limits: DeviceLimits)
        ensures
            limits.max_binding_bytes == if max_storage_binding as u64 <= max_buffer_size {
                max_storage_binding as u64
            } else {
                max_buffer_size
            },
            limits.max_dispatch_pixels == WORKGROUP_SIZE * MAX_WORKGROUPS,
    {
        let binding: u64 = if max_storage_binding as u64 <= max_buffer_size {
            max_storage_binding as u64
        } else {
            max_buffer_size
        };
        DeviceLimits {
            max_binding_bytes: binding,
            max_dispatch_pixels: (WORKGROUP_SIZE as u64) * (MAX_WORKGROUPS as u64),
        }
    }
}

/// One chunk: a contiguous range of rows handled by one dispatch.
#[derive(Clone, Copy, Debug, PartialEq, Eq, Structural)]
pub struct ChunkDescriptor {
    /// First row of the chunk.
    pub row_offset: u32,
    /// Number of rows in the chunk.
    pub row_count: u32,
    /// Pixels in the chunk: `width * row_count`.
    pub pixel_count: u64,
    /// Bytes in the chunk: `pixel_count * 4`.
    pub byte_size: u64,
}

/// Why no chunk plan exists for an image.
#[derive(Clone, Copy, Debug, PartialEq, Eq, Structural)]
pub enum PlanError {
    /// Width or height is zero.
    EmptyImage,
    /// The image's byte count does not fit in 64 bits.
    TooLarge,
}

/// Rows that fit both limits at once, before clamping.
pub open spec fn rows_that_fit(width: nat, limits: DeviceLimits) -> nat {
    let by_binding = limits.max_binding_bytes as nat / (width * 4);
    let by_dispatch = limits.max_dispatch_pixels as nat / width;
    if by_binding <= by_dispatch {
        by_binding
    } else {
        by_dispatch
    }
}

/// Rows per chunk: the rows that fit, but at least one and at most `height`.
pub open spec fn rows_per_chunk(width: nat, height: nat, limits: DeviceLimits) -> nat {
    let fit = rows_that_fit(width, limits);
    if fit < 1 {
        1
    } else if fit > height {
        height
    } else {
        fit
    }
}

/// Whether a single row of `width` pixels fits both limits. When it does
/// not, chunks of one row are planned all the same and exceed the limits.
pub open spec fn row_fits(width: nat, limits: DeviceLimits) -> bool {
    width * 4 <= limits.max_binding_bytes && width <= limits.max_dispatch_pixels
}

/// The mathematical content of a chunk plan.
pub ghost struct PlanView {
    pub width: nat,
    pub height: nat,
    /// Rows in every chunk but possibly the last.
    pub rows: nat,
    /// The limits that the plan was made for.
    pub limits: DeviceLimits,
}

impl PlanView {
    /// A plan covers a non-empty image with as many rows per chunk as its
    /// limits give; the dimensions fit 32 bits and the byte count 64 bits.
    pub open spec fn wf(self) -> bool {
        &&& 1 <= self.width <= u32::MAX
        &&& 1 <= self.height <= u32::MAX
        &&& 1 <= self.rows <= self.height
        &&& self.rows == rows_per_chunk(self.width, self.height, self.limits)
        &&& self.width * self.height * 4 <= u64::MAX
    }

    /// Number of chunks: `height / rows`, rounded up.
    pub open spec fn count(self) -> nat {
        ((self.height + self.rows - 1) / (self.rows as int)) as nat
    }

    /// First row of chunk `k`.
    pub open spec fn row_offset(self, k: int) -> int {
        k * self.rows
    }

    /// Rows of chunk `k`: `rows`, except that the last chunk ends at `height`.
    pub open spec fn row_count(self, k: int) -> int {
        if self.row_offset(k) + self.rows <= self.height {
            self.rows as int
        } else {
            self.height - self.row_offset(k)
        }
    }

    /// Chunk `k` of the plan, for `0 <= k < count()`.
    pub open spec fn chunk(self, k: int) -> ChunkDescriptor {
        ChunkDescriptor {
            row_offset: self.row_offset(k) as u32,
            row_count: self.row_count(k) as u32,
            pixel_count: (self.width * self.row_count(k)) as u64,
            byte_size: (self.width * self.row_count(k) * 4) as u64,
        }
    }

    /// Rows that lie in the chunks before chunk `k`, for `0 <= k <= count()`.
    pub open spec fn rows_before(self, k: int) -> int {
        if k * self.rows <= self.height {
            k * self.rows
        } else {
            self.height as int
        }
    }

    /// Bytes that lie in the chunks before chunk `k`, for `0 <= k <= count()`.
    pub open spec fn bytes_before(self, k: int) -> int {
        self.rows_before(k) * self.width * 4
    }

    /// All chunks in order.
    pub open spec fn chunks(self) -> Seq<ChunkDescriptor> {
        Seq::new(self.count(), |k: int| self.chunk(k))
    }
}

/// Whether `chunks` cut the rows `[0, height)` of an image `width` pixels
/// wide into consecutive, non-empty ranges: the first starts at row 0, each
/// next one starts where the previous ended, the last ends at `height`, and
/// the pixel and byte counts are those of the rows.
pub open spec fn partitions_rows(chunks: Seq<ChunkDescriptor>, width: nat, height: nat) -> bool {
    &&& chunks.len() >= 1
    &&& chunks[0].row_offset == 0
    &&& forall|k: int|
        0 <= k < chunks.len() ==> (#[trigger] chunks[k]).row_count >= 1 && chunks[k].pixel_count
            == width * chunks[k].row_count && chunks[k].byte_size == chunks[k].pixel_count * 4
    &&& forall|k: int|
        0 <= k < chunks.len() - 1 ==> (#[trigger] chunks[k + 1]).row_offset == chunks[k].row_offset
            + chunks[k].row_count
    &&& chunks.last().row_offset + chunks.last().row_count == height
}

/// Whether every chunk respects both device limits.
pub open spec fn within_limits(chunks: Seq<ChunkDescriptor>, limits: DeviceLimits) -> bool {
    forall|k: int|
        0 <= k < chunks.len() ==> (#[trigger] chunks[k]).byte_size <= limits.max_binding_bytes
            && chunks[k].pixel_count <= limits.max_dispatch_pixels
}

/// A well-formed plan has at least one chunk and at most one per row; all
/// chunks but the last lie wholly above the last row.
pub proof fn lemma_count_bounds(p: PlanView)
    requires
        p.wf(),
    ensures
        1 <= p.count() <= p.height,
        (p.count() - 1) * p.rows < p.height <= p.count() * p.rows,
{
    let h = p.height as int;
    let r = p.rows as int;
    let n = (h + r - 1) / r;
    assert(n * r <= h + r - 1 && h + r - 1 < n * r + r && n >= 1 && n <= h && (n - 1) * r == n * r
        - r) by (nonlinear_arith)
        requires
            n == (h + r - 1) / r,
            1 <= r <= h,
    ;
}

/// Arithmetic of a well-formed plan: chunk `k` starts inside the image,
/// holds at least one row and ends inside the image; the last chunk ends
/// exactly at `height`.
pub proof fn lemma_chunk_rows(p: PlanView, k: int)
    requires
        p.wf(),
        0 <= k < p.count(),
    ensures
        0 <= p.row_offset(k) < p.height,
        1 <= p.row_count(k) <= p.rows,
        p.row_offset(k) + p.row_count(k) <= p.height,
        p.row_offset(k + 1) == p.row_offset(k) + p.rows,
        k + 1 < p.count() ==> p.row_count(k) == p.rows,
        k + 1 == p.count() ==> p.row_offset(k) + p.row_count(k) == p.height,
        p.width * p.row_count(k) * 4 <= p.width * p.height * 4,
        p.count() >= 1,
        p.count() <= p.height,
{
    let h = p.height as int;
    let r = p.rows as int;
    let n = p.count() as int;
    lemma_count_bounds(p);
    assert(k * r <= (n - 1) * r && (n - 1) * r == n * r - r && (k + 1) * r == k * r + r && 0 <= k
        * r) by (nonlinear_arith)
        requires
            0 <= k <= n - 1,
            1 <= r,
    ;
    if k + 1 < n {
        assert((k + 1) * r <= (n - 1) * r) by (nonlinear_arith)
            requires
                k + 1 <= n - 1,
                1 <= r,
        ;
    }
    let c = p.row_count(k);
    let w = p.width as int;
    assert(w * c * 4 <= w * h * 4) by (nonlinear_arith)
        requires
            0 <= c <= h,
            0 <= w,
    ;
}

/// The chunks of a well-formed plan partition the rows of its image: no
/// gaps, no overlaps, in increasing row order.
pub proof fn lemma_plan_partitions(p: PlanView)
    requires
        p.wf(),
    ensures
        partitions_rows(p.chunks(), p.width, p.height),
{
    let chunks = p.chunks();
    lemma_count_bounds(p);
    lemma_chunk_rows(p, 0);
    assert(p.row_offset(0) == 0) by (nonlinear_arith)
        requires
            p.row_offset(0) == 0 * p.rows,
    ;
    assert forall|k: int| 0 <= k < chunks.len() implies (#[trigger] chunks[k]).row_count >= 1
        && chunks[k].pixel_count == p.width * chunks[k].row_count && chunks[k].byte_size
        == chunks[k].pixel_count * 4 by {
        lemma_chunk_rows(p, k);
        lemma_chunk_fits_u64(p, k);
    }
    assert forall|k: int| 0 <= k < chunks.len() - 1 implies (#[trigger] chunks[k + 1]).row_offset
        == chunks[k].row_offset + chunks[k].row_count by {
        lemma_chunk_rows(p, k);
        lemma_chunk_rows(p, k + 1);
        lemma_chunk_fits_u64(p, k);
        lemma_chunk_fits_u64(p, k + 1);
    }
    lemma_chunk_rows(p, p.count() - 1);
    lemma_chunk_fits_u64(p, p.count() - 1);
}

/// Chunk `k` occupies the bytes from `bytes_before(k)` up to
/// `bytes_before(k + 1)`; the first chunk starts at byte 0, the last ends
/// with the image, and every chunk starts on a pixel boundary.
pub proof fn lemma_chunk_bytes(p: PlanView, k: int)
    requires
        p.wf(),
        0 <= k < p.count(),
    ensures
        p.bytes_before(0) == 0,
        p.bytes_before(p.count() as int) == p.width * p.height * 4,
        0 <= p.bytes_before(k),
        p.bytes_before(k) % 4 == 0,
        p.bytes_before(k + 1) == p.bytes_before(k) + p.width * p.row_count(k) * 4,
        p.bytes_before(k + 1) <= p.width * p.height * 4,
{
    lemma_count_bounds(p);
    lemma_chunk_rows(p, k);
    let r = p.rows as int;
    let w = p.width as int;
    let h = p.height as int;
    let n = p.count() as int;
    assert(0 * r == 0 && 0 * w * 4 == 0) by (nonlinear_arith);
    assert(p.rows_before(0) == 0);
    assert(p.rows_before(k) == k * r);
    assert(p.rows_before(k + 1) == k * r + p.row_count(k));
    assert(p.rows_before(n) == h);
    let a = p.rows_before(k);
    let c = p.row_count(k);
    assert((a + c) * w * 4 == a * w * 4 + w * c * 4 && 0 <= a * w * 4 && (a * w * 4) % 4 == 0 && (
    a + c) * w * 4 <= h * w * 4 && h * w * 4 == w * h * 4) by (nonlinear_arith)
        requires
            0 <= a,
            0 <= c,
            a + c <= h,
            0 <= w,
    ;
}

/// The counts of every chunk of a well-formed plan fit their integer types.
pub proof fn lemma_chunk_fits_u64(p: PlanView, k: int)
    requires
        p.wf(),
        0 <= k < p.count(),
    ensures
        p.row_offset(k) <= u32::MAX,
        p.row_count(k) <= u32::MAX,
        p.width * p.row_count(k) * 4 <= u64::MAX,
        0 <= p.width * p.row_count(k) <= p.width * p.row_count(k) * 4,
        p.chunk(k).row_offset == p.row_offset(k) && p.chunk(k).row_count
            == p.row_count(k) && p.chunk(k).pixel_count == p.width * p.row_count(k) && p.chunk(
            k,
        ).byte_size == p.width * p.row_count(k) * 4,
{
    lemma_chunk_rows(p, k);
    let c = p.row_count(k);
    let w = p.width as int;
    let h = p.height as int;
    assert(0 <= w * c <= w * c * 4 && w * h * 4 >= h) by (nonlinear_arith)
        requires
            1 <= c,
            1 <= w,
            1 <= h,
    ;
}

/// Every row belongs to exactly one chunk: row `y` lies in chunk `y / rows`
/// and in no other.
pub proof fn lemma_row_has_one_chunk(p: PlanView, y: int, k: int)
    requires
        p.wf(),
        0 <= y < p.height,
        0 <= k < p.count(),
    ensures
        0 <= y / (p.rows as int) < p.count(),
        (p.row_offset(k) <= y < p.row_offset(k) + p.row_count(k)) <==> k == y / (p.rows as int),
{
    let r = p.rows as int;
    let h = p.height as int;
    let n = p.count() as int;
    let q = y / r;
    lemma_chunk_rows(p, k);
    assert(q * r <= y < q * r + r && 0 <= q) by (nonlinear_arith)
        requires
            q == y / r,
            0 <= y,
            1 <= r,
    ;
    assert(q < n) by (nonlinear_arith)
        requires
            q * r <= y,
            y < h,
            n == (h + r - 1) / r,
            1 <= r,
    ;
    lemma_chunk_rows(p, q);
    if k < q {
        assert(k * r + r <= q * r) by (nonlinear_arith)
            requires
                k + 1 <= q,
                1 <= r,
        ;
    }
    if k > q {
        assert(q * r + r <= k * r) by (nonlinear_arith)
            requires
                q + 1 <= k,
                1 <= r,
        ;
    }
}

/// When one row fits the limits of a plan, so does every chunk of the plan.
pub proof fn lemma_plan_within_limits(p: PlanView)
    requires
        p.wf(),
        row_fits(p.width, p.limits),
    ensures
        within_limits(p.chunks(), p.limits),
{
    let limits = p.limits;
    let w = p.width as int;
    let r = p.rows as int;
    let fit = rows_that_fit(p.width, limits) as int;
    let bb = limits.max_binding_bytes as int;
    let dp = limits.max_dispatch_pixels as int;
    assert(fit >= 1 && fit * (w * 4) <= bb && fit * w <= dp) by (nonlinear_arith)
        requires
            fit == (if bb / (w * 4) <= dp / w {
                bb / (w * 4)
            } else {
                dp / w
            }),
            w >= 1,
            w * 4 <= bb,
            w <= dp,
    ;
    assert(r <= fit);
    assert forall|k: int| 0 <= k < p.chunks().len() implies (#[trigger] p.chunks()[k]).byte_size
        <= limits.max_binding_bytes && p.chunks()[k].pixel_count
        <= limits.max_dispatch_pixels by {
        lemma_chunk_rows(p, k);
        lemma_chunk_fits_u64(p, k);
        let c = p.row_count(k);
        assert(w * c * 4 <= fit * (w * 4) && w * c <= fit * w) by (nonlinear_arith)
            requires
                1 <= c <= r,
                r <= fit,
                1 <= w,
        ;
    }
}

/// Number of workgroups that cover `pixel_count` invocations.
pub open spec fn workgroups_needed(pixel_count: nat) -> nat {
    (pixel_count + WORKGROUP_SIZE - 1) as nat / (WORKGROUP_SIZE as nat)
}

/// Computes the number of workgroups to dispatch for a chunk: its pixel
/// count divided by the workgroup size, rounded up.
pub fn workgroups_for(pixel_count: u64) -> (groups: u64)
    ensures
        groups == workgroups_needed(pixel_count as nat),
        pixel_count <= WORKGROUP_SIZE * MAX_WORKGROUPS ==> groups <= MAX_WORKGROUPS,
{
    let whole: u64 = pixel_count / (WORKGROUP_SIZE as u64);
    if pixel_count % (WORKGROUP_SIZE as u64) == 0 {
        whole
    } else {
        whole + 1
    }
}

/// How an image is cut into chunks.
#[derive(Clone, Copy, Debug)]
pub struct ChunkPlan {
    width: u32,
    height: u32,
    rows: u32,
    limits: DeviceLimits,
}

impl View for ChunkPlan {
    type V = PlanView;

    closed spec fn view(&self) -> PlanView {
        PlanView {
            width: self.width as nat,
            height: self.height as nat,
            rows: self.rows as nat,
            limits: self.limits,
        }
    }
}

impl ChunkPlan {
    #[verifier::type_invariant]
    spec fn inv(&self) -> bool {
        self@.wf()
    }

    /// Plans the chunks of a `width` by `height` image under `limits`.
    ///
    /// Fails on an empty image and on one whose bytes cannot be counted in
    /// 64 bits; otherwise the plan uses `rows_per_chunk` rows per chunk.
    pub fn new(width: u32, height: u32, limits: &DeviceLimits) -> (r: Result<ChunkPlan, PlanError>)
        ensures
            r is Ok <==> width >= 1 && height >= 1 && width * height * 4 <= u64::MAX,
            r matches Ok(plan) ==> {
                &&& plan@.wf()
                &&& plan@.width == width
                &&& plan@.height == height
                &&& plan@.limits == *limits
                &&& plan@.rows == rows_per_chunk(width as nat, height as nat, *limits)
            },
            r matches Err(e) ==> (e == PlanError::EmptyImage <==> width == 0 || height == 0),
    {
        if width == 0 || height == 0 {
            return Err(PlanError::EmptyImage);
        }
        let total: u128 = crate::raster::byte_count(width, height);
        assert(total == width * height * 4);
        if total > u64::MAX as u128 {
            return Err(PlanError::TooLarge);
        }
        let row_pixels: u64 = width as u64;
        let by_binding: u64 = limits.max_binding_bytes / (row_pixels * 4);
        let by_dispatch: u64 = limits.max_dispatch_pixels / row_pixels;
        let fit: u64 = if by_binding <= by_dispatch {
            by_binding
        } else {
            by_dispatch
        };
        let rows: u32 = if fit < 1 {
            1
        } else if fit > height as u64 {
            height
        } else {
            fit as u32
        };
        Ok(ChunkPlan { width, height, rows, limits: *limits })
    }

    /// Rows in every chunk but possibly the last.
    pub fn rows_per_chunk(&self) -> (rows: u32)
        ensures
            rows == self@.rows,
            self@.wf(),
    {
        proof {
            use_type_invariant(self);
        }
        self.rows
    }

    /// Number of chunks.
    pub fn chunk_count(&self) -> (n: u32)
        ensures
            n == self@.count(),
            n >= 1,
            self@.wf(),
    {
        proof {
            use_type_invariant(self);
            lemma_count_bounds(self@);
            let h = self.height as int;
            let r = self.rows as int;
            assert((h + r - 1) / r == (if h % r == 0 {
                h / r
            } else {
                h / r + 1
            })) by (nonlinear_arith)
                requires
                    1 <= r <= h,
            ;
        }
        let whole: u32 = self.height / self.rows;
        if self.height % self.rows == 0 {
            whole
        } else {
            whole + 1
        }
    }

    /// Chunk number `index`, or `None` past the last chunk.
    pub fn chunk(&self, index: u32) -> (c: Option<ChunkDescriptor>)
        ensures
            self@.wf(),
            c is Some <==> index < self@.count(),
            c matches Some(d) ==> d == self@.chunk(index as int),
    {
        proof {
            use_type_invariant(self);
        }
        let n: u32 = self.chunk_count();
        if index >= n {
            return None;
        }
        proof {
            lemma_chunk_rows(self@, index as int);
            lemma_chunk_fits_u64(self@, index as int);
        }
        let offset: u64 = (index as u64) * (self.rows as u64);
        let rest: u64 = self.height as u64 - offset;
        let count: u64 = if self.rows as u64 <= rest {
            self.rows as u64
        } else {
            rest
        };
        let pixels: u64 = (self.width as u64) * count;
        Some(
            ChunkDescriptor {
                row_offset: offset as u32,
                row_count: count as u32,
                pixel_count: pixels,
                byte_size: pixels * 4,
            },
        )
    }

    /// All chunks in row order. They partition the rows of the image, and
    /// they all respect the plan's limits if a single row does.
    pub fn descriptors(&self) -> (chunks: Vec<ChunkDescriptor>)
        ensures
            self@.wf(),
            chunks@ == self@.chunks(),
            partitions_rows(chunks@, self@.width, self@.height),
            row_fits(self@.width, self@.limits) ==> within_limits(chunks@, self@.limits),
    {
        proof {
            use_type_invariant(self);
        }
        let n: u32 = self.chunk_count();
        let mut chunks: Vec<ChunkDescriptor> = Vec::new();
        let mut k: u32 = 0;
        while k < n
            invariant
                self@.wf(),
                n == self@.count(),
                k <= n,
                chunks@.len() == k,
                forall|j: int| 0 <= j < k ==> #[trigger] chunks@[j] == self@.chunk(j),
            decreases n - k,
        {
            match self.chunk(k) {
                Some(d) => {
                    chunks.push(d);
                },
                None => {},
            }
            k += 1;
        }
        proof {
            assert(chunks@ =~= self@.chunks());
            lemma_plan_partitions(self@);
            if row_fits(self@.width, self@.limits) {
                lemma_plan_within_limits(self@);
            }
        }
        chunks
    }
}

} // verus!
