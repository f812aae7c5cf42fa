//! The chunk dispatcher: blends two rasters on a compute device, one row
//! chunk at a time.
//!
//! The device itself is driven from outside. This module decides what to
//! dispatch next and what to do with each answer: the caller asks a
//! `GpuBlend` for its next `ChunkRequest`, runs the blend kernel over the
//! request's two buffers, and hands the outcome back as a `DeviceEvent`.
//! Chunks are requested in increasing row order. A failed chunk aborts the
//! whole blend, and an aborted or unfinished blend never yields a raster.

use crate::blend::{
    blend_bytes,
    blend_pixels,
    blend_view,
    cpu_blend,
    lemma_blend_window,
    BlendError,
};
use crate::chunk::{
    lemma_chunk_bytes,
    lemma_chunk_fits_u64,
    lemma_count_bounds,
    workgroups_for,
    workgroups_needed,
    ChunkDescriptor,
    ChunkPlan,
    DeviceLimits,
    PlanView,
    rows_per_chunk,
};
use crate::raster::{Raster, RasterView};
use crate::select::{backend_for, select_backend, Backend, GpuMode};
use vstd::prelude::*;
use vstd::slice::{slice_subrange, slice_to_vec};

verus! {

/// What the device is asked to do for one chunk.
pub struct ChunkRequest {
    /// The rows that this request covers.
    pub chunk: ChunkDescriptor,
    /// Workgroups to dispatch: the chunk's pixels divided by the workgroup
    /// size, rounded up.
    pub workgroups: u64,
    /// The chunk's rows of the base image, packed pixels.
    pub base: Vec<u8>,
    /// The chunk's rows of the overlay, packed pixels.
    pub overlay: Vec<u8>,
}

/// What the device answered to a request.
pub enum DeviceEvent {
    /// The kernel ran; these are the bytes read back.
    Completed(Vec<u8>),
    /// The device or its queue reported an error.
    Failed,
}

/// Where a chunked blend stands.
#[derive(Clone, Copy, Debug, PartialEq, Eq, Structural)]
pub enum Progress {
    /// At least one chunk is still to be dispatched.
    Pending,
    /// Every chunk was answered; the output can be taken.
    Complete,
    /// A chunk failed; the blend yields nothing.
    Aborted,
}

/// The mathematical content of a blend in progress.
pub ghost struct GpuBlendView {
    pub base: RasterView,
    pub overlay: RasterView,
    pub plan: PlanView,
    /// Index of the next chunk to dispatch.
    pub next: nat,
    /// The bytes assembled so far.
    pub out: Seq<u8>,
    pub failed: bool,
}

impl GpuBlendView {
    /// Base and overlay agree in size with each other and with the plan,
    /// and the assembled bytes are exactly those of the chunks answered.
    pub open spec fn wf(self) -> bool {
        &&& self.base.wf()
        &&& self.overlay.wf()
        &&& self.plan.wf()
        &&& self.base.width == self.plan.width
        &&& self.base.height == self.plan.height
        &&& self.overlay.width == self.plan.width
        &&& self.overlay.height == self.plan.height
        &&& self.next <= self.plan.count()
        &&& if self.failed {
            self.out.len() == 0
        } else {
            self.out.len() == self.plan.bytes_before(self.next as int)
        }
    }

    /// Where the blend stands.
    pub open spec fn progress(self) -> Progress {
        if self.failed {
            Progress::Aborted
        } else if self.next < self.plan.count() {
            Progress::Pending
        } else {
            Progress::Complete
        }
    }

    /// The chunk to dispatch next, while the blend is pending.
    pub open spec fn current(self) -> ChunkDescriptor {
        self.plan.chunk(self.next as int)
    }

    /// First byte of the next chunk within the image.
    pub open spec fn start(self) -> int {
        self.plan.bytes_before(self.next as int)
    }

    /// The next chunk's bytes of the base image.
    pub open spec fn base_window(self) -> Seq<u8> {
        self.base.bytes.subrange(self.start(), self.start() + self.current().byte_size)
    }

    /// The next chunk's bytes of the overlay.
    pub open spec fn overlay_window(self) -> Seq<u8> {
        self.overlay.bytes.subrange(self.start(), self.start() + self.current().byte_size)
    }

    /// Whether an event is an acceptable answer to the pending request: the
    /// kernel ran and returned as many bytes as the chunk holds.
    pub open spec fn accepts(self, event: DeviceEvent) -> bool {
        event matches DeviceEvent::Completed(bytes) && bytes@.len() == self.current().byte_size
    }

    /// Whether an event carries what the blend kernel computes for the
    /// pending request.
    pub open spec fn answers(self, event: DeviceEvent) -> bool {
        event matches DeviceEvent::Completed(bytes) && bytes@ == blend_bytes(
            self.base_window(),
            self.overlay_window(),
        )
    }

    /// The state that follows `self` on `event`.
    pub open spec fn after(self, event: DeviceEvent) -> GpuBlendView {
        if self.progress() != Progress::Pending {
            self
        } else if self.accepts(event) {
            GpuBlendView {
                next: self.next + 1,
                out: self.out + event->Completed_0@,
                ..self
            }
        } else {
            GpuBlendView { out: Seq::empty(), failed: true, ..self }
        }
    }

    /// Whether the bytes assembled so far are those of the blend of the
    /// whole images.
    pub open spec fn faithful(self) -> bool {
        self.out == blend_bytes(self.base.bytes, self.overlay.bytes).subrange(
            0,
            self.out.len() as int,
        )
    }
}

/// A step on an event that answers the pending request the way the kernel
/// does keeps the assembled bytes equal to the blend of the whole images:
/// which rows travel together makes no difference to the result.
pub proof fn lemma_step_stays_faithful(s: GpuBlendView, event: DeviceEvent)
    requires
        s.wf(),
        s.faithful(),
        s.progress() == Progress::Pending,
        s.answers(event),
    ensures
        s.accepts(event),
        s.after(event).wf(),
        s.after(event).faithful(),
        s.after(event).progress() != Progress::Aborted,
{
    let k = s.next as int;
    lemma_chunk_bytes(s.plan, k);
    lemma_chunk_fits_u64(s.plan, k);
    let start = s.start();
    let end = start + s.current().byte_size;
    let whole = blend_bytes(s.base.bytes, s.overlay.bytes);
    lemma_blend_window(s.base.bytes, s.overlay.bytes, start, end);
    let bytes = event->Completed_0@;
    assert(bytes == whole.subrange(start, end));
    assert(s.out + bytes =~= whole.subrange(0, end));
}

/// A blend that completes after faithful steps holds the blend of the whole
/// images.
pub proof fn lemma_complete_is_whole(s: GpuBlendView)
    requires
        s.wf(),
        s.faithful(),
        s.progress() == Progress::Complete,
    ensures
        s.out == blend_bytes(s.base.bytes, s.overlay.bytes),
{
    lemma_count_bounds(s.plan);
    lemma_chunk_bytes(s.plan, 0);
    let whole = blend_bytes(s.base.bytes, s.overlay.bytes);
    assert(s.plan.width * s.plan.height * 4 == s.base.bytes.len());
    assert(whole.subrange(0, whole.len() as int) =~= whole);
}

/// A blend of two rasters in progress on a compute device.
pub struct GpuBlend<'a> {
    base: &'a Raster,
    overlay: &'a Raster,
    plan: ChunkPlan,
    next: u32,
    out: Vec<u8>,
    failed: bool,
}

impl<'a> View for GpuBlend<'a> {
    type V = GpuBlendView;

    closed spec fn view(&self) -> GpuBlendView {
        GpuBlendView {
            base: self.base@,
            overlay: self.overlay@,
            plan: self.plan@,
            next: self.next as nat,
            out: self.out@,
            failed: self.failed,
        }
    }
}

/// The state in which a blend on the device starts.
pub open spec fn first_state(base: RasterView, overlay: RasterView, limits: DeviceLimits) -> GpuBlendView {
    GpuBlendView {
        base,
        overlay,
        plan: PlanView {
            width: base.width,
            height: base.height,
            rows: rows_per_chunk(base.width, base.height, limits),
            limits,
        },
        next: 0,
        out: Seq::empty(),
        failed: false,
    }
}

/// Starts a blend of `overlay` onto `base` on a device with the given limits.
///
/// A size mismatch is the caller's error and is reported at once. Without a
/// device (`None`) the answer is `Ok(None)`: not an error, but the sign to
/// blend in process. With a device, an image without pixels is refused;
/// otherwise the blend starts at the first chunk with nothing assembled.
pub fn try_gpu_blend<'a>(
    base: &'a Raster,
    overlay: &'a Raster,
    device: Option<DeviceLimits>,
) -> (r: Result<Option<GpuBlend<'a>>, BlendError>)
    ensures
        base@.width != overlay@.width || base@.height != overlay@.height ==> r matches Err(
            BlendError::DimensionMismatch,
        ),
        base@.width == overlay@.width && base@.height == overlay@.height ==> match device {
            None => r matches Ok(None),
            Some(limits) => if base@.width == 0 || base@.height == 0 {
                r matches Err(BlendError::EmptyImage)
            } else {
                r matches Ok(Some(job)) && job@ == first_state(base@, overlay@, limits) && job@.wf()
                    && job@.faithful()
            },
        },
{
    if base.width() != overlay.width() || base.height() != overlay.height() {
        return Err(BlendError::DimensionMismatch);
    }
    let limits = match device {
        None => {
            return Ok(None);
        },
        Some(limits) => limits,
    };
    // A raster's bytes fit the address space, so its plan cannot be too large.
    let held: usize = base.as_bytes().len();
    let laid: usize = overlay.as_bytes().len();
    match ChunkPlan::new(base.width(), base.height(), &limits) {
        Ok(plan) => {
            proof {
                lemma_count_bounds(plan@);
                lemma_chunk_bytes(plan@, 0);
            }
            let job = GpuBlend { base, overlay, plan, next: 0, out: Vec::new(), failed: false };
            assert(job@.out =~= blend_bytes(base@.bytes, overlay@.bytes).subrange(0, 0));
            Ok(Some(job))
        },
        Err(_) => Err(BlendError::EmptyImage),
    }
}

impl<'a> GpuBlend<'a> {
    #[verifier::type_invariant]
    spec fn inv(&self) -> bool {
        self@.wf()
    }

    /// Where the blend stands.
    pub fn progress(&self) -> (p: Progress)
        ensures
            self@.wf(),
            p == self@.progress(),
    {
        proof {
            use_type_invariant(self);
        }
        if self.failed {
            Progress::Aborted
        } else if self.next < self.plan.chunk_count() {
            Progress::Pending
        } else {
            Progress::Complete
        }
    }

    /// The next dispatch, or `None` when the blend is complete or aborted.
    ///
    /// The request names the next chunk in row order and carries that
    /// chunk's rows of both images.
    pub fn request(&self) -> (req: Option<ChunkRequest>)
        ensures
            self@.wf(),
            req is Some <==> self@.progress() == Progress::Pending,
            req matches Some(q) ==> {
                &&& q.chunk == self@.current()
                &&& q.workgroups == workgroups_needed(q.chunk.pixel_count as nat)
                &&& q.base@ == self@.base_window()
                &&& q.overlay@ == self@.overlay_window()
            },
    {
        proof {
            use_type_invariant(self);
        }
        if self.failed {
            return None;
        }
        let chunk = match self.plan.chunk(self.next) {
            Some(chunk) => chunk,
            None => {
                return None;
            },
        };
        proof {
            lemma_chunk_bytes(self@.plan, self.next as int);
            lemma_chunk_fits_u64(self@.plan, self.next as int);
        }
        let base_bytes = self.base.as_bytes();
        let overlay_bytes = self.overlay.as_bytes();
        // The chunk starts where the assembled output ends.
        let start: usize = self.out.len();
        let total: usize = base_bytes.len();
        let end: usize = start + chunk.byte_size as usize;
        let base = slice_to_vec(slice_subrange(base_bytes.as_slice(), start, end));
        let overlay = slice_to_vec(slice_subrange(overlay_bytes.as_slice(), start, end));
        Some(ChunkRequest { chunk, workgroups: workgroups_for(chunk.pixel_count), base, overlay })
    }

    /// Takes the device's answer to the pending request and moves on.
    ///
    /// An answer of the right length is appended to the output and the next
    /// chunk becomes pending. Any other event aborts the blend and discards
    /// what was assembled. A blend that is complete or aborted ignores
    /// further events.
    pub fn advance(self, event: DeviceEvent) -> (next: GpuBlend<'a>)
        ensures
            self@.wf(),
            next@.wf(),
            next@ == self@.after(event),
            self@.faithful() && self@.progress() == Progress::Pending && self@.answers(event)
                ==> next@.faithful() && next@.progress() != Progress::Aborted,
    {
        proof {
            use_type_invariant(&self);
            if self@.faithful() && self@.progress() == Progress::Pending && self@.answers(event) {
                lemma_step_stays_faithful(self@, event);
            }
        }
        let ghost before = self@;
        let chunk = match self.plan.chunk(self.next) {
            Some(chunk) => chunk,
            None => {
                return self;
            },
        };
        if self.failed {
            return self;
        }
        proof {
            lemma_chunk_bytes(before.plan, before.next as int);
            lemma_chunk_fits_u64(before.plan, before.next as int);
            lemma_count_bounds(before.plan);
        }
        let GpuBlend { base, overlay, plan, next, out, failed: _ } = self;
        let mut out = out;
        match event {
            DeviceEvent::Completed(bytes) => {
                if bytes.len() as u64 == chunk.byte_size {
                    let mut bytes = bytes;
                    out.append(&mut bytes);
                    GpuBlend { base, overlay, plan, next: next + 1, out, failed: false }
                } else {
                    GpuBlend { base, overlay, plan, next, out: Vec::new(), failed: true }
                }
            },
            DeviceEvent::Failed => GpuBlend {
                base,
                overlay,
                plan,
                next,
                out: Vec::new(),
                failed: true,
            },
        }
    }

    /// Ends the blend. Yields the assembled raster exactly when every chunk
    /// was answered; a pending or aborted blend yields nothing. If every
    /// step was faithful, the raster is the blend of the whole images.
    pub fn finish(self) -> (r: Option<Raster>)
        ensures
            self@.wf(),
            r is Some <==> self@.progress() == Progress::Complete,
            r matches Some(img) ==> {
                &&& img@.wf()
                &&& img@.width == self@.base.width
                &&& img@.height == self@.base.height
                &&& img@.bytes == self@.out
                &&& self@.faithful() ==> img@ == blend_view(self@.base, self@.overlay)
            },
    {
        proof {
            use_type_invariant(&self);
            lemma_count_bounds(self@.plan);
            lemma_chunk_bytes(self@.plan, 0);
            if self@.faithful() && self@.progress() == Progress::Complete {
                lemma_complete_is_whole(self@);
            }
        }
        if self.failed || self.next < self.plan.chunk_count() {
            return None;
        }
        let width: u32 = self.base.width();
        let height: u32 = self.base.height();
        Raster::new(width, height, self.out)
    }
}

/// How a blend proceeds once the backend is chosen.
pub enum BlendRoute<'a> {
    /// The blend was done in process; this is the result.
    Blended(Raster),
    /// The blend runs on the device; this is its first state.
    Device(GpuBlend<'a>),
}

/// Whether a blend goes to the device: the mode and the image size select
/// it, a device is there, and the image has pixels.
pub open spec fn goes_to_device(mode: GpuMode, image: RasterView, device: Option<DeviceLimits>) -> bool {
    &&& backend_for(mode, image.width * image.height) == Backend::Gpu
    &&& device is Some
    &&& image.width >= 1
    &&& image.height >= 1
}

/// Compares the sizes of `base` and `overlay` and picks the backend for
/// them. The sizes are judged first, so that a mismatch is reported before
/// any device is looked for.
pub fn blend_backend(mode: GpuMode, base: &Raster, overlay: &Raster) -> (r: Result<
    Backend,
    BlendError,
>)
    ensures
        r == if base@.width != overlay@.width || base@.height != overlay@.height {
            Err::<Backend, BlendError>(BlendError::DimensionMismatch)
        } else {
            Ok::<Backend, BlendError>(backend_for(mode, base@.width * base@.height))
        },
{
    if base.width() != overlay.width() || base.height() != overlay.height() {
        return Err(BlendError::DimensionMismatch);
    }
    Ok(select_backend(mode, base.pixel_count()))
}

/// Starts blending `overlay` onto `base` on the backend that `mode` selects
/// for the image's size.
///
/// A size mismatch is the caller's error. Otherwise the blend never fails:
/// when the device is not selected, is absent, or has nothing to do, the
/// image is blended in process at once.
pub fn start_blend<'a>(
    mode: GpuMode,
    base: &'a Raster,
    overlay: &'a Raster,
    device: Option<DeviceLimits>,
) -> (r: Result<BlendRoute<'a>, BlendError>)
    ensures
        base@.width != overlay@.width || base@.height != overlay@.height ==> r matches Err(
            BlendError::DimensionMismatch,
        ),
        base@.width == overlay@.width && base@.height == overlay@.height ==> if goes_to_device(
            mode,
            base@,
            device,
        ) {
            r matches Ok(BlendRoute::Device(job)) && job@ == first_state(
                base@,
                overlay@,
                device.unwrap(),
            ) && job@.wf() && job@.faithful()
        } else {
            r matches Ok(BlendRoute::Blended(img)) && img@ == blend_view(base@, overlay@)
                && img@.wf()
        },
{
    match blend_backend(mode, base, overlay) {
        Err(e) => {
            return Err(e);
        },
        Ok(Backend::Gpu) => {
            match try_gpu_blend(base, overlay, device) {
                Ok(Some(job)) => {
                    return Ok(BlendRoute::Device(job));
                },
                _ => {},
            }
        },
        Ok(Backend::Cpu) => {},
    }
    match cpu_blend(base, overlay) {
        Ok(img) => Ok(BlendRoute::Blended(img)),
        Err(e) => Err(e),
    }
}

impl<'a> GpuBlend<'a> {
    /// Ends the blend with a raster in every case: the assembled output if
    /// every chunk was answered, else the blend of the whole images done in
    /// process. A failure on the device is thus never the end of a blend,
    /// and no partly assembled output is ever handed out.
    pub fn finish_or_fall_back(self) -> (img: Raster)
        ensures
            self@.wf(),
            img@.wf(),
            img@.width == self@.base.width,
            img@.height == self@.base.height,
            self@.progress() == Progress::Complete ==> img@.bytes == self@.out,
            self@.progress() != Progress::Complete ==> img@ == blend_view(
                self@.base,
                self@.overlay,
            ),
            self@.faithful() ==> img@ == blend_view(self@.base, self@.overlay),
    {
        proof {
            use_type_invariant(&self);
        }
        let base: &Raster = self.base;
        let overlay: &Raster = self.overlay;
        match self.finish() {
            Some(img) => img,
            None => match cpu_blend(base, overlay) {
                Ok(img) => img,
                Err(_) => vstd::pervasive::unreached(),
            },
        }
    }
}

/// Blends `overlay` onto `base` chunk by chunk under `limits`, running the
/// blend kernel in process in place of a device.
///
/// Whatever the limits, and so however many chunks the rows are cut into,
/// the result is the one that `cpu_blend` gives for the same images.
pub fn chunked_blend(base: &Raster, overlay: &Raster, limits: DeviceLimits) -> (r: Result<
    Raster,
    BlendError,
>)
    ensures
        r is Ok <==> base@.width == overlay@.width && base@.height == overlay@.height
            && base@.width >= 1 && base@.height >= 1,
        r matches Ok(img) ==> img@ == blend_view(base@, overlay@) && img@.wf(),
        r matches Err(e) ==> (e == BlendError::DimensionMismatch <==> base@.width != overlay@.width
            || base@.height != overlay@.height),
{
    let mut job = match try_gpu_blend(base, overlay, Some(limits)) {
        Ok(Some(job)) => job,
        Ok(None) => {
            return Err(BlendError::EmptyImage);
        },
        Err(e) => {
            return Err(e);
        },
    };
    let ghost count = job@.plan.count();
    loop
        invariant
            job@.wf(),
            job@.faithful(),
            job@.base == base@,
            job@.overlay == overlay@,
            job@.plan.count() == count,
            job@.progress() != Progress::Aborted,
        ensures
            job@.progress() == Progress::Complete,
        decreases count - job@.next,
    {
        let request = match job.request() {
            Some(request) => request,
            None => {
                break ;
            },
        };
        let event = match blend_pixels(request.base.as_slice(), request.overlay.as_slice()) {
            Some(bytes) => DeviceEvent::Completed(bytes),
            None => DeviceEvent::Failed,
        };
        proof {
            lemma_chunk_bytes(job@.plan, job@.next as int);
            lemma_chunk_fits_u64(job@.plan, job@.next as int);
        }
        job = job.advance(event);
    }
    match job.finish() {
        Some(img) => Ok(img),
        None => Err(BlendError::EmptyImage),
    }
}

} // verus!
