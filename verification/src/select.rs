//! Choices made before any pixel is blended: which backend blends an image
//! of a given size, which adapter drives the device, and how many workers
//! share a batch.

use crate::text::{eq_ignore_ascii_case, same_ignoring_case};
use vstd::prelude::*;

verus! {

/// In automatic mode, images with at least this many pixels go to the
/// device; below it the fixed cost of a dispatch outweighs its speed.
pub const AUTO_GPU_MIN_PIXELS: u64 = 1_000_000;

/// Vendor preferred among discrete adapters.
pub const PREFERRED_VENDOR: u32 = 0x10de;

/// The user's wish for the compute device.
#[derive(Clone, Copy, Debug, PartialEq, Eq, Structural)]
pub enum GpuMode {
    /// Always try the device.
    On,
    /// Never use the device.
    Off,
    /// Use the device for large images only.
    Auto,
}

/// Where an image is blended.
#[derive(Clone, Copy, Debug, PartialEq, Eq, Structural)]
pub enum Backend {
    Cpu,
    Gpu,
}

/// The mode that a word selects: `on` and `off` in any case select
/// themselves, every other word selects the automatic mode.
pub open spec fn mode_of(word: Seq<char>) -> GpuMode {
    if same_ignoring_case(word, seq!['o', 'n']) {
        GpuMode::On
    } else if same_ignoring_case(word, seq!['o', 'f', 'f']) {
        GpuMode::Off
    } else {
        GpuMode::Auto
    }
}

/// The backend for a mode and a pixel count.
pub open spec fn backend_for(mode: GpuMode, pixels: nat) -> Backend {
    match mode {
        GpuMode::On => Backend::Gpu,
        GpuMode::Off => Backend::Cpu,
        GpuMode::Auto => if pixels >= AUTO_GPU_MIN_PIXELS {
            Backend::Gpu
        } else {
            Backend::Cpu
        },
    }
}

/// Reads the mode from a word.
pub fn parse_gpu_mode(word: &str) -> (mode: GpuMode)
    ensures
        mode == mode_of(word@),
{
    proof {
        reveal_strlit("on");
        reveal_strlit("off");
        assert("on"@ =~= seq!['o', 'n']);
        assert("off"@ =~= seq!['o', 'f', 'f']);
    }
    if eq_ignore_ascii_case(word, "on") {
        GpuMode::On
    } else if eq_ignore_ascii_case(word, "off") {
        GpuMode::Off
    } else {
        GpuMode::Auto
    }
}

/// Picks the backend for an image of `pixels` pixels. With the mode off the
/// device is never chosen, whatever the size; with the mode on it always is.
pub fn select_backend(mode: GpuMode, pixels: u64) -> (backend: Backend)
    ensures
        backend == backend_for(mode, pixels as nat),
        mode == GpuMode::Off ==> backend == Backend::Cpu,
        mode == GpuMode::On ==> backend == Backend::Gpu,
{
    match mode {
        GpuMode::On => Backend::Gpu,
        GpuMode::Off => Backend::Cpu,
        GpuMode::Auto => if pixels >= AUTO_GPU_MIN_PIXELS {
            Backend::Gpu
        } else {
            Backend::Cpu
        },
    }
}

/// Size of the worker pool: the explicit request if there is one; else one
/// worker when the device is forced on, so that a single device is not
/// oversubscribed; else one per hardware thread. Never less than one.
pub open spec fn pool_size(requested: Option<usize>, mode: GpuMode, hardware_threads: usize) -> usize {
    let wanted = match requested {
        Some(n) => n,
        None => if mode == GpuMode::On {
            1usize
        } else {
            hardware_threads
        },
    };
    if wanted < 1 {
        1usize
    } else {
        wanted
    }
}

/// Computes the size of the worker pool.
pub fn worker_count(requested: Option<usize>, mode: GpuMode, hardware_threads: usize) -> (workers:
    usize)
    ensures
        workers == pool_size(requested, mode, hardware_threads),
        workers >= 1,
{
    let wanted: usize = match requested {
        Some(n) => n,
        None => match mode {
            GpuMode::On => 1,
            _ => hardware_threads,
        },
    };
    if wanted < 1 {
        1
    } else {
        wanted
    }
}

/// What is known of an adapter when choosing among several.
#[derive(Clone, Copy, Debug, PartialEq, Eq, Structural)]
pub struct AdapterInfo {
    /// Whether the adapter is a discrete device.
    pub discrete: bool,
    /// The adapter's vendor number.
    pub vendor: u32,
}

/// Which adapter to use.
#[derive(Clone, Copy, Debug, PartialEq, Eq, Structural)]
pub enum AdapterChoice {
    /// There is no adapter: the device is unavailable.
    Unavailable,
    /// The adapter that the backend offered by default.
    Default,
    /// The enumerated adapter with this index.
    Candidate(usize),
}

/// Whether an adapter is discrete and, if `preferred` is asked, also of the
/// preferred vendor.
pub open spec fn qualifies(adapter: AdapterInfo, preferred: bool) -> bool {
    adapter.discrete && (preferred ==> adapter.vendor == PREFERRED_VENDOR)
}

/// Whether `index` is the first adapter that qualifies.
pub open spec fn first_qualified(adapters: Seq<AdapterInfo>, preferred: bool, index: int) -> bool {
    &&& 0 <= index < adapters.len()
    &&& qualifies(adapters[index], preferred)
    &&& forall|j: int| 0 <= j < index ==> !qualifies(#[trigger] adapters[j], preferred)
}

/// Whether no adapter qualifies.
pub open spec fn none_qualified(adapters: Seq<AdapterInfo>, preferred: bool) -> bool {
    forall|j: int| 0 <= j < adapters.len() ==> !qualifies(#[trigger] adapters[j], preferred)
}

/// Whether `choice` is the right one. Without a default adapter the
/// device is unavailable. With one, the first discrete adapter of the
/// preferred vendor wins; failing that, the first discrete adapter of any
/// vendor; and only when no discrete adapter was found is the default kept.
pub open spec fn is_adapter_choice(
    default: Option<AdapterInfo>,
    adapters: Seq<AdapterInfo>,
    choice: AdapterChoice,
) -> bool {
    match choice {
        AdapterChoice::Unavailable => default is None,
        AdapterChoice::Default => default is Some && none_qualified(adapters, false),
        AdapterChoice::Candidate(i) => default is Some && (first_qualified(adapters, true, i as int)
            || (none_qualified(adapters, true) && first_qualified(adapters, false, i as int))),
    }
}

/// At most one choice is right for given adapters.
pub proof fn lemma_adapter_choice_unique(
    default: Option<AdapterInfo>,
    adapters: Seq<AdapterInfo>,
    a: AdapterChoice,
    b: AdapterChoice,
)
    requires
        is_adapter_choice(default, adapters, a),
        is_adapter_choice(default, adapters, b),
    ensures
        a == b,
{
    match (a, b) {
        (AdapterChoice::Candidate(i), AdapterChoice::Candidate(j)) => {
            if i < j {
                assert(qualifies(adapters[i as int], false));
                assert(first_qualified(adapters, true, i as int) ==> qualifies(
                    adapters[i as int],
                    true,
                ));
            }
            if j < i {
                assert(qualifies(adapters[j as int], false));
                assert(first_qualified(adapters, true, j as int) ==> qualifies(
                    adapters[j as int],
                    true,
                ));
            }
        },
        (AdapterChoice::Candidate(i), AdapterChoice::Default) => {
            assert(qualifies(adapters[i as int], false));
        },
        (AdapterChoice::Default, AdapterChoice::Candidate(j)) => {
            assert(qualifies(adapters[j as int], false));
        },
        _ => {},
    }
}

/// Chooses the adapter, given the one offered by default and the ones
/// enumerated. Of the default only its presence counts: a discrete adapter
/// that was enumerated goes before it, whatever the default is.
pub fn choose_adapter(default: Option<AdapterInfo>, adapters: &Vec<AdapterInfo>) -> (choice:
    AdapterChoice)
    ensures
        is_adapter_choice(default, adapters@, choice),
{
    if default.is_none() {
        return AdapterChoice::Unavailable;
    }
    let mut best: Option<usize> = None;
    let mut i: usize = 0;
    while i < adapters.len()
        invariant
            default is Some,
            i <= adapters@.len(),
            forall|j: int| 0 <= j < i ==> !qualifies(#[trigger] adapters@[j], true),
            match best {
                Some(b) => first_qualified(adapters@, false, b as int) && b < i,
                None => forall|j: int| 0 <= j < i ==> !qualifies(#[trigger] adapters@[j], false),
            },
        decreases adapters@.len() - i,
    {
        let candidate = adapters[i];
        if candidate.discrete {
            if candidate.vendor == PREFERRED_VENDOR {
                return AdapterChoice::Candidate(i);
            }
            if best.is_none() {
                best = Some(i);
            }
        }
        i += 1;
    }
    match best {
        Some(b) => AdapterChoice::Candidate(b),
        None => AdapterChoice::Default,
    }
}

} // verus!
