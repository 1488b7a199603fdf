//! Presentation decisions: when the shared image is resized, when a
//! presentation surface is recreated or reconfigured, which settings it gets,
//! and which region of the shared image each surface shows.

use vstd::prelude::*;

verus! {

/// Which generation the shared canvas image was last sized for.
#[derive(Clone, Copy, Debug, PartialEq, Eq, Structural)]
pub struct CanvasImageState {
    pub last_applied_generation: u64,
}

impl CanvasImageState {
    /// No generation applied yet.
    pub fn new() -> (r: Self)
        ensures
            r.last_applied_generation == 0,
    {
        CanvasImageState { last_applied_generation: 0 }
    }

    /// Decides whether the shared image must be resized: not while there is
    /// no size, not when `generation` was already applied; otherwise it must
    /// take `size`, and `generation` is recorded as applied.
    pub fn sync_canvas_image(&mut self, size: Option<(u32, u32)>, generation: u64) -> (r: Option<
        (u32, u32),
    >)
        ensures
            size is None || old(self).last_applied_generation == generation ==> r is None
                && *final(self) == *old(self),
            size is Some && old(self).last_applied_generation != generation ==> r == size
                && final(self).last_applied_generation == generation,
    {
        match size {
            None => None,
            Some(s) => {
                if self.last_applied_generation == generation {
                    None
                } else {
                    self.last_applied_generation = generation;
                    Some(s)
                }
            },
        }
    }
}

/// What to do with one presentation surface this tick.
#[derive(Clone, Copy, Debug, PartialEq, Eq, Structural)]
pub struct SurfaceUpdate {
    /// Acquire a new presentation surface from the native handles.
    pub recreate: bool,
    /// Query capabilities and configure the surface.
    pub reconfigure: bool,
    /// The size to configure.
    pub width: u32,
    /// The size to configure.
    pub height: u32,
}

/// `v`, or one when it is zero.
pub open spec fn at_least_one(v: u32) -> u32 {
    if v == 0 {
        1
    } else {
        v
    }
}

/// Decides what one surface needs: a new presentation surface when it has
/// none or the canvas generation moved past the one it last applied, and a
/// configuration when it was recreated or its configured size differs from
/// the entry's (each side at least one).
pub fn plan_surface_update(
    has_surface: bool,
    configured: Option<(u32, u32)>,
    last_applied_generation: u64,
    generation: u64,
    width: u32,
    height: u32,
) -> (r: SurfaceUpdate)
    ensures
        r.recreate == (!has_surface || last_applied_generation != generation),
        r.width == at_least_one(width),
        r.height == at_least_one(height),
        r.reconfigure == (r.recreate || configured != Some((r.width, r.height))),
{
    let recreate = !has_surface || last_applied_generation != generation;
    let w: u32 = if width == 0 {
        1
    } else {
        width
    };
    let h: u32 = if height == 0 {
        1
    } else {
        height
    };
    let reconfigure = recreate || match configured {
        Some((cw, ch)) => cw != w || ch != h,
        None => true,
    };
    SurfaceUpdate { recreate, reconfigure, width: w, height: h }
}

/// A presentation mode a surface may offer.
#[derive(Clone, Copy, Debug, PartialEq, Eq, Structural)]
pub enum PresentModeKind {
    AutoVsync,
    AutoNoVsync,
    Fifo,
    FifoRelaxed,
    Immediate,
    Mailbox,
}

/// An alpha-composition mode a surface may offer.
#[derive(Clone, Copy, Debug, PartialEq, Eq, Structural)]
pub enum AlphaModeKind {
    Auto,
    Opaque,
    PreMultiplied,
    PostMultiplied,
    Inherit,
}

/// The settings chosen for a presentation surface.
#[derive(Clone, Copy, Debug, PartialEq, Eq, Structural)]
pub struct SurfaceSettings {
    /// Position of the chosen pixel format in the advertised list.
    pub format_index: usize,
    pub present_mode: PresentModeKind,
    pub alpha_mode: AlphaModeKind,
    pub width: u32,
    pub height: u32,
}

/// A low-latency presentation mode.
pub open spec fn low_latency(m: PresentModeKind) -> bool {
    m is Mailbox || m is Immediate
}

/// `k` is the first position of `s` that satisfies `p`.
pub open spec fn first_where<A>(s: Seq<A>, p: spec_fn(A) -> bool, k: int) -> bool {
    0 <= k < s.len() && p(s[k]) && forall|j: int| 0 <= j < k ==> !p(#[trigger] s[j])
}

/// The first flagged position.
fn first_flagged(flags: &Vec<bool>) -> (r: Option<usize>)
    ensures
        r matches Some(k) ==> first_where(flags@, |b: bool| b, k as int),
        r is None ==> forall|k: int| 0 <= k < flags@.len() ==> !flags@[k],
{
    let mut i: usize = 0;
    while i < flags.len()
        invariant
            0 <= i <= flags@.len(),
            forall|j: int| 0 <= j < i ==> !flags@[j],
        decreases flags@.len() - i,
    {
        if flags[i] {
            return Some(i);
        }
        i = i + 1;
    }
    None
}

/// The first low-latency mode offered.
fn first_low_latency(modes: &Vec<PresentModeKind>) -> (r: Option<PresentModeKind>)
    ensures
        r matches Some(m) ==> exists|k: int|
            first_where(modes@, |m: PresentModeKind| low_latency(m), k) && m == modes@[k],
        r is None ==> forall|k: int| 0 <= k < modes@.len() ==> !low_latency(#[trigger] modes@[k]),
{
    let mut i: usize = 0;
    while i < modes.len()
        invariant
            0 <= i <= modes@.len(),
            forall|j: int| 0 <= j < i ==> !low_latency(#[trigger] modes@[j]),
        decreases modes@.len() - i,
    {
        let mode = modes[i];
        if matches!(mode, PresentModeKind::Mailbox | PresentModeKind::Immediate) {
            proof {
                assert(first_where(modes@, |m: PresentModeKind| low_latency(m), i as int));
            }
            return Some(mode);
        }
        i = i + 1;
    }
    None
}

/// Whether opaque alpha is offered.
fn offers_opaque(modes: &Vec<AlphaModeKind>) -> (r: bool)
    ensures
        r == modes@.contains(AlphaModeKind::Opaque),
{
    let mut i: usize = 0;
    while i < modes.len()
        invariant
            0 <= i <= modes@.len(),
            forall|j: int| 0 <= j < i ==> modes@[j] != AlphaModeKind::Opaque,
        decreases modes@.len() - i,
    {
        if modes[i] == AlphaModeKind::Opaque {
            proof {
                assert(modes@[i as int] == AlphaModeKind::Opaque);
            }
            return true;
        }
        i = i + 1;
    }
    false
}

/// Chooses the settings of a presentation surface from its capabilities:
/// the first format flagged as the preferred sRGB one, else the first
/// advertised; the first low-latency mode (mailbox or immediate), else the
/// vsynced `Fifo`; opaque alpha if offered, else the first advertised; the
/// size with each side at least one. `None` when no format or no alpha mode
/// is advertised: a transient failure, retried on a later tick.
pub fn choose_surface_settings(
    preferred_format: &Vec<bool>,
    present_modes: &Vec<PresentModeKind>,
    alpha_modes: &Vec<AlphaModeKind>,
    width: u32,
    height: u32,
) -> (r: Option<SurfaceSettings>)
    ensures
        r is None <==> preferred_format@.len() == 0 || alpha_modes@.len() == 0,
        r matches Some(c) ==> {
            &&& c.width == at_least_one(width)
            &&& c.height == at_least_one(height)
            &&& (exists|k: int| 0 <= k < preferred_format@.len() && preferred_format@[k]) ==> first_where(
                preferred_format@,
                |b: bool| b,
                c.format_index as int,
            )
            &&& (forall|k: int| 0 <= k < preferred_format@.len() ==> !preferred_format@[k]) ==> c.format_index
                == 0
            &&& (exists|k: int| first_where(present_modes@, |m: PresentModeKind| low_latency(m), k)
                && c.present_mode == present_modes@[k])
                || ((forall|k: int|
                0 <= k < present_modes@.len() ==> !low_latency(#[trigger] present_modes@[k]))
                && c.present_mode == PresentModeKind::Fifo)
            &&& alpha_modes@.contains(AlphaModeKind::Opaque) ==> c.alpha_mode == AlphaModeKind::Opaque
            &&& !alpha_modes@.contains(AlphaModeKind::Opaque) ==> c.alpha_mode == alpha_modes@[0]
        },
{
    if preferred_format.len() == 0 || alpha_modes.len() == 0 {
        return None;
    }
    let format_index: usize = match first_flagged(preferred_format) {
        Some(k) => k,
        None => 0,
    };
    let present_mode = match first_low_latency(present_modes) {
        Some(m) => m,
        None => PresentModeKind::Fifo,
    };
    let alpha_mode = if offers_opaque(alpha_modes) {
        AlphaModeKind::Opaque
    } else {
        alpha_modes[0]
    };
    let w: u32 = if width == 0 {
        1
    } else {
        width
    };
    let h: u32 = if height == 0 {
        1
    } else {
        height
    };
    Some(SurfaceSettings { format_index, present_mode, alpha_mode, width: w, height: h })
}

/// The region of the shared image that one surface shows.
#[derive(Clone, Copy, Debug, PartialEq, Eq, Structural)]
pub struct CopyRegion {
    pub origin_x: u32,
    pub origin_y: u32,
    pub width: u32,
    pub height: u32,
}

/// The crop of the shared image for a surface placed at `(offset_x,
/// offset_y)` on a canvas whose top-left is `(min_x, min_y)`: it starts at
/// the surface's position relative to the canvas (never left of or above
/// it), and is as large as both the configured surface and the image allow.
pub fn copy_region(
    offset_x: i32,
    offset_y: i32,
    min_x: i32,
    min_y: i32,
    surface_width: u32,
    surface_height: u32,
    image_width: u32,
    image_height: u32,
) -> (r: CopyRegion)
    ensures
        r.origin_x == (if offset_x >= min_x {
            offset_x - min_x
        } else {
            0
        }),
        r.origin_y == (if offset_y >= min_y {
            offset_y - min_y
        } else {
            0
        }),
        r.width == (if surface_width <= image_width {
            surface_width
        } else {
            image_width
        }),
        r.height == (if surface_height <= image_height {
            surface_height
        } else {
            image_height
        }),
{
    let ox: i64 = offset_x as i64 - min_x as i64;
    let oy: i64 = offset_y as i64 - min_y as i64;
    CopyRegion {
        origin_x: if ox >= 0 {
            ox as u32
        } else {
            0
        },
        origin_y: if oy >= 0 {
            oy as u32
        } else {
            0
        },
        width: if surface_width <= image_width {
            surface_width
        } else {
            image_width
        },
        height: if surface_height <= image_height {
            surface_height
        } else {
            image_height
        },
    }
}

/// Why acquiring a drawable failed.
#[derive(Clone, Copy, Debug, PartialEq, Eq, Structural)]
pub enum AcquireError {
    Timeout,
    Outdated,
    Lost,
    OutOfMemory,
    Other,
}

/// What follows a failed acquire.
#[derive(Clone, Copy, Debug, PartialEq, Eq, Structural)]
pub enum AcquireOutcome {
    /// Drop the surface's local state; it is recreated once the entry is
    /// ready again.
    Discard,
    /// Keep the state and try again next tick.
    Retry,
}

/// A surface that is outdated, lost or out of memory is discarded; a
/// timeout or another error is retried next tick.
pub fn acquire_outcome(e: AcquireError) -> (r: AcquireOutcome)
    ensures
        r == (if e is Outdated || e is Lost || e is OutOfMemory {
            AcquireOutcome::Discard
        } else {
            AcquireOutcome::Retry
        }),
{
    match e {
        AcquireError::Outdated | AcquireError::Lost | AcquireError::OutOfMemory => AcquireOutcome::Discard,
        AcquireError::Timeout | AcquireError::Other => AcquireOutcome::Retry,
    }
}

} // verus!
