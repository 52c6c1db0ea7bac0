//! Decisions about the window surface: when a resize is taken, what to do
//! with the frame the surface hands out, and which texture format to draw in.
use vstd::prelude::*;

verus! {

/// The size the surface is configured with, and whether it has been
/// configured at all.
#[derive(Clone, Copy, Debug, PartialEq, Eq, Structural)]
pub struct SurfaceSize {
    pub width: u32,
    pub height: u32,
    pub configured: bool,
}

/// The size after a resize to `width` by `height`: taken, and the surface
/// marked configured, when both are positive; otherwise ignored.
pub open spec fn spec_resized(s: SurfaceSize, width: u32, height: u32) -> SurfaceSize {
    if width > 0 && height > 0 {
        SurfaceSize { width, height, configured: true }
    } else {
        s
    }
}

impl SurfaceSize {
    /// The window's initial size, not yet configured.
    pub fn new(width: u32, height: u32) -> (s: Self)
        ensures
            s == (SurfaceSize { width, height, configured: false }),
    {
        SurfaceSize { width, height, configured: false }
    }

    /// Takes a new window size; returns whether it was taken (and the surface
    /// must be configured again).
    pub fn resize(&mut self, width: u32, height: u32) -> (taken: bool)
        ensures
            taken == (width > 0 && height > 0),
            *final(self) == spec_resized(*old(self), width, height),
    {
        if width > 0 && height > 0 {
            self.width = width;
            self.height = height;
            self.configured = true;
            true
        } else {
            false
        }
    }
}

/// Once configured, a surface stays configured whatever it is resized to, and
/// a size it holds is always positive in both directions once configured.
pub proof fn law_resize_keeps_configured(s: SurfaceSize, width: u32, height: u32)
    requires
        s.configured ==> s.width > 0 && s.height > 0,
    ensures
        s.configured ==> spec_resized(s, width, height).configured,
        spec_resized(s, width, height).configured ==> spec_resized(s, width, height).width > 0
            && spec_resized(s, width, height).height > 0,
{
}

/// Resizing twice to the same size is the same as resizing once.
pub proof fn law_resize_is_idempotent(s: SurfaceSize, width: u32, height: u32)
    ensures
        spec_resized(spec_resized(s, width, height), width, height) == spec_resized(
            s,
            width,
            height,
        ),
{
}

/// What the surface said when asked for the next frame's texture.
#[derive(Clone, Copy, Debug, PartialEq, Eq, Structural)]
pub enum SurfaceStatus {
    Success,
    Suboptimal,
    Timeout,
    Occluded,
    Validation,
    Outdated,
    Lost,
}

/// What to do with a frame.
#[derive(Clone, Copy, Debug, PartialEq, Eq, Structural)]
pub enum FramePlan {
    /// Draw the frame, configuring the surface again first when asked.
    Draw { reconfigure_first: bool },
    /// Skip this frame.
    Skip,
    /// Configure the surface again and skip this frame.
    ReconfigureAndSkip,
    /// The device is gone: report an error.
    DeviceLost,
}

/// The plan for a frame: draw on success, reconfiguring first when the
/// texture is suboptimal; skip on timeout, occlusion or a validation error;
/// reconfigure and skip when outdated; fail when the device is lost.
pub open spec fn spec_frame_plan(status: SurfaceStatus) -> FramePlan {
    match status {
        SurfaceStatus::Success => FramePlan::Draw { reconfigure_first: false },
        SurfaceStatus::Suboptimal => FramePlan::Draw { reconfigure_first: true },
        SurfaceStatus::Timeout => FramePlan::Skip,
        SurfaceStatus::Occluded => FramePlan::Skip,
        SurfaceStatus::Validation => FramePlan::Skip,
        SurfaceStatus::Outdated => FramePlan::ReconfigureAndSkip,
        SurfaceStatus::Lost => FramePlan::DeviceLost,
    }
}

/// The plan for a frame (see `spec_frame_plan`).
pub fn frame_plan(status: SurfaceStatus) -> (p: FramePlan)
    ensures
        p == spec_frame_plan(status),
{
    match status {
        SurfaceStatus::Success => FramePlan::Draw { reconfigure_first: false },
        SurfaceStatus::Suboptimal => FramePlan::Draw { reconfigure_first: true },
        SurfaceStatus::Timeout => FramePlan::Skip,
        SurfaceStatus::Occluded => FramePlan::Skip,
        SurfaceStatus::Validation => FramePlan::Skip,
        SurfaceStatus::Outdated => FramePlan::ReconfigureAndSkip,
        SurfaceStatus::Lost => FramePlan::DeviceLost,
    }
}

/// A frame is drawn only when the surface handed out a usable texture.
pub proof fn law_draw_only_with_a_texture(status: SurfaceStatus)
    ensures
        spec_frame_plan(status) is Draw <==> (status == SurfaceStatus::Success || status
            == SurfaceStatus::Suboptimal),
        spec_frame_plan(status) is DeviceLost <==> status == SurfaceStatus::Lost,
{
}

/// The format to draw in, given for each format the surface supports whether
/// it is sRGB: the first sRGB one, or else the first one.
pub fn choose_surface_format(is_srgb: &Vec<bool>) -> (i: usize)
    requires
        is_srgb@.len() > 0,
    ensures
        i < is_srgb@.len(),
        forall|j: int| 0 <= j < i ==> !#[trigger] is_srgb@[j],
        is_srgb@[i as int] || i == 0,
        (exists|j: int| 0 <= j < is_srgb@.len() && #[trigger] is_srgb@[j]) ==> is_srgb@[i as int],
{
    let mut k: usize = 0;
    while k < is_srgb.len()
        invariant
            k <= is_srgb@.len(),
            forall|j: int| 0 <= j < k ==> !#[trigger] is_srgb@[j],
        decreases is_srgb@.len() - k,
    {
        if is_srgb[k] {
            return k;
        }
        k = k + 1;
    }
    0
}

/// A resize is taken exactly when both sides are positive; a taken resize
/// holds the new size and marks the surface configured, and one not taken
/// changes nothing.
pub proof fn law_resize_fields(s: SurfaceSize, width: u32, height: u32)
    ensures
        width > 0 && height > 0 ==> spec_resized(s, width, height).width == width && spec_resized(
            s,
            width,
            height,
        ).height == height && spec_resized(s, width, height).configured,
        !(width > 0 && height > 0) ==> spec_resized(s, width, height) == s,
{
}

/// What each answer of the surface leads to: success draws as is, a
/// suboptimal texture is drawn after configuring again, a timeout, occlusion
/// or validation error skips the frame, an outdated surface is configured
/// again and the frame skipped, and only a lost surface is an error.
pub proof fn law_frame_plans(status: SurfaceStatus)
    ensures
        spec_frame_plan(status) == (FramePlan::Draw { reconfigure_first: false }) <==> status
            == SurfaceStatus::Success,
        spec_frame_plan(status) == (FramePlan::Draw { reconfigure_first: true }) <==> status
            == SurfaceStatus::Suboptimal,
        spec_frame_plan(status) == FramePlan::Skip <==> (status == SurfaceStatus::Timeout || status
            == SurfaceStatus::Occluded || status == SurfaceStatus::Validation),
        spec_frame_plan(status) == FramePlan::ReconfigureAndSkip <==> status == SurfaceStatus::Outdated,
        spec_frame_plan(status) == FramePlan::DeviceLost <==> status == SurfaceStatus::Lost,
{
}

} // verus!
