//! The decisions the window surface makes: which format to present in, when a resize
//! applies, and what to do with each outcome of acquiring a frame.
use vstd::prelude::*;

verus! {

/// `TextureFormat`'s derived `==`: equal formats are the same variant with the same fields,
/// which is equality of the values.
#[verifier::external_body]
pub(crate) fn format_eq(a: &wgpu::TextureFormat, b: &wgpu::TextureFormat) -> (r: bool)
    ensures
        r == (*a == *b),
{
    a == b
}

/// The first of `preferred` that `available` offers, if any.
pub open spec fn first_offered(available: Seq<wgpu::TextureFormat>, preferred: Seq<wgpu::TextureFormat>) -> Option<
    wgpu::TextureFormat,
>
    decreases preferred.len(),
{
    if preferred.len() == 0 {
        None
    } else if available.contains(preferred[0]) {
        Some(preferred[0])
    } else {
        first_offered(available, preferred.drop_first())
    }
}

/// Whether `available` offers `format`.
pub fn offers(available: &[wgpu::TextureFormat], format: &wgpu::TextureFormat) -> (r: bool)
    ensures
        r == available@.contains(*format),
{
    let mut i: usize = 0;
    while i < available.len()
        invariant
            i <= available@.len(),
            forall|j: int| 0 <= j < i ==> available@[j] != *format,
        decreases available@.len() - i,
    {
        if format_eq(&available[i], format) {
            return true;
        }
        i = i + 1;
    }
    false
}

/// The format to present in: the first of `preferred` the surface offers, else the
/// surface's first format. The surface must offer at least one.
pub fn pick_surface_format(available: &[wgpu::TextureFormat], preferred: &[wgpu::TextureFormat]) -> (r:
    wgpu::TextureFormat)
    requires
        available@.len() > 0,
    ensures
        r == match first_offered(available@, preferred@) {
            Some(f) => f,
            None => available@[0],
        },
{
    let fallback = available[0];
    let mut i: usize = 0;
    proof {
        assert(preferred@.skip(0) == preferred@);
    }
    while i < preferred.len()
        invariant
            i <= preferred@.len(),
            first_offered(available@, preferred@) == first_offered(available@, preferred@.skip(i as int)),
        decreases preferred@.len() - i,
    {
        proof {
            assert(preferred@.skip(i as int)[0] == preferred@[i as int]);
            assert(preferred@.skip(i as int).drop_first() == preferred@.skip(i + 1));
        }
        if offers(available, &preferred[i]) {
            return preferred[i];
        }
        i = i + 1;
    }
    proof {
        assert(preferred@.skip(i as int).len() == 0);
    }
    fallback
}

/// `format` is `TextureFormat::Bgra8UnormSrgb`.
pub uninterp spec fn is_bgra8_unorm_srgb(format: wgpu::TextureFormat) -> bool;

/// `format` is `TextureFormat::Rgba8UnormSrgb`.
pub uninterp spec fn is_rgba8_unorm_srgb(format: wgpu::TextureFormat) -> bool;

/// `TextureFormat::Bgra8UnormSrgb`; the verifier cannot see inside a format, so the result
/// is named.
#[verifier::external_body]
pub(crate) fn bgra8_unorm_srgb() -> (r: wgpu::TextureFormat)
    ensures
        is_bgra8_unorm_srgb(r),
{
    wgpu::TextureFormat::Bgra8UnormSrgb
}

/// `TextureFormat::Rgba8UnormSrgb`; the verifier cannot see inside a format, so the result
/// is named.
#[verifier::external_body]
pub(crate) fn rgba8_unorm_srgb() -> (r: wgpu::TextureFormat)
    ensures
        is_rgba8_unorm_srgb(r),
{
    wgpu::TextureFormat::Rgba8UnormSrgb
}

/// The formats the engine prefers to present in, in order: `Bgra8UnormSrgb`, then
/// `Rgba8UnormSrgb`.
pub open spec fn preference_order(preferred: Seq<wgpu::TextureFormat>) -> bool {
    &&& preferred.len() == 2
    &&& is_bgra8_unorm_srgb(preferred[0])
    &&& is_rgba8_unorm_srgb(preferred[1])
}

/// The formats the engine prefers to present in, in order.
pub fn preferred_surface_formats() -> (r: Vec<wgpu::TextureFormat>)
    ensures
        preference_order(r@),
{
    let mut formats: Vec<wgpu::TextureFormat> = Vec::new();
    formats.push(bgra8_unorm_srgb());
    formats.push(rgba8_unorm_srgb());
    formats
}

/// The format the engine presents in, among those the surface offers: `Bgra8UnormSrgb` if
/// offered, else `Rgba8UnormSrgb` if offered, else the surface's first format. The surface
/// must offer at least one.
pub fn choose_surface_format(available: &[wgpu::TextureFormat]) -> (r: wgpu::TextureFormat)
    requires
        available@.len() > 0,
    ensures
        exists|preferred: Seq<wgpu::TextureFormat>| #[trigger] preference_order(preferred) && r == match first_offered(
            available@,
            preferred,
        ) {
            Some(f) => f,
            None => available@[0],
        },
{
    let preferred = preferred_surface_formats();
    pick_surface_format(available, preferred.as_slice())
}

/// The size a surface is configured with at creation: each side at least one.
pub fn initial_surface_size(width: u32, height: u32) -> (r: (u32, u32))
    ensures
        r.0 == if width >= 1 {
            width
        } else {
            1
        },
        r.1 == if height >= 1 {
            height
        } else {
            1
        },
{
    (if width >= 1 {
        width
    } else {
        1
    }, if height >= 1 {
        height
    } else {
        1
    })
}

/// The size after a resize request: the requested size when both sides are positive,
/// else the current size (a minimised window keeps its surface).
pub fn resized_surface(current: (u32, u32), width: u32, height: u32) -> (r: (u32, u32))
    ensures
        width > 0 && height > 0 ==> r == (width, height),
        !(width > 0 && height > 0) ==> r == current,
{
    if width > 0 && height > 0 {
        (width, height)
    } else {
        current
    }
}

/// What acquiring the surface's next texture came back with.
#[derive(Clone, Copy, Debug, PartialEq, Eq, Structural)]
pub enum SurfaceStatus {
    Success,
    Suboptimal,
    Timeout,
    Occluded,
    Outdated,
    Lost,
    Validation,
}

/// What to do with the frame.
#[derive(Clone, Copy, Debug, PartialEq, Eq, Structural)]
pub enum FrameAction {
    /// Render and present; reconfigure the surface after presenting when asked.
    Present { reconfigure_after: bool },
    /// Reconfigure the surface now and skip this frame.
    ReconfigureAndSkip,
    /// Skip this frame.
    Skip,
    /// Give up with an error.
    Fail,
}

/// The action for each acquisition outcome: present a good texture (reconfiguring after a
/// suboptimal one), reconfigure on a lost or outdated surface and skip, skip on a timeout
/// or an occluded window, and fail on a validation error.
pub fn acquire_action(status: SurfaceStatus) -> (r: FrameAction)
    ensures
        r == match status {
            SurfaceStatus::Success => FrameAction::Present { reconfigure_after: false },
            SurfaceStatus::Suboptimal => FrameAction::Present { reconfigure_after: true },
            SurfaceStatus::Lost | SurfaceStatus::Outdated => FrameAction::ReconfigureAndSkip,
            SurfaceStatus::Timeout | SurfaceStatus::Occluded => FrameAction::Skip,
            SurfaceStatus::Validation => FrameAction::Fail,
        },
{
    match status {
        SurfaceStatus::Success => FrameAction::Present { reconfigure_after: false },
        SurfaceStatus::Suboptimal => FrameAction::Present { reconfigure_after: true },
        SurfaceStatus::Lost | SurfaceStatus::Outdated => FrameAction::ReconfigureAndSkip,
        SurfaceStatus::Timeout | SurfaceStatus::Occluded => FrameAction::Skip,
        SurfaceStatus::Validation => FrameAction::Fail,
    }
}

} // verus!
