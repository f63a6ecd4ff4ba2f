//! Conventions every render path of the engine shares.
use vstd::prelude::*;

verus! {

/// The most colour attachments a render target holds.
pub const MAX_COLOR_ATTACHMENTS: usize = 8;

/// The format of every depth attachment: `Depth32Float`, which is no colour format.
pub fn depth_format() -> (r: wgpu::TextureFormat)
    ensures
        crate::gpu::is_depth32_float(r),
        crate::gpu::component_alignment(r) is None,
        crate::gpu::pixel_byte_cost(r) is None,
{
    crate::gpu::depth32_float()
}

} // verus!
