//! Render targets: where the pixels of a pass go, as a list of colour attachments
//! selected by role, an optional depth attachment, an extent and a sample count.
use vstd::prelude::*;
use crate::conventions::MAX_COLOR_ATTACHMENTS;
use crate::conventions::depth_format;
use crate::gpu::{
    component_alignment, extent_ok, known_texture_usages, pixel_byte_cost, render_attachment_usage,
    target_component_alignment, target_pixel_byte_cost, texture_binding_usage, texture_extent, texture_format,
    texture_usage_bits, texture_usages, texture_usages_bits, texture_usages_union, DeviceLimits, Extent3d,
    TextureDesc, TextureDim,
};
use crate::labels::{color_label, depth_label, indexed_label};
use crate::resource::{TextureHandle, TextureResource};
use crate::rhi::Rhi;

verus! {

/// What an attachment means, so passes and sinks select by role rather than by index.
/// `Color` is the presented image the UI samples and a surface blit consumes; the others
/// are reserved for render paths that produce them.
#[derive(Clone, Copy, Debug, PartialEq, Eq, Structural)]
pub enum AttachmentRole {
    Color,
    Normal,
    Motion,
    ObjectId,
}

/// One colour attachment of a render target.
#[derive(Clone, Copy, Debug)]
pub struct ColorAttachment {
    pub handle: TextureHandle,
    pub format: wgpu::TextureFormat,
    pub role: AttachmentRole,
    pub usage: wgpu::TextureUsages,
}

/// What a render target is asked to create for one colour attachment.
pub struct ColorSpec {
    pub format: wgpu::TextureFormat,
    pub role: AttachmentRole,
    pub usage: wgpu::TextureUsages,
}

/// The texture extent of a two-dimensional target of the given width and height.
pub open spec fn spec_extent_of(size: (u32, u32)) -> Extent3d {
    Extent3d { width: size.0, height: size.1, depth_or_array_layers: 1 }
}

/// The extent of a single-layer texture of `size.0` by `size.1` texels.
pub fn extent_of(size: (u32, u32)) -> (r: Extent3d)
    ensures
        r == spec_extent_of(size),
{
    Extent3d { width: size.0, height: size.1, depth_or_array_layers: 1 }
}

/// A description of where the pixels of a pass go.
pub struct RenderTarget {
    colors: Vec<ColorAttachment>,
    pub depth: Option<TextureHandle>,
    pub extent: Extent3d,
    pub sample_count: u32,
}

/// The index of the first attachment in `colors` whose role is `role`, if any.
pub open spec fn first_with_role(colors: Seq<ColorAttachment>, role: AttachmentRole) -> Option<int>
    decreases colors.len(),
{
    if colors.len() == 0 {
        None
    } else {
        match first_with_role(colors.drop_last(), role) {
            Some(i) => Some(i),
            None => if colors.last().role == role {
                Some(colors.len() - 1)
            } else {
                None
            },
        }
    }
}

/// `first_with_role` finds the first attachment with the role and no other.
pub proof fn lemma_first_with_role(colors: Seq<ColorAttachment>, role: AttachmentRole)
    ensures
        first_with_role(colors, role) matches Some(i) ==> {
            &&& 0 <= i < colors.len()
            &&& colors[i].role == role
            &&& forall|j: int| 0 <= j < i ==> colors[j].role != role
        },
        first_with_role(colors, role) is None ==> forall|j: int|
            0 <= j < colors.len() ==> colors[j].role != role,
    decreases colors.len(),
{
    if colors.len() > 0 {
        let prefix = colors.drop_last();
        lemma_first_with_role(prefix, role);
        assert forall|j: int| 0 <= j < prefix.len() implies prefix[j] == colors[j] by {}
    }
}

impl RenderTarget {
    /// The colour attachments, in order.
    pub closed spec fn attachments(&self) -> Seq<ColorAttachment> {
        self.colors@
    }

    /// The depth attachment, if any.
    pub closed spec fn depth_target(&self) -> Option<TextureHandle> {
        self.depth
    }

    /// The extent of every attachment.
    pub closed spec fn target_extent(&self) -> Extent3d {
        self.extent
    }

    /// The sample count of every attachment.
    pub closed spec fn target_samples(&self) -> u32 {
        self.sample_count
    }

    /// The depth attachment, if any.
    pub fn depth(&self) -> (r: Option<TextureHandle>)
        ensures
            r == self.depth_target(),
    {
        self.depth
    }

    /// The extent of every attachment.
    pub fn extent(&self) -> (r: Extent3d)
        ensures
            r == self.target_extent(),
    {
        self.extent
    }

    /// The sample count of every attachment.
    pub fn sample_count(&self) -> (r: u32)
        ensures
            r == self.target_samples(),
    {
        self.sample_count
    }

    /// A target over the given attachments, in order, holding no more than
    /// `MAX_COLOR_ATTACHMENTS` of them.
    pub fn from_parts(
        attachments: &[ColorAttachment],
        depth: Option<TextureHandle>,
        extent: Extent3d,
        sample_count: u32,
    ) -> (r: RenderTarget)
        requires
            attachments@.len() <= MAX_COLOR_ATTACHMENTS,
        ensures
            r.attachments() == attachments@,
            r.depth_target() == depth,
            r.target_extent() == extent,
            r.target_samples() == sample_count,
    {
        let mut colors: Vec<ColorAttachment> = Vec::new();
        let mut i: usize = 0;
        while i < attachments.len()
            invariant
                i <= attachments@.len(),
                colors@ == attachments@.subrange(0, i as int),
            decreases attachments@.len() - i,
        {
            colors.push(attachments[i]);
            i = i + 1;
        }
        RenderTarget { colors, depth, extent, sample_count }
    }

    /// The number of colour attachments.
    pub fn color_count(&self) -> (r: usize)
        ensures
            r == self.attachments().len(),
    {
        self.colors.len()
    }

    /// The colour attachment at index `i`.
    pub fn color(&self, i: usize) -> (r: ColorAttachment)
        requires
            i < self.attachments().len(),
        ensures
            r == self.attachments()[i as int],
    {
        self.colors[i]
    }

    /// The colour attachments, in order.
    pub fn colors(&self) -> (r: Vec<ColorAttachment>)
        ensures
            r@ == self.attachments(),
    {
        let mut out: Vec<ColorAttachment> = Vec::new();
        let mut i: usize = 0;
        while i < self.colors.len()
            invariant
                i <= self.colors@.len(),
                out@ == self.colors@.subrange(0, i as int),
            decreases self.colors@.len() - i,
        {
            out.push(self.colors[i]);
            i = i + 1;
        }
        out
    }

    /// The first colour attachment with the given role, with its index.
    pub fn find(&self, role: AttachmentRole) -> (r: Option<(usize, ColorAttachment)>)
        ensures
            r matches Some((i, a)) ==> first_with_role(self.attachments(), role) == Some(i as int)
                && a == self.attachments()[i as int],
            r is None <==> first_with_role(self.attachments(), role) is None,
    {
        let mut i: usize = 0;
        while i < self.colors.len()
            invariant
                i <= self.colors@.len(),
                first_with_role(self.colors@.subrange(0, i as int), role) is None,
            decreases self.colors@.len() - i,
        {
            proof {
                assert(self.colors@.subrange(0, i + 1).drop_last() == self.colors@.subrange(0, i as int));
            }
            if self.colors[i].role == role {
                proof {
                    lemma_prefix_first_with_role(self.colors@, i as int + 1, role);
                }
                return Some((i, self.colors[i]));
            }
            i = i + 1;
        }
        proof {
            assert(self.colors@.subrange(0, i as int) == self.colors@);
        }
        None
    }

    /// The presented image: the first attachment whose role is `Color`. A target without
    /// one has no presented image, and asking for it is refused.
    pub fn presented(&self) -> (r: ColorAttachment)
        requires
            first_with_role(self.attachments(), AttachmentRole::Color) is Some,
        ensures
            r == self.attachments()[first_with_role(self.attachments(), AttachmentRole::Color)->0],
            r.role == AttachmentRole::Color,
    {
        proof {
            lemma_first_with_role(self.attachments(), AttachmentRole::Color);
        }
        match self.find(AttachmentRole::Color) {
            Some((_, a)) => a,
            None => {
                proof {
                    assert(false);
                }
                self.colors[0]
            },
        }
    }
}

/// Growing a prefix with no match by one element that matches makes that element the
/// first match, and growing it further keeps it so.
proof fn lemma_prefix_first_with_role(colors: Seq<ColorAttachment>, n: int, role: AttachmentRole)
    requires
        0 < n <= colors.len(),
        first_with_role(colors.subrange(0, n - 1), role) is None,
        colors[n - 1].role == role,
    ensures
        first_with_role(colors, role) == Some(n - 1),
    decreases colors.len() - n,
{
    let grown = colors.subrange(0, n);
    assert(grown.drop_last() == colors.subrange(0, n - 1));
    assert(grown.last() == colors[n - 1]);
    assert(first_with_role(grown, role) == Some(n - 1));
    lemma_prefix_first_with_role_extend(colors, n, role);
}

/// Extending a sequence keeps a first match found in a prefix.
proof fn lemma_prefix_first_with_role_extend(colors: Seq<ColorAttachment>, n: int, role: AttachmentRole)
    requires
        0 < n <= colors.len(),
        first_with_role(colors.subrange(0, n), role) == Some(n - 1),
    ensures
        first_with_role(colors, role) == Some(n - 1),
    decreases colors.len() - n,
{
    if n < colors.len() {
        let grown = colors.subrange(0, n + 1);
        assert(grown.drop_last() == colors.subrange(0, n));
        assert(first_with_role(grown, role) == Some(n - 1));
        lemma_prefix_first_with_role_extend_from(colors, n + 1, n - 1, role);
    } else {
        assert(colors.subrange(0, n) == colors);
    }
}

/// Extending a prefix of length `n` whose first match is `k` keeps `k`.
proof fn lemma_prefix_first_with_role_extend_from(colors: Seq<ColorAttachment>, n: int, k: int, role: AttachmentRole)
    requires
        0 < n <= colors.len(),
        first_with_role(colors.subrange(0, n), role) == Some(k),
    ensures
        first_with_role(colors, role) == Some(k),
    decreases colors.len() - n,
{
    if n < colors.len() {
        let grown = colors.subrange(0, n + 1);
        assert(grown.drop_last() == colors.subrange(0, n));
        assert(first_with_role(grown, role) == Some(k));
        lemma_prefix_first_with_role_extend_from(colors, n + 1, k, role);
    } else {
        assert(colors.subrange(0, n) == colors);
    }
}

// --- bytes per sample ----------------------------------------------------------------------------

/// `total` rounded up to the next multiple of `alignment` (which is positive).
pub open spec fn round_up(total: int, alignment: int) -> int {
    if total % alignment == 0 {
        total
    } else {
        total + (alignment - total % alignment)
    }
}

/// The bytes per sample of colour attachments laid out one after the other, each starting
/// at a multiple of its component alignment: `layouts[i]` is `(alignment, byte cost)` of
/// attachment `i`. This is the rule by which WebGPU limits a render pass.
pub open spec fn packed_bytes(layouts: Seq<(u32, u32)>) -> int
    decreases layouts.len(),
{
    if layouts.len() == 0 {
        0
    } else {
        round_up(packed_bytes(layouts.drop_last()), layouts.last().0 as int) + layouts.last().1
    }
}

/// Every attachment has a positive alignment.
pub open spec fn alignments_positive(layouts: Seq<(u32, u32)>) -> bool {
    forall|i: int| 0 <= i < layouts.len() ==> #[trigger] layouts[i].0 > 0
}

/// Packing more attachments never takes fewer bytes.
pub proof fn lemma_packed_bytes_monotone(layouts: Seq<(u32, u32)>, n: int)
    requires
        0 <= n <= layouts.len(),
        alignments_positive(layouts),
    ensures
        0 <= packed_bytes(layouts.subrange(0, n)) <= packed_bytes(layouts),
    decreases layouts.len() - n,
{
    if n < layouts.len() {
        lemma_packed_bytes_monotone(layouts, n + 1);
        let prefix = layouts.subrange(0, n + 1);
        assert(prefix.drop_last() == layouts.subrange(0, n));
        assert(prefix.last() == layouts[n]);
        assert(layouts[n].0 > 0);
        lemma_packed_bytes_nonneg(layouts.subrange(0, n));
    } else {
        assert(layouts.subrange(0, n) == layouts);
        lemma_packed_bytes_nonneg(layouts);
    }
}

/// Packed sizes are never negative.
proof fn lemma_packed_bytes_nonneg(layouts: Seq<(u32, u32)>)
    requires
        alignments_positive(layouts),
    ensures
        packed_bytes(layouts) >= 0,
    decreases layouts.len(),
{
    if layouts.len() > 0 {
        assert(layouts.drop_last()[0] == layouts[0] || layouts.drop_last().len() == 0);
        assert(alignments_positive(layouts.drop_last())) by {
            assert forall|i: int| 0 <= i < layouts.drop_last().len() implies #[trigger] layouts.drop_last()[i].0 > 0 by {
                assert(layouts.drop_last()[i] == layouts[i]);
            }
        }
        lemma_packed_bytes_nonneg(layouts.drop_last());
        assert(layouts[layouts.len() - 1].0 > 0);
    }
}

/// The bytes per sample of colour attachments with the given `(alignment, byte cost)`
/// layouts, packed in order; `None` when an alignment is zero or the total does not fit
/// in a `u32`.
pub fn packed_sample_bytes(layouts: &[(u32, u32)]) -> (r: Option<u32>)
    ensures
        r matches Some(total) ==> alignments_positive(layouts@) && total == packed_bytes(layouts@),
        r is None ==> !alignments_positive(layouts@) || packed_bytes(layouts@) > u32::MAX,
{
    let mut total: u32 = 0;
    let mut i: usize = 0;
    while i < layouts.len()
        invariant
            i <= layouts@.len(),
            alignments_positive(layouts@.subrange(0, i as int)),
            total == packed_bytes(layouts@.subrange(0, i as int)),
        decreases layouts@.len() - i,
    {
        let (alignment, cost) = layouts[i];
        let prefix = Ghost(layouts@.subrange(0, i as int + 1));
        proof {
            assert(prefix@.drop_last() == layouts@.subrange(0, i as int));
            assert(prefix@.last() == layouts@[i as int]);
        }
        if alignment == 0 {
            proof {
                assert(layouts@[i as int].0 == 0);
            }
            return None;
        }
        let rem = total % alignment;
        let rounded: u64 = if rem == 0 {
            total as u64
        } else {
            total as u64 + (alignment - rem) as u64
        };
        let next: u64 = rounded + cost as u64;
        proof {
            assert(alignments_positive(prefix@)) by {
                assert forall|j: int| 0 <= j < prefix@.len() implies #[trigger] prefix@[j].0 > 0 by {
                    if j < i {
                        assert(prefix@[j] == layouts@.subrange(0, i as int)[j]);
                    }
                }
            }
            assert(next == packed_bytes(prefix@));
        }
        if next > u32::MAX as u64 {
            proof {
                if alignments_positive(layouts@) {
                    lemma_packed_bytes_monotone(layouts@, i as int + 1);
                }
            }
            return None;
        }
        total = next as u32;
        i = i + 1;
    }
    proof {
        assert(layouts@.subrange(0, i as int) == layouts@);
    }
    Some(total)
}

/// The `(alignment, byte cost)` wgpu gives each format, when it gives both.
pub open spec fn format_layouts(formats: Seq<wgpu::TextureFormat>) -> Seq<(u32, u32)> {
    formats.map_values(|f: wgpu::TextureFormat| (component_alignment(f)->0, pixel_byte_cost(f)->0))
}

/// Every format is colour-renderable: wgpu gives it a component alignment and a byte cost.
pub open spec fn all_color_renderable(formats: Seq<wgpu::TextureFormat>) -> bool {
    forall|i: int| 0 <= i < formats.len() ==> {
        &&& #[trigger] component_alignment(formats[i]) is Some
        &&& pixel_byte_cost(formats[i]) is Some
    }
}

/// The bytes per sample of colour-renderable formats build up one attachment at a time: no
/// attachments take no bytes, and one more attachment starts at the next multiple of its
/// component alignment after the others and adds its byte cost. The order matters.
pub proof fn lemma_bytes_per_sample_step(formats: Seq<wgpu::TextureFormat>, format: wgpu::TextureFormat)
    requires
        all_color_renderable(formats.push(format)),
    ensures
        packed_bytes(format_layouts(Seq::<wgpu::TextureFormat>::empty())) == 0,
        packed_bytes(format_layouts(formats.push(format))) == round_up(
            packed_bytes(format_layouts(formats)),
            component_alignment(format)->0 as int,
        ) + pixel_byte_cost(format)->0,
{
    let all = format_layouts(formats.push(format));
    assert(all.drop_last() =~= format_layouts(formats));
    assert(all.last() == (component_alignment(format)->0, pixel_byte_cost(format)->0));
    assert(format_layouts(Seq::<wgpu::TextureFormat>::empty()).len() == 0);
}

/// The bytes per sample colour attachments of the given formats take, packed in order;
/// `None` when a format is not colour-renderable or the total cannot be computed.
pub fn try_bytes_per_sample(formats: &[wgpu::TextureFormat]) -> (r: Option<u32>)
    ensures
        r matches Some(total) ==> all_color_renderable(formats@) && alignments_positive(
            format_layouts(formats@),
        ) && total == packed_bytes(format_layouts(formats@)),
        r is None ==> !all_color_renderable(formats@) || !alignments_positive(format_layouts(formats@))
            || packed_bytes(format_layouts(formats@)) > u32::MAX,
{
    let mut layouts: Vec<(u32, u32)> = Vec::new();
    let mut i: usize = 0;
    while i < formats.len()
        invariant
            i <= formats@.len(),
            all_color_renderable(formats@.subrange(0, i as int)),
            layouts@ == format_layouts(formats@.subrange(0, i as int)),
        decreases formats@.len() - i,
    {
        let alignment = target_component_alignment(formats[i]);
        let cost = target_pixel_byte_cost(formats[i]);
        match (alignment, cost) {
            (Some(a), Some(c)) => {
                layouts.push((a, c));
                proof {
                    let next = formats@.subrange(0, i as int + 1);
                    assert forall|j: int| 0 <= j < next.len() implies {
                        &&& #[trigger] component_alignment(next[j]) is Some
                        &&& pixel_byte_cost(next[j]) is Some
                    } by {
                        if j < i {
                            assert(next[j] == formats@.subrange(0, i as int)[j]);
                        }
                    }
                    assert(layouts@ =~= format_layouts(next));
                }
            },
            _ => {
                proof {
                    assert(!all_color_renderable(formats@)) by {
                        assert(formats@[i as int] == formats@[i as int]);
                    }
                }
                return None;
            },
        }
        i = i + 1;
    }
    proof {
        assert(formats@.subrange(0, i as int) == formats@);
    }
    packed_sample_bytes(layouts.as_slice())
}

/// The bytes per sample colour attachments of the given formats take, packed in order by
/// the WebGPU rule. Every format must be colour-renderable and the total must fit.
pub fn bytes_per_sample(formats: &[wgpu::TextureFormat]) -> (r: u32)
    requires
        all_color_renderable(formats@),
        alignments_positive(format_layouts(formats@)),
        packed_bytes(format_layouts(formats@)) <= u32::MAX,
    ensures
        r == packed_bytes(format_layouts(formats@)),
{
    match try_bytes_per_sample(formats) {
        Some(total) => total,
        None => {
            proof {
                assert(false);
            }
            0
        },
    }
}

// --- resolved target -------------------------------------------------------------------------------

/// A render target whose attachments have been looked up: the texture views a pass
/// renders into.
pub struct ResolvedTarget<'a> {
    colors: Vec<&'a wgpu::TextureView>,
    pub depth: Option<&'a wgpu::TextureView>,
    pub extent: Extent3d,
    pub sample_count: u32,
}

impl<'a> ResolvedTarget<'a> {
    /// The colour views, in attachment order.
    pub closed spec fn views(&self) -> Seq<wgpu::TextureView> {
        self.colors@.map_values(|v: &wgpu::TextureView| *v)
    }

    /// The depth view, if any.
    pub closed spec fn depth_view(&self) -> Option<wgpu::TextureView> {
        match self.depth {
            Some(v) => Some(*v),
            None => None,
        }
    }

    /// The extent of every view.
    pub closed spec fn resolved_extent(&self) -> Extent3d {
        self.extent
    }

    /// The sample count of every view.
    pub closed spec fn resolved_samples(&self) -> u32 {
        self.sample_count
    }

    pub(crate) fn new(
        colors: Vec<&'a wgpu::TextureView>,
        depth: Option<&'a wgpu::TextureView>,
        extent: Extent3d,
        sample_count: u32,
    ) -> (r: Self)
        ensures
            r.views() == colors@.map_values(|v: &wgpu::TextureView| *v),
            r.depth_view() == (match depth {
                Some(v) => Some(*v),
                None => None,
            }),
            r.resolved_extent() == extent,
            r.resolved_samples() == sample_count,
    {
        ResolvedTarget { colors, depth, extent, sample_count }
    }

    /// The number of colour views.
    pub fn color_count(&self) -> (r: usize)
        ensures
            r == self.views().len(),
    {
        self.colors.len()
    }

    /// The colour view at index `i`, or `None` past the last one. The target has room for
    /// `MAX_COLOR_ATTACHMENTS`, and `i` must lie within that.
    pub fn color(&self, i: usize) -> (r: Option<&'a wgpu::TextureView>)
        requires
            i < MAX_COLOR_ATTACHMENTS,
        ensures
            r is Some <==> i < self.views().len(),
            r matches Some(v) ==> *v == self.views()[i as int],
    {
        if i < self.colors.len() {
            Some(self.colors[i])
        } else {
            None
        }
    }
}


// --- creating and resizing targets ----------------------------------------------------------------

/// Every attachment the engine creates is single-sampled.
pub const SAMPLE_COUNT: u32 = 1;

/// The formats of the requested colour attachments, in order.
pub open spec fn spec_formats(specs: Seq<ColorSpec>) -> Seq<wgpu::TextureFormat> {
    specs.map_values(|c: ColorSpec| c.format)
}

/// A device with these capabilities can render to colour attachments of these formats:
/// there are few enough of them, each is colour-renderable, and together they fit in the
/// bytes per sample the device allows.
pub open spec fn attachments_fit(caps: crate::context::Capabilities, formats: Seq<wgpu::TextureFormat>) -> bool {
    &&& formats.len() <= caps.max_color_attachments
    &&& formats.len() <= MAX_COLOR_ATTACHMENTS
    &&& all_color_renderable(formats)
    &&& alignments_positive(format_layouts(formats))
    &&& packed_bytes(format_layouts(formats)) <= caps.max_color_attachment_bytes_per_sample
}

/// `target` attaches the texture with key `key`.
pub open spec fn attaches(target: RenderTarget, key: u64) -> bool {
    ||| exists|i: int| 0 <= i < target.attachments().len() && #[trigger] target.attachments()[i].handle.id() == key
    ||| target.depth_target() matches Some(d) && d.id() == key
}

/// A two-dimensional extent of one layer and no zero side that the device's limits allow.
pub open spec fn extent_fits(extent: Extent3d, limits: DeviceLimits) -> bool {
    &&& extent_ok(extent)
    &&& extent.width <= limits.max_texture_dimension_2d
    &&& extent.height <= limits.max_texture_dimension_2d
    &&& extent.depth_or_array_layers == 1
    &&& extent.depth_or_array_layers <= limits.max_texture_array_layers
}

/// Whether `extent` is one `extent_fits` allows under `limits`.
pub fn fits_limits(extent: Extent3d, limits: &DeviceLimits) -> (r: bool)
    ensures
        r == extent_fits(extent, *limits),
{
    extent.width > 0 && extent.height > 0 && extent.depth_or_array_layers == 1
        && extent.width <= limits.max_texture_dimension_2d && extent.height <= limits.max_texture_dimension_2d
        && extent.depth_or_array_layers <= limits.max_texture_array_layers
}

/// Whether the usages of `usage`, once `RENDER_ATTACHMENT` is added, are known ones and
/// keep a transient attachment a render attachment alone.
pub fn usage_ok(usage: &wgpu::TextureUsages) -> (r: bool)
    ensures
        r == spec_usage_ok(*usage),
{
    let bits: u32 = texture_usages_bits(usage) | 16;
    bits & !0x1003fu32 == 0 && (bits & 32 == 0 || bits == 48)
}

/// Whether every requested colour attachment has usages `usage_ok` accepts.
pub fn usages_ok(specs: &[ColorSpec]) -> (r: bool)
    ensures
        r == spec_usages_ok(specs@),
{
    let mut i: usize = 0;
    while i < specs.len()
        invariant
            i <= specs@.len(),
            forall|j: int| 0 <= j < i ==> spec_usage_ok(#[trigger] specs@[j].usage),
        decreases specs@.len() - i,
    {
        if !usage_ok(&specs[i].usage) {
            return false;
        }
        i = i + 1;
    }
    true
}

/// A two-dimensional texture of an extent with no zero side may have one mip level.
proof fn lemma_mips_of_2d(extent: Extent3d)
    requires
        extent_ok(extent),
    ensures
        crate::gpu::max_mip_levels(TextureDim::D2, extent) >= 1,
{
    let w = extent.width as nat;
    let h = extent.height as nat;
    let m = if w >= h {
        w
    } else {
        h
    };
    assert(crate::gpu::bit_len(m) == 1 + crate::gpu::bit_len(m / 2));
}

/// A colour attachment texture may have these usages: at least one, none unknown, and a
/// transient attachment is a render attachment and nothing else.
pub open spec fn attachment_usage_ok(usage: wgpu::TextureUsages) -> bool {
    let bits = texture_usage_bits(usage);
    &&& bits != 0
    &&& bits & !known_texture_usages() == 0
    &&& (bits & 32 != 0 ==> bits == 48)
}

/// The usages a colour attachment is requested with, once `RENDER_ATTACHMENT` is added,
/// are ones `attachment_usage_ok` allows.
pub open spec fn spec_usage_ok(usage: wgpu::TextureUsages) -> bool {
    let bits = texture_usage_bits(usage) | 16;
    &&& bits & !known_texture_usages() == 0
    &&& (bits & 32 != 0 ==> bits == 48)
}

/// Every requested colour attachment has usages `spec_usage_ok` allows.
pub open spec fn spec_usages_ok(specs: Seq<ColorSpec>) -> bool {
    forall|i: int| 0 <= i < specs.len() ==> spec_usage_ok(#[trigger] specs[i].usage)
}

/// Every live texture of `target` can be re-created at `extent`: the extent fits `limits`
/// and each live colour attachment has usages `attachment_usage_ok` allows.
pub open spec fn replaceable(
    target: RenderTarget,
    textures: Map<u64, TextureResource>,
    extent: Extent3d,
    limits: DeviceLimits,
) -> bool {
    &&& forall|i: int| 0 <= i < target.attachments().len() && textures.contains_key(
        #[trigger] target.attachments()[i].handle.id(),
    ) ==> extent_fits(extent, limits) && attachment_usage_ok(target.attachments()[i].usage)
    &&& (target.depth_target() matches Some(d) && textures.contains_key(d.id()) ==> extent_fits(extent, limits))
}

/// Every colour attachment of `target` has usages `attachment_usage_ok` allows.
pub open spec fn usages_set(target: RenderTarget) -> bool {
    forall|i: int| 0 <= i < target.attachments().len() ==> attachment_usage_ok(
        (#[trigger] target.attachments()[i]).usage,
    )
}

/// `res` holds a texture of `format`, `usage` and `extent`, and records them.
pub open spec fn holds_texture(
    res: TextureResource,
    format: wgpu::TextureFormat,
    usage: wgpu::TextureUsages,
    extent: Extent3d,
) -> bool {
    &&& res.format == format
    &&& res.usage == usage
    &&& res.size == extent
    &&& texture_format(res.texture) == format
    &&& texture_usages(res.texture) == usage
    &&& texture_extent(res.texture) == extent
}

/// `res` holds a depth texture at `extent`: its format is `Depth32Float`, which is no
/// colour format (it has neither a component alignment nor a byte cost in a colour
/// attachment), and its one usage is `RENDER_ATTACHMENT`.
pub open spec fn holds_depth(res: TextureResource, extent: Extent3d) -> bool {
    &&& holds_texture(res, res.format, res.usage, extent)
    &&& crate::gpu::is_depth32_float(res.format)
    &&& component_alignment(res.format) is None
    &&& pixel_byte_cost(res.format) is None
    &&& texture_usage_bits(res.usage) == 16
}

/// No two attachments of `target` share a texture.
pub open spec fn handles_distinct(target: RenderTarget) -> bool {
    &&& forall|i: int, j: int|
        0 <= i < target.attachments().len() && 0 <= j < target.attachments().len() && i != j
            ==> #[trigger] target.attachments()[i].handle.id() != #[trigger] target.attachments()[j].handle.id()
    &&& forall|i: int| 0 <= i < target.attachments().len() ==> (target.depth_target() matches Some(d)
        ==> #[trigger] target.attachments()[i].handle.id() != d.id())
}

/// Textures keyed by anything but `target`'s attachments are the same in `before` and
/// `after`.
pub open spec fn others_unchanged(
    before: Map<u64, TextureResource>,
    after: Map<u64, TextureResource>,
    target: RenderTarget,
) -> bool {
    forall|k: u64| !attaches(target, k) ==> {
        &&& (#[trigger] after.contains_key(k) <==> before.contains_key(k))
        &&& (before.contains_key(k) ==> after[k] == before[k])
    }
}

/// `target` was just created in `after` from `specs`: every attachment is a new texture of
/// the requested format at `extent`, with the requested role and usages plus
/// `RENDER_ATTACHMENT`; there is a depth texture at `extent` exactly when `with_depth`; and
/// nothing else changed.
pub open spec fn created_target(
    before: Map<u64, TextureResource>,
    after: Map<u64, TextureResource>,
    target: RenderTarget,
    specs: Seq<ColorSpec>,
    extent: Extent3d,
    with_depth: bool,
) -> bool {
    &&& target.attachments().len() == specs.len()
    &&& forall|i: int| 0 <= i < specs.len() ==> {
        let a = #[trigger] target.attachments()[i];
        &&& a.format == specs[i].format
        &&& a.role == specs[i].role
        &&& texture_usage_bits(a.usage) == texture_usage_bits(specs[i].usage) | 16
        &&& !before.contains_key(a.handle.id())
        &&& after.contains_key(a.handle.id())
        &&& holds_texture(after[a.handle.id()], a.format, a.usage, extent)
    }
    &&& (target.depth_target() is Some <==> with_depth)
    &&& (target.depth_target() matches Some(d) ==> {
        &&& !before.contains_key(d.id())
        &&& after.contains_key(d.id())
        &&& holds_depth(after[d.id()], extent)
    })
    &&& forall|k: u64| #[trigger] after.contains_key(k) ==> before.contains_key(k) || attaches(target, k)
    &&& forall|k: u64| #[trigger] before.contains_key(k) ==> after.contains_key(k) && after[k] == before[k]
    &&& handles_distinct(target)
    &&& target.target_extent() == extent
    &&& target.target_samples() == SAMPLE_COUNT
}

/// `target`'s textures were re-created in `after` at `extent`: each live attachment keeps
/// its handle, format and usages and now has the new size; dead ones stay dead; nothing
/// else changed.
pub open spec fn resized_target(
    before: Map<u64, TextureResource>,
    after: Map<u64, TextureResource>,
    target: RenderTarget,
    extent: Extent3d,
) -> bool {
    &&& others_unchanged(before, after, target)
    &&& forall|i: int| 0 <= i < target.attachments().len() ==> {
        let k = (#[trigger] target.attachments()[i]).handle.id();
        &&& (after.contains_key(k) <==> before.contains_key(k))
        &&& before.contains_key(k) ==> holds_texture(
            after[k],
            target.attachments()[i].format,
            target.attachments()[i].usage,
            extent,
        )
    }
    &&& (target.depth_target() matches Some(d) ==> {
        &&& (after.contains_key(d.id()) <==> before.contains_key(d.id()))
        &&& before.contains_key(d.id()) ==> holds_depth(after[d.id()], extent)
    })
}

impl RenderTarget {
    /// Creates a target of `extent`: one texture per requested colour attachment, in order,
    /// and a depth texture when `with_depth`. The device must support the attachments.
    pub fn new(rhi: &mut Rhi, label: &str, extent: Extent3d, attachments: &[ColorSpec], with_depth: bool) -> (r:
        RenderTarget)
        requires
            attachments_fit(old(rhi).caps(), spec_formats(attachments@)),
            old(rhi).textures().len() + attachments@.len() + 1 < u32::MAX,
            extent_fits(extent, old(rhi).limits()),
            spec_usages_ok(attachments@),
        ensures
            created_target(old(rhi).textures(), final(rhi).textures(), r, attachments@, extent, with_depth),
            final(rhi).textures().dom().finite(),
            final(rhi).textures().len() == old(rhi).textures().len() + attachments@.len() + (if with_depth {
                1int
            } else {
                0int
            }),
            final(rhi).buffers() == old(rhi).buffers(),
            final(rhi).caps() == old(rhi).caps(),
            final(rhi).frame_ring() == old(rhi).frame_ring(),
    {
        let _ = rhi.texture_count();
        let ghost before = rhi.textures();
        let mut colors: Vec<ColorAttachment> = Vec::new();
        let mut i: usize = 0;
        while i < attachments.len()
            invariant
                i <= attachments@.len(),
                attachments@.len() <= MAX_COLOR_ATTACHMENTS,
                before.dom().finite(),
                before.len() + attachments@.len() + 1 < u32::MAX,
                rhi.textures().dom().finite(),
                rhi.textures().len() == before.len() + i,
                rhi.buffers() == old(rhi).buffers(),
                rhi.caps() == old(rhi).caps(),
                rhi.frame_ring() == old(rhi).frame_ring(),
                before == old(rhi).textures(),
                extent_fits(extent, rhi.limits()),
                spec_usages_ok(attachments@),
                colors@.len() == i,
                forall|j: int| 0 <= j < i ==> {
                    let a = #[trigger] colors@[j];
                    &&& a.format == attachments@[j].format
                    &&& a.role == attachments@[j].role
                    &&& texture_usage_bits(a.usage) == texture_usage_bits(attachments@[j].usage) | 16
                    &&& !before.contains_key(a.handle.id())
                    &&& rhi.textures().contains_key(a.handle.id())
                    &&& holds_texture(rhi.textures()[a.handle.id()], a.format, a.usage, extent)
                },
                forall|j: int, l: int| 0 <= j < i && 0 <= l < i && j != l ==>
                    #[trigger] colors@[j].handle.id() != #[trigger] colors@[l].handle.id(),
                forall|k: u64| #[trigger] rhi.textures().contains_key(k) ==> before.contains_key(k)
                    || exists|j: int| 0 <= j < i && #[trigger] colors@[j].handle.id() == k,
                forall|k: u64| #[trigger] before.contains_key(k) ==> rhi.textures().contains_key(k)
                    && rhi.textures()[k] == before[k],
            decreases attachments@.len() - i,
        {
            let spec = &attachments[i];
            let usage = texture_usages_union(spec.usage, render_attachment_usage());
            proof {
                let given = texture_usage_bits(spec.usage);
                assert(given | 16u32 != 0) by (bit_vector);
                assert(spec_usage_ok(attachments@[i as int].usage));
                lemma_mips_of_2d(extent);
            }
            let desc = TextureDesc {
                label: color_label(label, i),
                size: extent,
                mip_level_count: 1,
                sample_count: SAMPLE_COUNT,
                dimension: TextureDim::D2,
                format: spec.format,
                usage,
            };
            let ghost mid = rhi.textures();
            let ghost prev = colors@;
            let handle = rhi.create_texture(&desc);
            colors.push(ColorAttachment { handle, format: spec.format, role: spec.role, usage });
            proof {
                assert(colors@ == prev.push(colors@[i as int]));
                assert forall|j: int| 0 <= j < i implies #[trigger] colors@[j].handle.id() != handle.id() by {
                    assert(mid.contains_key(colors@[j].handle.id()));
                }
                assert forall|k: u64| #[trigger] rhi.textures().contains_key(k) implies before.contains_key(k)
                    || exists|j: int| 0 <= j < i + 1 && #[trigger] colors@[j].handle.id() == k by {
                    if k != handle.id() {
                        assert(mid.contains_key(k));
                        if !before.contains_key(k) {
                            let j = choose|j: int| 0 <= j < i && #[trigger] prev[j].handle.id() == k;
                            assert(colors@[j] == prev[j]);
                            assert(colors@[j].handle.id() == k);
                        }
                    } else {
                        assert(colors@[i as int].handle.id() == k);
                    }
                }
            }
            i = i + 1;
        }
        let depth = if with_depth {
            let desc = TextureDesc {
                label: depth_label(label),
                size: extent,
                mip_level_count: 1,
                sample_count: SAMPLE_COUNT,
                dimension: TextureDim::D2,
                format: depth_format(),
                usage: render_attachment_usage(),
            };
            proof {
                assert(16u32 != 0 && 16u32 & !0x1003fu32 == 0 && 16u32 & 32u32 == 0 && 16u32 & 16u32 != 0)
                    by (bit_vector);
                lemma_mips_of_2d(extent);
            }
            let ghost mid = rhi.textures();
            let handle = rhi.create_texture(&desc);
            let _ = rhi.texture_count();
            proof {
                assert forall|j: int| 0 <= j < i implies #[trigger] colors@[j].handle.id() != handle.id() by {
                    assert(mid.contains_key(colors@[j].handle.id()));
                }
            }
            Some(handle)
        } else {
            None
        };
        let target = RenderTarget { colors, depth, extent, sample_count: SAMPLE_COUNT };
        proof {
            assert forall|k: u64| #[trigger] rhi.textures().contains_key(k) implies before.contains_key(k)
                || attaches(target, k) by {
                if !before.contains_key(k) && !(depth matches Some(d) && d.id() == k) {
                    let j = choose|j: int| 0 <= j < i && #[trigger] target.colors@[j].handle.id() == k;
                    assert(target.attachments()[j].handle.id() == k);
                }
            }
        }
        target
    }

    /// Creates a target as `new` does, or `None` when the device cannot render to the
    /// requested attachments (too many of them, a format that is not colour-renderable, or
    /// more bytes per sample than the device allows).
    pub fn try_new(rhi: &mut Rhi, label: &str, extent: Extent3d, attachments: &[ColorSpec], with_depth: bool) -> (r:
        Option<RenderTarget>)
        requires
            old(rhi).textures().len() + attachments@.len() + 1 < u32::MAX,
        ensures
            r is Some <==> {
                &&& attachments_fit(old(rhi).caps(), spec_formats(attachments@))
                &&& extent_fits(extent, old(rhi).limits())
                &&& spec_usages_ok(attachments@)
            },
            r matches Some(t) ==> created_target(
                old(rhi).textures(),
                final(rhi).textures(),
                t,
                attachments@,
                extent,
                with_depth,
            ),
            r is None ==> final(rhi).textures() == old(rhi).textures(),
            final(rhi).buffers() == old(rhi).buffers(),
            final(rhi).caps() == old(rhi).caps(),
            final(rhi).frame_ring() == old(rhi).frame_ring(),
    {
        let caps = rhi.capabilities();
        let max_color_attachments = caps.max_color_attachments;
        let max_bytes_per_sample = caps.max_color_attachment_bytes_per_sample;
        if attachments.len() > MAX_COLOR_ATTACHMENTS || attachments.len() as u64 > max_color_attachments as u64 {
            return None;
        }
        let mut formats: Vec<wgpu::TextureFormat> = Vec::new();
        let mut i: usize = 0;
        while i < attachments.len()
            invariant
                i <= attachments@.len(),
                formats@ == spec_formats(attachments@).subrange(0, i as int),
            decreases attachments@.len() - i,
        {
            formats.push(attachments[i].format);
            i = i + 1;
        }
        proof {
            assert(formats@ == spec_formats(attachments@));
        }
        match try_bytes_per_sample(formats.as_slice()) {
            Some(bytes) => {
                if bytes > max_bytes_per_sample {
                    return None;
                }
            },
            None => {
                return None;
            },
        }
        let limits = rhi.device_limits();
        if !fits_limits(extent, &limits) || !usages_ok(attachments) {
            return None;
        }
        Some(RenderTarget::new(rhi, label, extent, attachments, with_depth))
    }

    /// A target with one colour attachment of `color_format`, role `Color`, sampled by
    /// shaders, and a depth attachment.
    pub fn color_depth(rhi: &mut Rhi, label: &str, extent: Extent3d, color_format: wgpu::TextureFormat) -> (r:
        RenderTarget)
        requires
            attachments_fit(old(rhi).caps(), seq![color_format]),
            old(rhi).textures().len() + 2 < u32::MAX,
            extent_fits(extent, old(rhi).limits()),
        ensures
            r.attachments().len() == 1,
            r.attachments()[0].role == AttachmentRole::Color,
            r.attachments()[0].format == color_format,
            texture_usage_bits(r.attachments()[0].usage) == 4 | 16,
            exists|u: wgpu::TextureUsages| texture_usage_bits(u) == 4 && #[trigger] created_target(
                old(rhi).textures(),
                final(rhi).textures(),
                r,
                seq![ColorSpec { format: color_format, role: AttachmentRole::Color, usage: u }],
                extent,
                true,
            ),
            first_with_role(r.attachments(), AttachmentRole::Color) == Some(0int),
            final(rhi).textures().dom().finite(),
            final(rhi).textures().len() == old(rhi).textures().len() + 2,
            final(rhi).buffers() == old(rhi).buffers(),
            final(rhi).caps() == old(rhi).caps(),
            final(rhi).frame_ring() == old(rhi).frame_ring(),
    {
        let usage = texture_binding_usage();
        let specs = [ColorSpec { format: color_format, role: AttachmentRole::Color, usage }];
        proof {
            assert(spec_formats(specs@) == seq![color_format]);
            assert((4u32 | 16u32) & !0x1003fu32 == 0 && (4u32 | 16u32) & 32u32 == 0) by (bit_vector);
            assert(spec_usage_ok(specs@[0].usage));
        }
        let target = RenderTarget::new(rhi, label, extent, &specs, true);
        proof {
            assert(specs@ == seq![ColorSpec { format: color_format, role: AttachmentRole::Color, usage }]);
            assert(target.attachments().drop_last().len() == 0);
            assert(first_with_role(target.attachments().drop_last(), AttachmentRole::Color) is None);
        }
        target
    }
}


impl RenderTarget {
    /// Re-creates every attachment texture at `extent`, keeping handles, formats and
    /// usages, and records the new extent. Attachments whose textures are gone are skipped.
    /// Textures the target does not attach are untouched, and no texture comes or goes; when
    /// no two attachments share a texture, each one ends up as `resized_target` describes.
    pub fn replace(&mut self, rhi: &mut Rhi, label: &str, extent: Extent3d)
        requires
            replaceable(*old(self), old(rhi).textures(), extent, old(rhi).limits()),
        ensures
            final(self).attachments() == old(self).attachments(),
            final(self).depth_target() == old(self).depth_target(),
            final(self).target_samples() == old(self).target_samples(),
            final(self).target_extent() == extent,
            others_unchanged(old(rhi).textures(), final(rhi).textures(), *old(self)),
            forall|k: u64| #[trigger] final(rhi).textures().contains_key(k) <==> old(rhi).textures().contains_key(k),
            handles_distinct(*old(self)) ==> resized_target(old(rhi).textures(), final(rhi).textures(), *old(self), extent),
            final(rhi).buffers() == old(rhi).buffers(),
            final(rhi).caps() == old(rhi).caps(),
            final(rhi).frame_ring() == old(rhi).frame_ring(),
    {
        let ghost before = rhi.textures();
        let ghost target = *self;
        let count = self.colors.len();
        let mut i: usize = 0;
        while i < count
            invariant
                count == self.colors@.len(),
                i <= count,
                *self == target,
                before == old(rhi).textures(),
                replaceable(target, before, extent, rhi.limits()),
                rhi.buffers() == old(rhi).buffers(),
                rhi.caps() == old(rhi).caps(),
                rhi.frame_ring() == old(rhi).frame_ring(),
                forall|k: u64| #[trigger] rhi.textures().contains_key(k) <==> before.contains_key(k),
                forall|k: u64| !attaches(target, k) ==> (#[trigger] before.contains_key(k) ==> rhi.textures()[k]
                    == before[k]),
                handles_distinct(target) ==> (target.depth_target() matches Some(d) ==> (before.contains_key(d.id())
                    ==> rhi.textures()[d.id()] == before[d.id()])),
                handles_distinct(target) ==> forall|j: int| 0 <= j < count ==> {
                    let k = (#[trigger] target.attachments()[j]).handle.id();
                    &&& (j < i && before.contains_key(k)) ==> holds_texture(
                        rhi.textures()[k],
                        target.attachments()[j].format,
                        target.attachments()[j].usage,
                        extent,
                    )
                    &&& (j >= i && before.contains_key(k)) ==> rhi.textures()[k] == before[k]
                },
            decreases count - i,
        {
            let color = self.colors[i];
            let desc = TextureDesc {
                label: color_label(label, i),
                size: extent,
                mip_level_count: 1,
                sample_count: SAMPLE_COUNT,
                dimension: TextureDim::D2,
                format: color.format,
                usage: color.usage,
            };
            let ghost mid = rhi.textures();
            proof {
                assert(target.attachments()[i as int] == color);
                if rhi.textures().contains_key(color.handle.id()) {
                    assert(before.contains_key(target.attachments()[i as int].handle.id()));
                    lemma_mips_of_2d(extent);
                }
            }
            let _ = rhi.replace_texture(color.handle, &desc);
            proof {
                assert(target.attachments()[i as int] == color);
                assert forall|k: u64| !attaches(target, k) && #[trigger] before.contains_key(k) implies rhi.textures()[k]
                    == before[k] by {
                    assert(k != color.handle.id());
                }
                if handles_distinct(target) {
                    assert forall|j: int| 0 <= j < count implies {
                        let k = (#[trigger] target.attachments()[j]).handle.id();
                        &&& (j < i + 1 && before.contains_key(k)) ==> holds_texture(
                            rhi.textures()[k],
                            target.attachments()[j].format,
                            target.attachments()[j].usage,
                            extent,
                        )
                        &&& (j >= i + 1 && before.contains_key(k)) ==> rhi.textures()[k] == before[k]
                    } by {
                        if j != i {
                            assert(target.attachments()[j].handle.id() != color.handle.id());
                        }
                    }
                }
            }
            i = i + 1;
        }
        match self.depth {
            Some(depth) => {
                let desc = TextureDesc {
                    label: depth_label(label),
                    size: extent,
                    mip_level_count: 1,
                    sample_count: SAMPLE_COUNT,
                    dimension: TextureDim::D2,
                    format: depth_format(),
                    usage: render_attachment_usage(),
                };
                proof {
                    if rhi.textures().contains_key(depth.id()) {
                        assert(16u32 != 0 && 16u32 & !0x1003fu32 == 0 && 16u32 & 32u32 == 0 && 16u32 & 16u32 != 0)
                            by (bit_vector);
                        lemma_mips_of_2d(extent);
                    }
                }
                let _ = rhi.replace_texture(depth, &desc);
                proof {
                    if handles_distinct(target) {
                        assert forall|j: int| 0 <= j < count implies (#[trigger] target.attachments()[j]).handle.id()
                            != depth.id() by {}
                    }
                }
            },
            None => {},
        }
        self.extent = extent;
    }
}

impl RenderTarget {
    /// Whether every live texture of the target can be re-created at `extent`.
    pub fn replaceable_at(&self, rhi: &Rhi, extent: Extent3d) -> (r: bool)
        ensures
            r == replaceable(*self, rhi.textures(), extent, rhi.limits()),
    {
        let limits = rhi.device_limits();
        let fits = extent.width > 0 && extent.height > 0 && extent.depth_or_array_layers == 1
            && extent.width <= limits.max_texture_dimension_2d && extent.height <= limits.max_texture_dimension_2d
            && 1 <= limits.max_texture_array_layers;
        let count = self.colors.len();
        let mut i: usize = 0;
        while i < count
            invariant
                count == self.attachments().len(),
                i <= count,
                fits == extent_fits(extent, rhi.limits()),
                forall|j: int| 0 <= j < i && rhi.textures().contains_key(
                    #[trigger] self.attachments()[j].handle.id(),
                ) ==> fits && attachment_usage_ok(self.attachments()[j].usage),
            decreases count - i,
        {
            let color = self.colors[i];
            if rhi.texture_view(color.handle).is_some() {
                let bits = texture_usages_bits(&color.usage);
                let usable = bits != 0 && bits & !0x1003fu32 == 0 && (bits & 32 == 0 || bits == 48);
                if !fits || !usable {
                    proof {
                        assert(self.attachments()[i as int] == color);
                    }
                    return false;
                }
            }
            i = i + 1;
        }
        match self.depth {
            Some(d) => fits || rhi.texture_view(d).is_none(),
            None => true,
        }
    }

    /// Re-creates the target's textures at `extent` as `replace` does, when every live one
    /// can be; otherwise changes nothing. Returns whether it replaced them.
    pub fn try_replace(&mut self, rhi: &mut Rhi, label: &str, extent: Extent3d) -> (r: bool)
        ensures
            r == replaceable(*old(self), old(rhi).textures(), extent, old(rhi).limits()),
            r ==> final(self).target_extent() == extent,
            r ==> others_unchanged(old(rhi).textures(), final(rhi).textures(), *old(self)),
            r ==> forall|k: u64| #[trigger] final(rhi).textures().contains_key(k) <==> old(rhi).textures().contains_key(k),
            r && handles_distinct(*old(self)) ==> resized_target(old(rhi).textures(), final(rhi).textures(), *old(self), extent),
            !r ==> final(self).target_extent() == old(self).target_extent(),
            !r ==> final(rhi).textures() == old(rhi).textures(),
            final(self).attachments() == old(self).attachments(),
            final(self).depth_target() == old(self).depth_target(),
            final(self).target_samples() == old(self).target_samples(),
            final(rhi).buffers() == old(rhi).buffers(),
            final(rhi).caps() == old(rhi).caps(),
            final(rhi).frame_ring() == old(rhi).frame_ring(),
    {
        if !self.replaceable_at(rhi, extent) {
            return false;
        }
        self.replace(rhi, label, extent);
        true
    }
}

// --- a ring of targets ------------------------------------------------------------------------------

/// `key` is attached by some target of `slots`.
pub open spec fn ring_attaches(slots: Seq<RenderTarget>, key: u64) -> bool {
    exists|i: int| 0 <= i < slots.len() && attaches(#[trigger] slots[i], key)
}

/// No texture is attached by two targets of `slots`.
pub open spec fn slots_disjoint(slots: Seq<RenderTarget>) -> bool {
    forall|i: int, j: int, k: u64|
        0 <= i < slots.len() && 0 <= j < slots.len() && i != j && #[trigger] attaches(slots[i], k)
            ==> !#[trigger] attaches(slots[j], k)
}

/// Every live texture of every target of `slots` has extent `extent`.
pub open spec fn slots_sized(textures: Map<u64, TextureResource>, slots: Seq<RenderTarget>, extent: Extent3d) -> bool {
    forall|i: int, k: u64|
        0 <= i < slots.len() && #[trigger] attaches(slots[i], k) && textures.contains_key(k)
            ==> #[trigger] textures[k].size == extent
}

/// Targets with the same attachments and depth attach the same textures.
proof fn lemma_same_handles(a: RenderTarget, b: RenderTarget)
    requires
        a.attachments() == b.attachments(),
        a.depth_target() == b.depth_target(),
    ensures
        forall|k: u64| #[trigger] attaches(a, k) == attaches(b, k),
        handles_distinct(a) == handles_distinct(b),
{
}

/// Whether a target of `size` should be resized to `desired`: the sizes differ and the
/// desired one has no zero side.
pub fn resize_wanted(size: (u32, u32), desired: (u32, u32)) -> (r: bool)
    ensures
        r == (desired != size && desired.0 != 0 && desired.1 != 0),
{
    !((desired.0 == size.0 && desired.1 == size.1) || desired.0 == 0 || desired.1 == 0)
}

/// One render target per frame slot, all of one size, resized together when the size the
/// consumer wants has changed.
pub struct RenderTargetRing {
    slots: Vec<RenderTarget>,
    size: (u32, u32),
    desired: (u32, u32),
}

impl RenderTargetRing {
    #[verifier::type_invariant]
    spec fn well_formed(self) -> bool {
        &&& forall|i: int| 0 <= i < self.slots@.len() ==> {
            &&& handles_distinct(#[trigger] self.slots@[i])
            &&& first_with_role(self.slots@[i].attachments(), AttachmentRole::Color) is Some
            &&& self.slots@[i].target_extent() == spec_extent_of(self.size)
            &&& usages_set(self.slots@[i])
        }
        &&& slots_disjoint(self.slots@)
    }

    /// The targets, one per slot.
    pub closed spec fn targets(&self) -> Seq<RenderTarget> {
        self.slots@
    }

    /// The size every target has.
    pub closed spec fn current_size(&self) -> (u32, u32) {
        self.size
    }

    /// The size the consumer wants.
    pub closed spec fn desired_size(&self) -> (u32, u32) {
        self.desired
    }

    /// A resize is pending: the desired size differs from the current one and has no zero
    /// side.
    pub open spec fn resize_pending(&self) -> bool {
        self.desired_size() != self.current_size() && self.desired_size().0 != 0 && self.desired_size().1 != 0
    }

    /// Creates `slot_count` targets of `size`, each with one shader-sampled colour
    /// attachment of `color_format` and a depth attachment.
    pub fn new(rhi: &mut Rhi, label: &str, color_format: wgpu::TextureFormat, size: (u32, u32), slot_count: usize) -> (r:
        Self)
        requires
            attachments_fit(old(rhi).caps(), seq![color_format]),
            old(rhi).textures().len() + 2 * slot_count < u32::MAX,
            slot_count > 0 ==> extent_fits(spec_extent_of(size), old(rhi).limits()),
        ensures
            r.targets().len() == slot_count,
            r.current_size() == size,
            r.desired_size() == size,
            forall|i: int| 0 <= i < slot_count ==> {
                &&& (#[trigger] r.targets()[i]).attachments().len() == 1
                &&& r.targets()[i].attachments()[0].role == AttachmentRole::Color
                &&& r.targets()[i].attachments()[0].format == color_format
                &&& texture_usage_bits(r.targets()[i].attachments()[0].usage) == 4 | 16
                &&& r.targets()[i].depth_target() is Some
                &&& handles_distinct(r.targets()[i])
                &&& r.targets()[i].target_extent() == spec_extent_of(size)
            },
            slots_disjoint(r.targets()),
            forall|k: u64| ring_attaches(r.targets(), k) ==> !old(rhi).textures().contains_key(k)
                && #[trigger] final(rhi).textures().contains_key(k),
            slots_sized(final(rhi).textures(), r.targets(), spec_extent_of(size)),
            forall|k: u64| #[trigger] final(rhi).textures().contains_key(k) ==> old(rhi).textures().contains_key(k)
                || ring_attaches(r.targets(), k),
            forall|k: u64| #[trigger] old(rhi).textures().contains_key(k) ==> final(rhi).textures().contains_key(k)
                && final(rhi).textures()[k] == old(rhi).textures()[k],
            final(rhi).buffers() == old(rhi).buffers(),
            final(rhi).caps() == old(rhi).caps(),
            final(rhi).frame_ring() == old(rhi).frame_ring(),
    {
        let extent = extent_of(size);
        let _ = rhi.texture_count();
        let ghost before = rhi.textures();
        let mut slots: Vec<RenderTarget> = Vec::new();
        let mut i: usize = 0;
        while i < slot_count
            invariant
                i <= slot_count,
                slots@.len() == i,
                before == old(rhi).textures(),
                before.dom().finite(),
                rhi.textures().dom().finite(),
                rhi.textures().len() == before.len() + 2 * i,
                before.len() + 2 * slot_count < u32::MAX,
                attachments_fit(rhi.caps(), seq![color_format]),
                rhi.buffers() == old(rhi).buffers(),
                rhi.caps() == old(rhi).caps(),
                rhi.frame_ring() == old(rhi).frame_ring(),
                forall|j: int| 0 <= j < i ==> {
                    &&& (#[trigger] slots@[j]).attachments().len() == 1
                    &&& slots@[j].attachments()[0].role == AttachmentRole::Color
                    &&& slots@[j].attachments()[0].format == color_format
                    &&& slots@[j].depth_target() is Some
                    &&& handles_distinct(slots@[j])
                    &&& first_with_role(slots@[j].attachments(), AttachmentRole::Color) is Some
                    &&& slots@[j].target_extent() == extent
                    &&& usages_set(slots@[j])
                    &&& texture_usage_bits(slots@[j].attachments()[0].usage) == 4 | 16
                },
                slot_count > 0 ==> extent_fits(extent, rhi.limits()),
                slots_disjoint(slots@),
                forall|k: u64| ring_attaches(slots@, k) ==> !before.contains_key(k)
                    && #[trigger] rhi.textures().contains_key(k),
                slots_sized(rhi.textures(), slots@, extent),
                forall|k: u64| #[trigger] rhi.textures().contains_key(k) ==> before.contains_key(k)
                    || ring_attaches(slots@, k),
                forall|k: u64| #[trigger] before.contains_key(k) ==> rhi.textures().contains_key(k)
                    && rhi.textures()[k] == before[k],
            decreases slot_count - i,
        {
            let slot_label = indexed_label(label, i);
            let ghost mid = rhi.textures();
            let ghost prev = slots@;
            let target = RenderTarget::color_depth(rhi, slot_label.as_str(), extent, color_format);
            let ghost u = choose|u: wgpu::TextureUsages| texture_usage_bits(u) == 4 && #[trigger] created_target(
                mid,
                rhi.textures(),
                target,
                seq![ColorSpec { format: color_format, role: AttachmentRole::Color, usage: u }],
                extent,
                true,
            );
            slots.push(target);
            proof {
                let bits = texture_usage_bits(target.attachments()[0].usage);
                assert(bits == 4u32 | 16u32 ==> bits != 0 && bits & !0x1003fu32 == 0 && bits & 32u32 == 0)
                    by (bit_vector);
                assert(attachment_usage_ok(target.attachments()[0].usage));
                assert(usages_set(target));
                assert(slots@ == prev.push(target));
                assert(slots@[i as int] == target);
                assert forall|j: int| 0 <= j < i implies #[trigger] slots@[j] == prev[j] by {}
                // the new target's textures are new
                assert forall|k: u64| attaches(target, k) implies !mid.contains_key(k) by {
                    if target.depth_target() matches Some(d) && d.id() == k {
                    } else {
                        let j = choose|j: int| 0 <= j < target.attachments().len() && #[trigger] target.attachments()[j].handle.id() == k;
                        assert(j == 0);
                    }
                }
                assert forall|a: int, b: int, k: u64|
                    0 <= a < slots@.len() && 0 <= b < slots@.len() && a != b && #[trigger] attaches(slots@[a], k)
                    implies !#[trigger] attaches(slots@[b], k) by {
                    if a == i {
                        assert(slots@[b] == prev[b]);
                        if attaches(prev[b], k) {
                            assert(ring_attaches(prev, k));
                        }
                    } else if b == i {
                        assert(slots@[a] == prev[a]);
                        assert(ring_attaches(prev, k));
                    } else {
                        assert(slots@[a] == prev[a]);
                        assert(slots@[b] == prev[b]);
                    }
                }
                assert forall|k: u64| ring_attaches(slots@, k) implies !before.contains_key(k)
                    && #[trigger] rhi.textures().contains_key(k) by {
                    let a = choose|a: int| 0 <= a < slots@.len() && attaches(#[trigger] slots@[a], k);
                    if a == i {
                        assert(attaches(target, k));
                        assert(!mid.contains_key(k));
                        if target.depth_target() matches Some(d) && d.id() == k {
                            assert(rhi.textures().contains_key(target.depth_target()->0.id()));
                        } else {
                            let j = choose|j: int| 0 <= j < target.attachments().len() && #[trigger] target.attachments()[j].handle.id() == k;
                            assert(j == 0);
                            let c = target.attachments()[0];
                            assert(rhi.textures().contains_key(c.handle.id()));
                        }
                    } else {
                        assert(slots@[a] == prev[a]);
                        assert(ring_attaches(prev, k));
                        assert(mid.contains_key(k));
                        assert(rhi.textures().contains_key(k));
                    }
                }
                assert forall|a: int, k: u64|
                    0 <= a < slots@.len() && #[trigger] attaches(slots@[a], k) && rhi.textures().contains_key(k)
                    implies #[trigger] rhi.textures()[k].size == extent by {
                    if a == i {
                        if target.depth_target() matches Some(d) && d.id() == k {
                        } else {
                            let j = choose|j: int| 0 <= j < target.attachments().len() && #[trigger] target.attachments()[j].handle.id() == k;
                            assert(j == 0);
                        }
                    } else {
                        assert(slots@[a] == prev[a]);
                        assert(ring_attaches(prev, k));
                    }
                }
                assert forall|k: u64| #[trigger] rhi.textures().contains_key(k) implies before.contains_key(k)
                    || ring_attaches(slots@, k) by {
                    if !mid.contains_key(k) {
                        assert(attaches(slots@[i as int], k));
                    } else if !before.contains_key(k) {
                        let a = choose|a: int| 0 <= a < prev.len() && attaches(#[trigger] prev[a], k);
                        assert(attaches(slots@[a], k));
                    }
                }
            }
            i = i + 1;
        }
        RenderTargetRing { slots, size, desired: size }
    }

    /// The target of slot `i`.
    pub fn slot(&self, i: usize) -> (r: &RenderTarget)
        requires
            i < self.targets().len(),
        ensures
            *r == self.targets()[i as int],
            first_with_role(r.attachments(), AttachmentRole::Color) is Some,
            handles_distinct(*r),
            r.target_extent() == spec_extent_of(self.current_size()),
    {
        proof {
            use_type_invariant(self);
        }
        &self.slots[i]
    }

    /// The number of slots.
    pub fn slot_count(&self) -> (r: usize)
        ensures
            r == self.targets().len(),
    {
        self.slots.len()
    }

    /// The handle of the presented image of slot `i`.
    pub fn presented_handle(&self, i: usize) -> (r: TextureHandle)
        requires
            i < self.targets().len(),
        ensures
            r == self.targets()[i as int].attachments()[first_with_role(
                self.targets()[i as int].attachments(),
                AttachmentRole::Color,
            )->0].handle,
    {
        self.slot(i).presented().handle
    }

    /// The size every target has.
    pub fn size(&self) -> (r: (u32, u32))
        ensures
            r == self.current_size(),
    {
        self.size
    }

    /// Records the size the consumer wants; the targets keep their size until
    /// `apply_resize`.
    pub fn set_desired(&mut self, size: (u32, u32))
        ensures
            final(self).desired_size() == size,
            final(self).current_size() == old(self).current_size(),
            final(self).targets() == old(self).targets(),
    {
        proof {
            use_type_invariant(&*self);
        }
        self.desired = size;
    }

    /// Resizes every target to the desired size, unless it is already that size or has a
    /// zero side. Returns whether it resized.
    pub fn apply_resize(&mut self, rhi: &mut Rhi, label: &str) -> (r: bool)
        requires
            old(self).resize_pending() ==> extent_fits(spec_extent_of(old(self).desired_size()), old(rhi).limits()),
        ensures
            r == old(self).resize_pending(),
            !final(self).resize_pending(),
            final(self).desired_size() == old(self).desired_size(),
            final(self).targets().len() == old(self).targets().len(),
            forall|i: int| 0 <= i < old(self).targets().len() ==> {
                &&& (#[trigger] final(self).targets()[i]).attachments() == old(self).targets()[i].attachments()
                &&& final(self).targets()[i].depth_target() == old(self).targets()[i].depth_target()
            },
            r ==> final(self).current_size() == old(self).desired_size(),
            r ==> slots_sized(final(rhi).textures(), final(self).targets(), spec_extent_of(final(self).current_size())),
            r ==> forall|k: u64| !ring_attaches(old(self).targets(), k) ==> {
                &&& (#[trigger] final(rhi).textures().contains_key(k) <==> old(rhi).textures().contains_key(k))
                &&& (old(rhi).textures().contains_key(k) ==> final(rhi).textures()[k] == old(rhi).textures()[k])
            },
            r ==> forall|k: u64| ring_attaches(old(self).targets(), k) ==> (#[trigger] final(rhi).textures().contains_key(k)
                <==> old(rhi).textures().contains_key(k)),
            !r ==> final(self).current_size() == old(self).current_size(),
            !r ==> final(self).targets() == old(self).targets(),
            !r ==> final(rhi).textures() == old(rhi).textures(),
            final(rhi).buffers() == old(rhi).buffers(),
            final(rhi).caps() == old(rhi).caps(),
            final(rhi).frame_ring() == old(rhi).frame_ring(),
    {
        proof {
            use_type_invariant(&*self);
        }
        if !resize_wanted(self.size, self.desired) {
            return false;
        }
        let desired = self.desired;
        let extent = extent_of(desired);
        let ghost before = rhi.textures();
        let ghost old_slots = self.slots@;
        let mut pending: Vec<RenderTarget> = Vec::new();
        std::mem::swap(&mut pending, &mut self.slots);
        let count = pending.len();
        let mut done: Vec<RenderTarget> = Vec::new();
        let mut i: usize = 0;
        while i < count
            invariant
                count == old_slots.len(),
                i <= count,
                done@.len() == i,
                pending@.len() == count - i,
                forall|j: int| 0 <= j < count - i ==> #[trigger] pending@[j] == old_slots[j + i],
                forall|j: int| 0 <= j < i ==> {
                    &&& (#[trigger] done@[j]).attachments() == old_slots[j].attachments()
                    &&& done@[j].depth_target() == old_slots[j].depth_target()
                    &&& done@[j].target_samples() == old_slots[j].target_samples()
                    &&& done@[j].target_extent() == extent
                },
                forall|j: int| 0 <= j < count ==> {
                    &&& handles_distinct(#[trigger] old_slots[j])
                    &&& first_with_role(old_slots[j].attachments(), AttachmentRole::Color) is Some
                    &&& usages_set(old_slots[j])
                },
                extent_fits(extent, rhi.limits()),
                slots_disjoint(old_slots),
                before == old(rhi).textures(),
                rhi.buffers() == old(rhi).buffers(),
                rhi.caps() == old(rhi).caps(),
                rhi.frame_ring() == old(rhi).frame_ring(),
                forall|k: u64| (#[trigger] rhi.textures().contains_key(k) <==> before.contains_key(k)),
                forall|k: u64| !ring_attaches(old_slots.subrange(0, i as int), k) && before.contains_key(k)
                    ==> #[trigger] rhi.textures()[k] == before[k],
                forall|j: int, k: u64| 0 <= j < i && #[trigger] attaches(old_slots[j], k) && before.contains_key(k)
                    ==> #[trigger] rhi.textures()[k].size == extent,
            decreases count - i,
        {
            let mut target = pending.remove(0);
            let slot_label = indexed_label(label, i);
            let ghost mid = rhi.textures();
            proof {
                assert(target == old_slots[i as int]);
                assert(usages_set(old_slots[i as int]));
            }
            target.replace(rhi, slot_label.as_str(), extent);
            done.push(target);
            proof {
                assert forall|j: int| 0 <= j < count - (i + 1) implies #[trigger] pending@[j] == old_slots[j + i + 1] by {}
                assert forall|k: u64| (#[trigger] rhi.textures().contains_key(k) <==> before.contains_key(k)) by {
                    if attaches(old_slots[i as int], k) {
                        if exists|j: int| 0 <= j < old_slots[i as int].attachments().len() && #[trigger] old_slots[i as int].attachments()[j].handle.id() == k {
                            let j = choose|j: int| 0 <= j < old_slots[i as int].attachments().len() && #[trigger] old_slots[i as int].attachments()[j].handle.id() == k;
                            assert(old_slots[i as int].attachments()[j].handle.id() == k);
                        }
                    }
                }
                assert forall|k: u64| !ring_attaches(old_slots.subrange(0, i + 1), k) && before.contains_key(k)
                    implies #[trigger] rhi.textures()[k] == before[k] by {
                    assert(old_slots.subrange(0, i + 1)[i as int] == old_slots[i as int]);
                    assert(!attaches(old_slots[i as int], k));
                    if ring_attaches(old_slots.subrange(0, i as int), k) {
                        let a = choose|a: int| 0 <= a < i && attaches(#[trigger] old_slots.subrange(0, i as int)[a], k);
                        assert(old_slots.subrange(0, i + 1)[a] == old_slots.subrange(0, i as int)[a]);
                    }
                    assert(rhi.textures().contains_key(k) == mid.contains_key(k));
                    assert(mid[k] == before[k]);
                }
                assert forall|j: int, k: u64| 0 <= j < i + 1 && #[trigger] attaches(old_slots[j], k) && before.contains_key(k)
                    implies #[trigger] rhi.textures()[k].size == extent by {
                    assert(mid.contains_key(k));
                    if j == i {
                        if old_slots[j].depth_target() matches Some(d) && d.id() == k {
                        } else {
                            let a = choose|a: int| 0 <= a < old_slots[j].attachments().len() && #[trigger] old_slots[j].attachments()[a].handle.id() == k;
                            assert(old_slots[j].attachments()[a].handle.id() == k);
                        }
                    } else {
                        assert(!attaches(old_slots[i as int], k));
                        assert(rhi.textures().contains_key(k) == mid.contains_key(k));
                        assert(mid[k].size == extent);
                    }
                }
            }
            i = i + 1;
        }
        proof {
            assert(old_slots.subrange(0, count as int) == old_slots);
            assert forall|j: int| 0 <= j < count implies {
                &&& forall|k: u64| #[trigger] attaches(done@[j], k) == attaches(old_slots[j], k)
                &&& handles_distinct(#[trigger] done@[j]) == handles_distinct(old_slots[j])
            } by {
                lemma_same_handles(done@[j], old_slots[j]);
            }
            assert forall|a: int, b: int, k: u64|
                0 <= a < done@.len() && 0 <= b < done@.len() && a != b && #[trigger] attaches(done@[a], k)
                implies !#[trigger] attaches(done@[b], k) by {
                assert(attaches(done@[a], k) == attaches(old_slots[a], k));
                assert(attaches(done@[b], k) == attaches(old_slots[b], k));
            }
            assert forall|j: int, k: u64|
                0 <= j < done@.len() && #[trigger] attaches(done@[j], k) && rhi.textures().contains_key(k)
                implies #[trigger] rhi.textures()[k].size == extent by {
                assert(attaches(done@[j], k) == attaches(old_slots[j], k));
            }
        }
        self.size = desired;
        self.slots = done;
        true
    }
}


/// A target is made only for attachments a render pass on the device can use: no more of
/// them than the device and the engine allow, each colour-renderable with a positive
/// alignment, and, packed in order as `bytes_per_sample` computes it, no more bytes per
/// sample than the device allows; nor does any leading run of them take more.
pub proof fn lemma_fitting_attachments(caps: crate::context::Capabilities, formats: Seq<wgpu::TextureFormat>)
    requires
        attachments_fit(caps, formats),
    ensures
        formats.len() <= caps.max_color_attachments,
        formats.len() <= MAX_COLOR_ATTACHMENTS,
        forall|i: int| 0 <= i < formats.len() ==> {
            &&& #[trigger] component_alignment(formats[i]) is Some
            &&& component_alignment(formats[i])->0 > 0
            &&& pixel_byte_cost(formats[i]) is Some
        },
        packed_bytes(format_layouts(formats)) <= caps.max_color_attachment_bytes_per_sample,
        forall|n: int| 0 <= n <= formats.len() ==> #[trigger] packed_bytes(format_layouts(formats).subrange(0, n))
            <= caps.max_color_attachment_bytes_per_sample,
{
    let layouts = format_layouts(formats);
    assert forall|i: int| 0 <= i < formats.len() implies {
        &&& #[trigger] component_alignment(formats[i]) is Some
        &&& component_alignment(formats[i])->0 > 0
        &&& pixel_byte_cost(formats[i]) is Some
    } by {
        assert(layouts[i].0 > 0);
    }
    assert forall|n: int| 0 <= n <= formats.len() implies #[trigger] packed_bytes(layouts.subrange(0, n))
        <= caps.max_color_attachment_bytes_per_sample by {
        lemma_packed_bytes_monotone(layouts, n);
    }
}

} // verus!
