//! The GPU objects the library carries, and the calls into wgpu that it makes.
//!
//! Every wgpu type below is opaque to the verifier: the library stores and
//! hands on such values but never looks inside them. What the library needs
//! to know about a wgpu call is stated on the small function that makes it.
use pollster::block_on;
use vstd::prelude::*;
use wgpu::{ErrorFilter, TextureDimension};

verus! {

#[verifier::external_type_specification]
#[verifier::external_body]
pub struct ExTextureFormat(wgpu::TextureFormat);

#[verifier::external_type_specification]
#[verifier::external_body]
pub struct ExTextureUsages(wgpu::TextureUsages);

#[verifier::external_type_specification]
#[verifier::external_body]
pub struct ExBufferUsages(wgpu::BufferUsages);

#[verifier::external_type_specification]
#[verifier::external_body]
pub struct ExTexture(wgpu::Texture);

#[verifier::external_type_specification]
#[verifier::external_body]
pub struct ExTextureView(wgpu::TextureView);

#[verifier::external_type_specification]
#[verifier::external_body]
pub struct ExBuffer(wgpu::Buffer);

#[verifier::external_type_specification]
#[verifier::external_body]
pub struct ExDevice(wgpu::Device);

#[verifier::external_type_specification]
#[verifier::external_body]
pub struct ExQueue(wgpu::Queue);

#[verifier::external_type_specification]
#[verifier::external_body]
pub struct ExBindGroup(wgpu::BindGroup);

#[verifier::external_type_specification]
#[verifier::external_body]
pub struct ExBindGroupLayout(wgpu::BindGroupLayout);

#[verifier::external_type_specification]
#[verifier::external_body]
pub struct ExCommandBuffer(wgpu::CommandBuffer);

#[verifier::external_type_specification]
#[verifier::external_body]
pub struct ExCommandEncoder(wgpu::CommandEncoder);

#[verifier::external_type_specification]
#[verifier::external_body]
pub struct ExInstance(wgpu::Instance);

#[verifier::external_type_specification]
#[verifier::external_body]
pub struct ExAdapter(wgpu::Adapter);

#[verifier::external_type_specification]
#[verifier::external_body]
pub struct ExFeatures(wgpu::Features);

#[verifier::external_type_specification]
#[verifier::external_body]
pub struct ExLimits(wgpu::Limits);


#[verifier::external_type_specification]
#[verifier::external_body]
pub struct ExCreateSurfaceError(wgpu::CreateSurfaceError);

#[verifier::external_type_specification]
#[verifier::external_body]
pub struct ExRequestAdapterError(wgpu::RequestAdapterError);

#[verifier::external_type_specification]
#[verifier::external_body]
pub struct ExRequestDeviceError(wgpu::RequestDeviceError);

/// A three-dimensional texture size, in texels.
#[derive(Clone, Copy, Debug, PartialEq, Eq, Structural)]
pub struct Extent3d {
    pub width: u32,
    pub height: u32,
    pub depth_or_array_layers: u32,
}

/// How many dimensions a texture has.
#[derive(Clone, Copy, Debug, PartialEq, Eq, Structural)]
pub enum TextureDim {
    D1,
    D2,
    D3,
}

/// Everything a texture is created from.
pub struct TextureDesc {
    pub label: String,
    pub size: Extent3d,
    pub mip_level_count: u32,
    pub sample_count: u32,
    pub dimension: TextureDim,
    pub format: wgpu::TextureFormat,
    pub usage: wgpu::TextureUsages,
}

/// The limits of a device that the library checks its requests against, as `Device::limits`
/// reports them.
#[derive(Clone, Copy, Debug, PartialEq, Eq, Structural)]
pub struct DeviceLimits {
    pub max_texture_dimension_1d: u32,
    pub max_texture_dimension_2d: u32,
    pub max_texture_dimension_3d: u32,
    pub max_texture_array_layers: u32,
    pub max_buffer_size: u64,
    pub max_uniform_buffer_binding_size: u64,
    pub max_color_attachments: u32,
    pub max_color_attachment_bytes_per_sample: u32,
}

/// What `Device::limits` reports for a device, in the fields the library checks. A device's
/// limits are fixed when it is created.
pub uninterp spec fn device_limit_numbers(device: wgpu::Device) -> DeviceLimits;

/// Calls `Device::limits` and keeps the fields the library checks.
#[verifier::external_body]
pub(crate) fn read_device_limits(device: &wgpu::Device) -> (r: DeviceLimits)
    ensures
        r == device_limit_numbers(*device),
{
    let limits = device.limits();
    DeviceLimits {
        max_texture_dimension_1d: limits.max_texture_dimension_1d,
        max_texture_dimension_2d: limits.max_texture_dimension_2d,
        max_texture_dimension_3d: limits.max_texture_dimension_3d,
        max_texture_array_layers: limits.max_texture_array_layers,
        max_buffer_size: limits.max_buffer_size,
        max_uniform_buffer_binding_size: limits.max_uniform_buffer_binding_size,
        max_color_attachments: limits.max_color_attachments,
        max_color_attachment_bytes_per_sample: limits.max_color_attachment_bytes_per_sample,
    }
}

/// Calls `Device::limits`, the full set of limits. Nothing is stated of it beyond what
/// `read_device_limits` reads.
#[verifier::external_body]
pub(crate) fn device_limits(device: &wgpu::Device) -> (r: wgpu::Limits) {
    device.limits()
}

/// Calls `Device::features`, the features the device was created with. Nothing is stated of
/// the value.
#[verifier::external_body]
pub(crate) fn device_features(device: &wgpu::Device) -> (r: wgpu::Features) {
    device.features()
}

/// Everything an uninitialised buffer is created from.
pub struct BufferDesc {
    pub label: String,
    pub size: u64,
    pub usage: wgpu::BufferUsages,
    pub mapped_at_creation: bool,
}

// --- texture formats ---------------------------------------------------------------------------

/// What `TextureFormat::target_component_alignment` returns for a format.
pub uninterp spec fn component_alignment(format: wgpu::TextureFormat) -> Option<u32>;

/// What `TextureFormat::target_pixel_byte_cost` returns for a format.
pub uninterp spec fn pixel_byte_cost(format: wgpu::TextureFormat) -> Option<u32>;

/// Calls `TextureFormat::target_component_alignment`: the alignment, in bytes, of the
/// format's components within a sample of a render pass, or `None` for a format that is
/// not colour-renderable. The table is wgpu's; the result is named, not written out.
#[verifier::external_body]
pub(crate) fn target_component_alignment(format: wgpu::TextureFormat) -> (r: Option<u32>)
    ensures
        r == component_alignment(format),
{
    format.target_component_alignment()
}

/// Calls `TextureFormat::target_pixel_byte_cost`: the bytes a sample of the format takes
/// in a render pass, or `None` for a format that is not colour-renderable. The table is
/// wgpu's; the result is named, not written out.
#[verifier::external_body]
pub(crate) fn target_pixel_byte_cost(format: wgpu::TextureFormat) -> (r: Option<u32>)
    ensures
        r == pixel_byte_cost(format),
{
    format.target_pixel_byte_cost()
}

/// `format` is `TextureFormat::Depth32Float`.
pub uninterp spec fn is_depth32_float(format: wgpu::TextureFormat) -> bool;

/// `TextureFormat::Depth32Float`, the one depth format the engine renders with. The
/// verifier cannot see inside a format, so the result is named `is_depth32_float`; beside
/// that is what wgpu's tables give for it: it is no colour format, so it has neither a
/// component alignment nor a pixel byte cost in a colour attachment.
#[verifier::external_body]
pub(crate) fn depth32_float() -> (r: wgpu::TextureFormat)
    ensures
        is_depth32_float(r),
        component_alignment(r) is None,
        pixel_byte_cost(r) is None,
{
    wgpu::TextureFormat::Depth32Float
}


// --- texture usages ----------------------------------------------------------------------------

/// The raw bits of a set of texture usages (`TextureUsages::bits`).
pub uninterp spec fn texture_usage_bits(usage: wgpu::TextureUsages) -> u32;

/// Calls `TextureUsages::bits`: the raw bits of a set of texture usages.
#[verifier::external_body]
pub(crate) fn texture_usages_bits(usage: &wgpu::TextureUsages) -> (r: u32)
    ensures
        r == texture_usage_bits(*usage),
{
    usage.bits()
}

/// `TextureUsages::RENDER_ATTACHMENT`, the flag `1 << 4`.
#[verifier::external_body]
pub(crate) fn render_attachment_usage() -> (r: wgpu::TextureUsages)
    ensures
        texture_usage_bits(r) == 16,
{
    wgpu::TextureUsages::RENDER_ATTACHMENT
}

/// `TextureUsages::TEXTURE_BINDING`, the flag `1 << 2`.
#[verifier::external_body]
pub(crate) fn texture_binding_usage() -> (r: wgpu::TextureUsages)
    ensures
        texture_usage_bits(r) == 4,
{
    wgpu::TextureUsages::TEXTURE_BINDING
}

/// The bitflags union `a | b` of two sets of texture usages: its bits are the bitwise
/// or of theirs.
#[verifier::external_body]
pub(crate) fn texture_usages_union(a: wgpu::TextureUsages, b: wgpu::TextureUsages) -> (r:
    wgpu::TextureUsages)
    ensures
        texture_usage_bits(r) == texture_usage_bits(a) | texture_usage_bits(b),
{
    a | b
}

// --- device calls ------------------------------------------------------------------------------

/// A sample count wgpu can accept for some texture: a power of two no greater than 32.
pub open spec fn sample_count_shape(count: u32) -> bool {
    count == 1 || count == 2 || count == 4 || count == 8 || count == 16 || count == 32
}

/// An extent with no side of zero texels.
pub open spec fn extent_ok(extent: Extent3d) -> bool {
    &&& extent.width > 0
    &&& extent.height > 0
    &&& extent.depth_or_array_layers > 0
}

/// The number of binary digits of `n` (`32 - n.leading_zeros()` for a `u32`).
pub open spec fn bit_len(n: nat) -> nat
    decreases n,
{
    if n == 0 {
        0
    } else {
        1 + bit_len(n / 2)
    }
}

/// The most mip levels a texture of `size` may have (`Extent3d::max_mips`, capped at wgpu's
/// sixteen levels).
pub open spec fn max_mip_levels(dim: TextureDim, size: Extent3d) -> nat {
    let full = match dim {
        TextureDim::D1 => 1,
        TextureDim::D2 => bit_len(
            if size.width >= size.height {
                size.width as nat
            } else {
                size.height as nat
            },
        ),
        TextureDim::D3 => bit_len(
            if size.width >= size.height && size.width >= size.depth_or_array_layers {
                size.width as nat
            } else if size.height >= size.depth_or_array_layers {
                size.height as nat
            } else {
                size.depth_or_array_layers as nat
            },
        ),
    };
    if full <= 16 {
        full
    } else {
        16
    }
}

/// Every texture usage flag wgpu defines: `COPY_SRC` to `TRANSIENT_ATTACHMENT`
/// (`1 << 0` to `1 << 5`) and `STORAGE_ATOMIC` (`1 << 16`).
pub open spec fn known_texture_usages() -> u32 {
    0x1003f
}

/// The size fits the device's limits for a texture of this dimension, and the sample count
/// is one the dimension allows.
pub open spec fn size_within(dim: TextureDim, size: Extent3d, sample_count: u32, limits: DeviceLimits) -> bool {
    match dim {
        TextureDim::D1 => {
            &&& size.width <= limits.max_texture_dimension_1d
            &&& size.height == 1
            &&& size.depth_or_array_layers == 1
            &&& sample_count == 1
        },
        TextureDim::D2 => {
            &&& size.width <= limits.max_texture_dimension_2d
            &&& size.height <= limits.max_texture_dimension_2d
            &&& size.depth_or_array_layers <= limits.max_texture_array_layers
            &&& sample_count_shape(sample_count)
        },
        TextureDim::D3 => {
            &&& size.width <= limits.max_texture_dimension_3d
            &&& size.height <= limits.max_texture_dimension_3d
            &&& size.depth_or_array_layers <= limits.max_texture_dimension_3d
            &&& sample_count == 1
        },
    }
}

/// The rules of texture usages that hold whatever the format: at least one usage and no
/// unknown flag; a transient attachment is a render attachment and nothing else, of one
/// mip level and one layer, and two-dimensional; a one-dimensional texture is no render
/// attachment; a multisampled texture is a two-dimensional render attachment of one mip
/// level and one layer that is not bound as storage.
pub open spec fn usage_rules(desc: TextureDesc) -> bool {
    let bits = texture_usage_bits(desc.usage);
    &&& bits != 0
    &&& bits & !known_texture_usages() == 0
    &&& (bits & 32 != 0 ==> bits == 48 && desc.mip_level_count == 1 && desc.size.depth_or_array_layers == 1
        && desc.dimension == TextureDim::D2)
    &&& (desc.dimension == TextureDim::D1 ==> bits & 16 == 0)
    &&& (desc.sample_count > 1 ==> bits & 16 != 0 && bits & 8 == 0 && desc.mip_level_count == 1
        && desc.size.depth_or_array_layers == 1)
}

/// What a device with `limits` requires of a texture descriptor, whatever its format: no
/// side of zero texels and none beyond the limits, between one mip level and the most the
/// size allows, a sample count the dimension allows, and usages that follow `usage_rules`.
pub open spec fn texture_desc_ok(desc: TextureDesc, limits: DeviceLimits) -> bool {
    &&& extent_ok(desc.size)
    &&& size_within(desc.dimension, desc.size, desc.sample_count, limits)
    &&& 1 <= desc.mip_level_count <= max_mip_levels(desc.dimension, desc.size)
    &&& usage_rules(desc)
}

/// The size a texture was created with (`Texture::size`).
pub uninterp spec fn texture_extent(texture: wgpu::Texture) -> Extent3d;

/// The format a texture was created with (`Texture::format`).
pub uninterp spec fn texture_format(texture: wgpu::Texture) -> wgpu::TextureFormat;

/// The usages a texture was created with (`Texture::usage`).
pub uninterp spec fn texture_usages(texture: wgpu::Texture) -> wgpu::TextureUsages;

/// The device a texture was created on.
pub uninterp spec fn texture_device(texture: wgpu::Texture) -> wgpu::Device;

/// Calls `Device::create_texture` with the descriptor `desc` (no extra view formats), inside
/// validation, out-of-memory and internal error scopes pushed on `device`, so that a
/// descriptor the device refuses is reported instead of reaching wgpu's default error
/// handler, which panics. The second part of the result is whether the three scopes came
/// back empty. wgpu keeps the descriptor beside the texture whatever the device made of
/// it, so the texture reports the descriptor's size, format and usages either way. Whether
/// the device accepts the texture rests on the adapter (the usages each format allows
/// there, the features enabled, the memory left) and is not stated; the descriptors
/// `texture_desc_ok` rules out are refused on every device and are excluded.
#[verifier::external_body]
pub(crate) fn device_create_texture(device: &wgpu::Device, desc: &TextureDesc) -> (r: (wgpu::Texture, bool))
    requires
        texture_desc_ok(*desc, device_limit_numbers(*device)),
    ensures
        texture_extent(r.0) == desc.size,
        texture_format(r.0) == desc.format,
        texture_usages(r.0) == desc.usage,
        texture_device(r.0) == *device,
{
    let validation = device.push_error_scope(ErrorFilter::Validation);
    let memory = device.push_error_scope(ErrorFilter::OutOfMemory);
    let internal = device.push_error_scope(ErrorFilter::Internal);
    let Extent3d { width, height, depth_or_array_layers } = desc.size;
    let size = wgpu::Extent3d { width, height, depth_or_array_layers };
    let dimension = match desc.dimension {
        TextureDim::D1 => TextureDimension::D1,
        TextureDim::D2 => TextureDimension::D2,
        TextureDim::D3 => TextureDimension::D3,
    };
    let texture = device.create_texture(&wgpu::TextureDescriptor { label: Some(&*desc.label), size,
        mip_level_count: desc.mip_level_count, sample_count: desc.sample_count, dimension, format: desc.format,
        usage: desc.usage, view_formats: &[] });
    (texture, block_on(internal.pop()).is_none() & block_on(memory.pop()).is_none() & block_on(validation.pop()).is_none())
}

/// Calls `Texture::create_view` with the default view descriptor, inside validation,
/// out-of-memory and internal error scopes pushed on `device`, the texture's device: a
/// texture the device refused has no view, and that is reported instead of panicking. The
/// second part of the result is whether the three scopes came back empty, which is not
/// stated. Nothing is stated of the view.
#[verifier::external_body]
pub(crate) fn texture_create_default_view(device: &wgpu::Device, texture: &wgpu::Texture) -> (r: (
    wgpu::TextureView,
    bool,
))
    requires
        texture_device(*texture) == *device,
{
    let validation = device.push_error_scope(ErrorFilter::Validation);
    let memory = device.push_error_scope(ErrorFilter::OutOfMemory);
    let internal = device.push_error_scope(ErrorFilter::Internal);
    let view = texture.create_view(&wgpu::TextureViewDescriptor::default());
    let accepted = block_on(internal.pop()).is_none() & block_on(memory.pop()).is_none() & block_on(validation.pop()).is_none();
    (view, accepted)
}


/// The raw bits of a set of buffer usages (`BufferUsages::bits`).
pub uninterp spec fn buffer_usage_bits(usage: wgpu::BufferUsages) -> u32;

/// The usages a buffer was created with (`Buffer::usage`).
pub uninterp spec fn buffer_usage(buffer: wgpu::Buffer) -> wgpu::BufferUsages;

/// `BufferUsages::COPY_DST`, the flag `1 << 3`: the queue may write the buffer.
pub open spec fn copy_dst_bit() -> u32 {
    8
}

/// The buffer usage flags wgpu defines without extra features: `MAP_READ` to
/// `QUERY_RESOLVE` (`1 << 0` to `1 << 9`).
pub open spec fn plain_buffer_usages() -> u32 {
    0x3ff
}

/// The rules of buffer usages that every device accepts, whatever its features and
/// downlevel capabilities: at least one usage and no other flag than
/// `plain_buffer_usages`; a buffer the CPU maps for writing may only be copied from
/// besides, one it maps for reading only copied to; an index buffer (`1 << 4`) is not also
/// a vertex, uniform, storage or indirect buffer (`1 << 5` to `1 << 8`), and no buffer is
/// an indirect one. Devices without the unrestricted-index-buffer and indirect-execution
/// capabilities refuse those two.
pub open spec fn buffer_usage_ok(bits: u32) -> bool {
    &&& bits != 0
    &&& bits & !plain_buffer_usages() == 0
    &&& (bits & 2 != 0 ==> bits & !(2u32 | 4u32) == 0)
    &&& (bits & 1 != 0 ==> bits & !(1u32 | 8u32) == 0)
    &&& (bits & 16 != 0 ==> bits & 0x1e0 == 0)
    &&& bits & 256 == 0
}

/// The buffer is not mapped and has not been since it was created: it was created
/// unmapped (or `create_buffer_init` unmapped it), and nothing has mapped it since. Only
/// a holder of the buffer can map it; the library maps none and hands none out.
pub uninterp spec fn left_unmapped(buffer: wgpu::Buffer) -> bool;

/// Calls `Device::create_buffer` inside validation, out-of-memory and internal error
/// scopes pushed on `device`, so that a buffer the device refuses is reported instead of
/// reaching wgpu's default error handler, which panics. The second part of the result is
/// whether the three scopes came back empty; with the descriptors excluded here (a size
/// beyond the device's `max_buffer_size`, usages that break `buffer_usage_ok`, a buffer
/// mapped at creation whose size is not a multiple of four) a refusal comes only from the
/// machine (memory, a lost device), and it is not stated. wgpu keeps the size and usages
/// beside the buffer, so the buffer reports them either way; one not mapped at creation is
/// unmapped.
#[verifier::external_body]
pub(crate) fn device_create_buffer(device: &wgpu::Device, desc: &BufferDesc) -> (r: (wgpu::Buffer, bool))
    requires
        buffer_usage_ok(buffer_usage_bits(desc.usage)),
        desc.mapped_at_creation ==> desc.size % 4 == 0,
        desc.size <= device_limit_numbers(*device).max_buffer_size,
    ensures
        buffer_len(r.0) == desc.size,
        buffer_usage(r.0) == desc.usage,
        buffer_device(r.0) == *device,
        !desc.mapped_at_creation ==> left_unmapped(r.0),
{
    let validation = device.push_error_scope(ErrorFilter::Validation);
    let memory = device.push_error_scope(ErrorFilter::OutOfMemory);
    let internal = device.push_error_scope(ErrorFilter::Internal);
    let buffer = device.create_buffer(&wgpu::BufferDescriptor { label: Some(desc.label.as_str()), size: desc.size,
        usage: desc.usage, mapped_at_creation: desc.mapped_at_creation });
    let accepted = block_on(internal.pop()).is_none() & block_on(memory.pop()).is_none() & block_on(validation.pop()).is_none();
    (buffer, accepted)
}

/// The size in bytes a buffer was created with (`Buffer::size`).
pub uninterp spec fn buffer_len(buffer: wgpu::Buffer) -> u64;

/// The device a buffer was created on.
pub uninterp spec fn buffer_device(buffer: wgpu::Buffer) -> wgpu::Device;

/// The size `DeviceExt::create_buffer_init` gives a buffer for `len` bytes of contents:
/// zero for no contents, else `len` rounded up to a multiple of `COPY_BUFFER_ALIGNMENT` (4).
pub open spec fn padded_init_len(len: nat) -> nat {
    if len == 0 {
        0
    } else if len % 4 == 0 {
        len
    } else {
        (len + 4 - len % 4) as nat
    }
}

/// Calls `DeviceExt::create_buffer_init`: a buffer holding `contents`, with the given
/// usages, whose size is `padded_init_len(contents.len())` as wgpu's source computes it;
/// wgpu maps it at creation, copies the contents and unmaps it. Mapping a buffer the device
/// refused panics whatever error scopes stand, so every descriptor some device refuses is
/// excluded, by the rules of `device_create_buffer`. Running out of memory is not stated.
#[verifier::external_body]
pub(crate) fn device_create_buffer_init(
    device: &wgpu::Device,
    label: &str,
    contents: &[u8],
    usage: wgpu::BufferUsages,
) -> (r: wgpu::Buffer)
    requires
        contents@.len() + 4 <= u64::MAX,
        buffer_usage_ok(buffer_usage_bits(usage)),
        padded_init_len(contents@.len()) <= device_limit_numbers(*device).max_buffer_size,
    ensures
        buffer_len(r) as nat == padded_init_len(contents@.len()),
        buffer_usage(r) == usage,
        buffer_device(r) == *device,
        left_unmapped(r),
{
    wgpu::util::DeviceExt::create_buffer_init(
        device,
        &wgpu::util::BufferInitDescriptor { label: Some(label), contents, usage },
    )
}

/// Calls `Buffer::size`: the size the buffer was created with.
#[verifier::external_body]
pub(crate) fn buffer_size(buffer: &wgpu::Buffer) -> (r: u64)
    ensures
        r == buffer_len(*buffer),
{
    buffer.size()
}

/// The device a queue was opened with.
pub uninterp spec fn queue_device(queue: wgpu::Queue) -> wgpu::Device;

/// Calls `Queue::write_buffer`, which stages `data` for the bytes of `buffer` starting at
/// `offset`, to land on the GPU at the next submission, inside validation, out-of-memory
/// and internal error scopes pushed on `device`, the device of the queue and of the buffer
/// (the queue reports its errors to its device). A write the device refuses (to a buffer
/// it refused to create, or when memory runs out) is reported instead of reaching wgpu's
/// default error handler, which panics; the second part of the result is whether the three
/// scopes came back empty, which is not stated. The writes wgpu refuses on every
/// device (past the end, off the 4-byte alignment, to a buffer without `COPY_DST` or a
/// mapped one) are excluded. The first part records what was staged: the buffer, the offset
/// and the bytes.
#[verifier::external_body]
pub(crate) fn queue_write_buffer(
    device: &wgpu::Device,
    queue: &wgpu::Queue,
    buffer: &wgpu::Buffer,
    offset: u64,
    data: &[u8],
) -> (r: (Ghost<(wgpu::Buffer, u64, Seq<u8>)>, bool))
    requires
        queue_device(*queue) == *device,
        buffer_device(*buffer) == *device,
        offset % 4 == 0,
        data@.len() % 4 == 0,
        offset + data@.len() <= buffer_len(*buffer),
        buffer_usage_bits(buffer_usage(*buffer)) & copy_dst_bit() != 0,
        left_unmapped(*buffer),
    ensures
        r.0@ == (*buffer, offset, data@),
{
    let validation = device.push_error_scope(ErrorFilter::Validation);
    let memory = device.push_error_scope(ErrorFilter::OutOfMemory);
    let internal = device.push_error_scope(ErrorFilter::Internal);
    queue.write_buffer(buffer, offset, data);
    let accepted = block_on(internal.pop()).is_none() & block_on(memory.pop()).is_none() & block_on(validation.pop()).is_none();
    (Ghost((*buffer, offset, data@)), accepted)
}

/// Calls `Device::create_command_encoder` with the given label. Nothing is stated of the
/// encoder.
#[verifier::external_body]
pub(crate) fn device_create_command_encoder(device: &wgpu::Device, label: &str) -> (r:
    wgpu::CommandEncoder) {
    device.create_command_encoder(&wgpu::CommandEncoderDescriptor { label: Some(label) })
}

/// Calls `Queue::submit` with the command buffers in order, inside validation,
/// out-of-memory and internal error scopes pushed on `device`, the queue's device (the
/// queue reports its errors to it). A submission the device refuses (one that uses a buffer
/// mapped at the time, a destroyed or refused resource, or a command buffer of another
/// device) is reported instead of reaching wgpu's default error handler, which panics; the
/// second part of the result is whether the three scopes came back empty. Which resources a command
/// buffer uses cannot be read back from wgpu, so when a refusal comes is not stated. The
/// first part records the command buffers handed over; the submission index is dropped.
#[verifier::external_body]
pub(crate) fn queue_submit(device: &wgpu::Device, queue: &wgpu::Queue, command_buffers: Vec<wgpu::CommandBuffer>) -> (r: (
    Ghost<Seq<wgpu::CommandBuffer>>,
    bool,
))
    requires
        queue_device(*queue) == *device,
    ensures
        r.0@ == command_buffers@,
{
    let submitted = Ghost(command_buffers@);
    let validation = device.push_error_scope(ErrorFilter::Validation);
    let memory = device.push_error_scope(ErrorFilter::OutOfMemory);
    let internal = device.push_error_scope(ErrorFilter::Internal);
    let _ = queue.submit(command_buffers);
    let accepted = block_on(internal.pop()).is_none() & block_on(memory.pop()).is_none() & block_on(validation.pop()).is_none();
    (submitted, accepted)
}

/// A bind group layout with one uniform buffer at binding 0, seen by the vertex and
/// fragment stages, with a minimum binding size. Only `device_create_uniform_layout`
/// makes one, so its fields describe the layout it holds.
pub struct UniformLayout {
    layout: wgpu::BindGroupLayout,
    min_size: u64,
    device: Ghost<wgpu::Device>,
}

impl UniformLayout {
    /// The minimum size in bytes of the buffer bound.
    pub closed spec fn min_binding_size(&self) -> u64 {
        self.min_size
    }

    /// The device the layout was created on.
    pub closed spec fn made_on(&self) -> wgpu::Device {
        self.device@
    }

    /// The layout.
    pub closed spec fn layout_value(&self) -> wgpu::BindGroupLayout {
        self.layout
    }

    /// The layout.
    pub fn layout(&self) -> (r: &wgpu::BindGroupLayout)
        ensures
            *r == self.layout_value(),
    {
        &self.layout
    }
}

/// Calls `Device::create_bind_group_layout` for one non-dynamic uniform buffer at binding
/// 0, visible to the vertex and fragment stages, of at least `min_size` bytes.
#[verifier::external_body]
pub(crate) fn device_create_uniform_layout(device: &wgpu::Device, label: &str, min_size: u64) -> (r: UniformLayout)
    requires
        min_size > 0,
    ensures
        r.min_binding_size() == min_size,
        r.made_on() == *device,
{
    let ty = wgpu::BindingType::Buffer {
        ty: wgpu::BufferBindingType::Uniform, has_dynamic_offset: false,
        min_binding_size: std::num::NonZeroU64::new(min_size),
    };
    let entry = wgpu::BindGroupLayoutEntry { binding: 0, visibility: wgpu::ShaderStages::VERTEX_FRAGMENT, ty, count: None };
    let layout = device.create_bind_group_layout(&wgpu::BindGroupLayoutDescriptor { label: Some(label), entries: &[entry] });
    UniformLayout { layout, min_size, device: Ghost(*device) }
}

/// Calls `Device::create_bind_group` for a bind group of `layout` whose binding 0 is the
/// whole of `buffer`. The device rejects a buffer that is smaller than the layout's minimum
/// binding size, larger than its `max_uniform_buffer_binding_size`, or without the
/// `UNIFORM` usage (`1 << 6`), or a layout or buffer made on another device (a panic under
/// the default error handler), so those are excluded. The call stands inside validation,
/// out-of-memory and internal error scopes pushed on `device`: a buffer the device refused
/// to create, or memory running out, is reported instead of panicking. The second part of
/// the result is whether the three scopes came back empty, which is not stated. Nothing is
/// stated of the bind group.
#[verifier::external_body]
pub(crate) fn device_create_buffer_bind_group(
    device: &wgpu::Device,
    label: &str,
    layout: &UniformLayout,
    buffer: &wgpu::Buffer,
) -> (r: (wgpu::BindGroup, bool))
    requires
        layout.made_on() == *device,
        buffer_device(*buffer) == *device,
        layout.min_binding_size() <= buffer_len(*buffer),
        buffer_len(*buffer) <= device_limit_numbers(*device).max_uniform_buffer_binding_size,
        buffer_usage_bits(buffer_usage(*buffer)) & 64 != 0,
{
    let validation = device.push_error_scope(ErrorFilter::Validation);
    let memory = device.push_error_scope(ErrorFilter::OutOfMemory);
    let internal = device.push_error_scope(ErrorFilter::Internal);
    let entries = [wgpu::BindGroupEntry { binding: 0, resource: buffer.as_entire_binding() }];
    let group = device.create_bind_group(&wgpu::BindGroupDescriptor { label: Some(label), layout: &layout.layout,
        entries: &entries });
    let accepted = block_on(internal.pop()).is_none() & block_on(memory.pop()).is_none() & block_on(validation.pop()).is_none();
    (group, accepted)
}

/// Calls `Device::poll` with `PollType::wait_indefinitely()`, blocking until the device
/// has finished its submitted work. The poll status is dropped.
#[verifier::external_body]
pub(crate) fn device_wait_idle(device: &wgpu::Device) {
    let _ = device.poll(wgpu::PollType::wait_indefinitely());
}

/// `Instance::clone`, a second handle to the same instance: `Instance` is a derived `Clone` over a
/// reference-counted pointer, so the clone is the same instance.
#[verifier::external_body]
pub(crate) fn instance_clone(instance: &wgpu::Instance) -> (r: wgpu::Instance)
    ensures
        r == *instance,
{
    instance.clone()
}

/// `Adapter::clone`, a second handle to the same adapter: `Adapter` is a derived `Clone` over a
/// reference-counted pointer, so the clone is the same adapter.
#[verifier::external_body]
pub(crate) fn adapter_clone(adapter: &wgpu::Adapter) -> (r: wgpu::Adapter)
    ensures
        r == *adapter,
{
    adapter.clone()
}

/// `Device::clone`, a second handle to the same device: `Device` is a derived `Clone` over a
/// reference-counted pointer, so the clone is the same device.
#[verifier::external_body]
pub(crate) fn device_clone(device: &wgpu::Device) -> (r: wgpu::Device)
    ensures
        r == *device,
{
    device.clone()
}

/// `Queue::clone`, a second handle to the same queue: `Queue` is a derived `Clone` over a
/// reference-counted pointer, so the clone is the same queue.
#[verifier::external_body]
pub(crate) fn queue_clone(queue: &wgpu::Queue) -> (r: wgpu::Queue)
    ensures
        r == *queue,
{
    queue.clone()
}

/// Calls `Adapter::request_device` with the given label, required features and required
/// limits and performance memory hints, and blocks on the result. On success the queue is
/// the device's own: wgpu opens the two together. Whether the adapter grants the request
/// rests on the adapter and is not stated.
#[verifier::external_body]
pub(crate) fn adapter_request_device(
    adapter: &wgpu::Adapter,
    label: &str,
    required_features: wgpu::Features,
    required_limits: wgpu::Limits,
) -> (r: Result<(wgpu::Device, wgpu::Queue), wgpu::RequestDeviceError>)
    ensures
        r matches Ok((device, queue)) ==> queue_device(queue) == device,
{
    block_on(adapter.request_device(&wgpu::DeviceDescriptor {
        label: Some(label),
        required_features,
        required_limits,
        memory_hints: wgpu::MemoryHints::Performance,
        ..Default::default()
    }))
}

/// `BufferUsages::UNIFORM | BufferUsages::COPY_DST`, the flags `1 << 6` and `1 << 3`: a
/// uniform buffer the queue writes.
#[verifier::external_body]
pub(crate) fn uniform_copy_dst_usage() -> (r: wgpu::BufferUsages)
    ensures
        buffer_usage_bits(r) == 64 | 8,
{
    wgpu::BufferUsages::UNIFORM | wgpu::BufferUsages::COPY_DST
}

} // verus!
