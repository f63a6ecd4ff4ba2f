//! The render hardware interface: the one owner of the device, the queue and every live
//! resource. Everything above it holds handles.
use vstd::prelude::*;
use crate::context::{Capabilities, Context};
use crate::frame::{FrameContext, FrameSlot, FramesInFlight};
use crate::gpu::{
    buffer_device, buffer_len, buffer_usage_bits, copy_dst_bit, device_create_command_encoder, padded_init_len, queue_submit,
    queue_write_buffer, texture_desc_ok, BufferDesc, TextureDesc, device_create_uniform_layout, DeviceLimits,
    UniformLayout, buffer_usage_ok,
};
use crate::resource::{made_from, BufferHandle, BufferResource, ResourceRegistry, TextureHandle, TextureResource};
use crate::target::{RenderTarget, ResolvedTarget};

verus! {

/// The device, the queue, the live resources and the frames in flight.
pub struct Rhi {
    context: Context,
    registry: ResourceRegistry,
    frames: FramesInFlight,
    frame_uniform_layout: UniformLayout,
    submitted: Ghost<Seq<Seq<wgpu::CommandBuffer>>>,
    refused: u64,
}

impl Rhi {
    #[verifier::type_invariant]
    spec fn on_one_device(self) -> bool {
        &&& self.frames.made_on() == self.context.device_value()
        &&& forall|k: u64| #[trigger] self.registry.buffers().contains_key(k) ==> buffer_device(
            self.registry.buffers()[k].gpu_buffer(),
        ) == self.context.device_value()
    }

    /// How many calls the device refused: resources it did not create (which stay
    /// registered, unusable by the GPU), uniform writes and submissions it did not take. wgpu
    /// would otherwise have panicked on each.
    pub closed spec fn refusals(&self) -> int {
        self.registry.refusals() + self.refused
    }

    /// How many calls the device refused (counted up to `u64::MAX`).
    pub fn refusal_count(&self) -> (r: u64)
        ensures
            r == (if self.refusals() <= u64::MAX {
                self.refusals()
            } else {
                u64::MAX as int
            }),
    {
        self.registry.refusal_count().saturating_add(self.refused)
    }

    /// The resource registry.
    pub closed spec fn resources(&self) -> ResourceRegistry {
        self.registry
    }

    /// What was handed to the queue at each frame's end so far, oldest first: the frame's
    /// command buffers, in order.
    pub closed spec fn submissions(&self) -> Seq<Seq<wgpu::CommandBuffer>> {
        self.submitted@
    }

    /// The live textures, by handle key.
    pub open spec fn textures(&self) -> Map<u64, TextureResource> {
        self.resources().textures()
    }

    /// The live buffers, by handle key.
    pub open spec fn buffers(&self) -> Map<u64, BufferResource> {
        self.resources().buffers()
    }

    /// What the device supports.
    pub closed spec fn caps(&self) -> Capabilities {
        self.context.caps()
    }

    /// The frames in flight.
    pub closed spec fn frame_ring(&self) -> FramesInFlight {
        self.frames
    }

    /// The GPU context.
    pub closed spec fn gpu_context(&self) -> Context {
        self.context
    }

    /// The layout of the per-frame uniform bind group.
    pub closed spec fn uniform_layout(&self) -> wgpu::BindGroupLayout {
        self.frame_uniform_layout.layout_value()
    }

    /// The limits of the device.
    pub open spec fn limits(&self) -> DeviceLimits {
        self.caps().device_limits
    }

    /// An interface over an acquired context, with `frames_in_flight` frame slots whose
    /// uniform buffers hold `frame_uniform_size` bytes and are bound through a layout of one
    /// uniform buffer of at least that size. The device must allow a uniform binding and a
    /// buffer of that size. No resources are live yet.
    pub fn new(context: Context, frames_in_flight: usize, frame_uniform_size: u64) -> (r: Rhi)
        requires
            frames_in_flight > 0,
            frame_uniform_size > 0,
            frame_uniform_size <= context.caps().device_limits.max_uniform_buffer_binding_size,
            frame_uniform_size <= context.caps().device_limits.max_buffer_size,
        ensures
            r.textures().dom().is_empty(),
            r.buffers().dom().is_empty(),
            r.caps() == context.caps(),
            r.gpu_context() == context,
            r.frame_ring().depth() == frames_in_flight,
            r.frame_ring().index() == 0,
            r.frame_ring().uniform_len() == frame_uniform_size,
            r.submissions().len() == 0,
    {
        let frame_uniform_layout = device_create_uniform_layout(
            context.device(),
            "frame_uniform_layout",
            frame_uniform_size,
        );
        let frames = FramesInFlight::new(
            context.device(),
            frames_in_flight,
            &frame_uniform_layout,
            frame_uniform_size,
        );
        let refused = frames.refusal_count();
        Rhi {
            context,
            registry: ResourceRegistry::new(),
            frames,
            frame_uniform_layout,
            submitted: Ghost(Seq::empty()),
            refused,
        }
    }

    /// The limits of the device, against which texture and buffer requests are checked.
    pub fn device_limits(&self) -> (r: DeviceLimits)
        ensures
            r == self.limits(),
    {
        self.context.limits()
    }

    // --- frame lifecycle -------------------------------------------------------------------------

    /// How many frames may be in flight.
    pub fn frames_in_flight(&self) -> (r: usize)
        ensures
            r == self.frame_ring().depth(),
            r > 0,
    {
        self.frames.depth_count()
    }

    /// The index of the frame being recorded.
    pub fn frame_index(&self) -> (r: u64)
        ensures
            r == self.frame_ring().index(),
    {
        self.frames.frame_index()
    }

    /// Starts recording the current frame: stages `frame_uniform` (the encoded per-frame
    /// uniform) into the uniform buffer of the frame's slot.
    pub fn begin_frame(&self, frame_uniform: &[u8]) -> (r: FrameContext)
        requires
            frame_uniform@.len() % 4 == 0,
            frame_uniform@.len() <= self.frame_ring().uniform_len(),
        ensures
            r.index() == self.frame_ring().index(),
            r.slot() == self.frame_ring().slot_of(self.frame_ring().index()),
            r.queued() == 0,
            r.uniform_write() == (
                self.frame_ring().slot_seq()[self.frame_ring().slot_of(self.frame_ring().index())].uniform_buffer(),
                0u64,
                frame_uniform@,
            ),
    {
        let frame_index = self.frames.frame_index();
        let slot_index = self.frames.slot_index();
        let slot = self.frames.current();
        proof {
            use_type_invariant(self);
        }
        let (staged, written) = queue_write_buffer(
            self.context.device(),
            self.context.queue(),
            slot.uniform_buffer_ref(),
            0,
            frame_uniform,
        );
        FrameContext::new(frame_index, slot_index, staged, !written)
    }

    /// Submits the command buffers of the frame being recorded, in order, and moves on to
    /// the next frame.
    pub(crate) fn end_frame(&mut self, command_buffers: Vec<wgpu::CommandBuffer>, uniform_refused: bool)
        requires
            old(self).frame_ring().index() < u64::MAX,
        ensures
            final(self).frame_ring().index() == old(self).frame_ring().index() + 1,
            final(self).frame_ring().depth() == old(self).frame_ring().depth(),
            final(self).frame_ring().uniform_len() == old(self).frame_ring().uniform_len(),
            final(self).textures() == old(self).textures(),
            final(self).buffers() == old(self).buffers(),
            final(self).caps() == old(self).caps(),
            final(self).submissions() == old(self).submissions().push(command_buffers@),
            final(self).refusals() >= old(self).refusals(),
    {
        proof {
            use_type_invariant(&*self);
        }
        let (handed, taken) = queue_submit(self.context.device(), self.context.queue(), command_buffers);
        self.frames.advance();
        if uniform_refused {
            self.refused = self.refused.saturating_add(1);
        }
        if !taken {
            self.refused = self.refused.saturating_add(1);
        }
        proof {
            self.submitted@ = self.submitted@.push(handed@);
        }
    }

    /// The layout of the per-frame uniform bind group.
    pub fn frame_uniform_layout(&self) -> (r: &wgpu::BindGroupLayout)
        ensures
            *r == self.uniform_layout(),
    {
        self.frame_uniform_layout.layout()
    }

    /// The per-frame uniform bind group of slot `slot`.
    pub fn frame_uniform_bind_group(&self, slot: usize) -> (r: &wgpu::BindGroup)
        requires
            slot < self.frame_ring().depth(),
        ensures
            *r == self.frame_ring().slot_seq()[slot as int].bind_group(),
    {
        let s: &FrameSlot = self.frames.slot(slot);
        s.bind_group_ref()
    }

    /// A command encoder on the device, with the given label.
    pub fn create_encoder(&self, label: &str) -> wgpu::CommandEncoder {
        device_create_command_encoder(self.context.device(), label)
    }

    // --- texture ---------------------------------------------------------------------------------

    /// The number of live textures, of which there are finitely many.
    pub fn texture_count(&self) -> (r: usize)
        ensures
            r == self.textures().len(),
            self.textures().dom().finite(),
    {
        self.registry.texture_count()
    }

    /// Creates a texture from `desc` and registers it under a new handle.
    pub fn create_texture(&mut self, desc: &TextureDesc) -> (handle: TextureHandle)
        requires
            old(self).textures().len() + 1 < u32::MAX,
            texture_desc_ok(*desc, old(self).limits()),
        ensures
            !old(self).textures().contains_key(handle.id()),
            final(self).textures() == old(self).textures().insert(
                handle.id(),
                final(self).textures()[handle.id()],
            ),
            made_from(final(self).textures()[handle.id()], *desc),
            final(self).buffers() == old(self).buffers(),
            final(self).caps() == old(self).caps(),
            final(self).frame_ring() == old(self).frame_ring(),
            final(self).refusals() >= old(self).refusals(),
    {
        proof {
            use_type_invariant(&*self);
        }
        let mut registry = ResourceRegistry::new();
        std::mem::swap(&mut registry, &mut self.registry);
        let handle = registry.create_texture(self.context.device(), desc);
        std::mem::swap(&mut registry, &mut self.registry);
        handle
    }

    /// The default view of the texture a handle names, if it is live.
    pub fn texture_view(&self, handle: TextureHandle) -> (r: Option<&wgpu::TextureView>)
        ensures
            r is Some <==> self.textures().contains_key(handle.id()),
            r matches Some(v) ==> *v == self.textures()[handle.id()].view,
    {
        self.registry.texture_view(handle)
    }

    /// Re-creates the texture a handle names from `desc`, keeping the handle. Returns
    /// whether the handle was live.
    pub fn replace_texture(&mut self, handle: TextureHandle, desc: &TextureDesc) -> (r: bool)
        requires
            old(self).textures().contains_key(handle.id()) ==> texture_desc_ok(*desc, old(self).limits()),
        ensures
            r == old(self).textures().contains_key(handle.id()),
            r ==> final(self).textures() == old(self).textures().insert(
                handle.id(),
                final(self).textures()[handle.id()],
            ),
            r ==> made_from(final(self).textures()[handle.id()], *desc),
            !r ==> final(self).textures() == old(self).textures(),
            final(self).buffers() == old(self).buffers(),
            final(self).caps() == old(self).caps(),
            final(self).frame_ring() == old(self).frame_ring(),
            final(self).refusals() >= old(self).refusals(),
    {
        proof {
            use_type_invariant(&*self);
        }
        let mut registry = ResourceRegistry::new();
        std::mem::swap(&mut registry, &mut self.registry);
        let replaced = registry.replace_texture(self.context.device(), handle, desc);
        std::mem::swap(&mut registry, &mut self.registry);
        replaced
    }

    /// Destroys the texture a handle names. Returns whether it was live.
    pub fn destroy_texture(&mut self, handle: TextureHandle) -> (r: bool)
        ensures
            r == old(self).textures().contains_key(handle.id()),
            final(self).textures() == old(self).textures().remove(handle.id()),
            final(self).buffers() == old(self).buffers(),
            final(self).caps() == old(self).caps(),
            final(self).frame_ring() == old(self).frame_ring(),
    {
        proof {
            use_type_invariant(&*self);
        }
        let mut registry = ResourceRegistry::new();
        std::mem::swap(&mut registry, &mut self.registry);
        let removed = registry.remove_texture(handle);
        std::mem::swap(&mut registry, &mut self.registry);
        removed
    }

    /// The number of live buffers, of which there are finitely many.
    pub fn buffer_count(&self) -> (r: usize)
        ensures
            r == self.buffers().len(),
            self.buffers().dom().finite(),
    {
        self.registry.buffer_count()
    }

    // --- render target ---------------------------------------------------------------------------

    /// Looks up the views of every attachment of `target`; `None` as soon as one of its
    /// textures is not live.
    pub fn resolve_target(&self, target: &RenderTarget) -> (r: Option<ResolvedTarget<'_>>)
        ensures
            r is Some <==> self.resources().resolves(*target),
            r matches Some(resolved) ==> self.resources().resolution(*target, resolved),
    {
        self.registry.resolve_target(target)
    }

    // --- buffer ----------------------------------------------------------------------------------

    /// Creates a buffer from `desc` and registers it under a new handle.
    pub fn create_buffer(&mut self, desc: &BufferDesc) -> (handle: BufferHandle)
        requires
            old(self).buffers().len() + 1 < u32::MAX,
            buffer_usage_ok(buffer_usage_bits(desc.usage)),
            desc.mapped_at_creation ==> desc.size % 4 == 0,
            desc.size <= old(self).limits().max_buffer_size,
        ensures
            !old(self).buffers().contains_key(handle.id()),
            final(self).buffers() == old(self).buffers().insert(
                handle.id(),
                final(self).buffers()[handle.id()],
            ),
            final(self).buffers()[handle.id()].len() == desc.size,
            final(self).buffers()[handle.id()].usages() == desc.usage,
            final(self).buffers()[handle.id()].created_mapped() == desc.mapped_at_creation,
            final(self).textures() == old(self).textures(),
            final(self).caps() == old(self).caps(),
            final(self).frame_ring() == old(self).frame_ring(),
            final(self).refusals() >= old(self).refusals(),
    {
        proof {
            use_type_invariant(&*self);
        }
        let mut registry = ResourceRegistry::new();
        std::mem::swap(&mut registry, &mut self.registry);
        let handle = registry.create_buffer(self.context.device(), desc);
        std::mem::swap(&mut registry, &mut self.registry);
        handle
    }

    /// Creates a buffer holding `contents` and registers it under a new handle.
    pub fn create_buffer_init(&mut self, label: &str, contents: &[u8], usage: wgpu::BufferUsages) -> (handle:
        BufferHandle)
        requires
            old(self).buffers().len() + 1 < u32::MAX,
            contents@.len() + 4 <= u64::MAX,
            buffer_usage_ok(buffer_usage_bits(usage)),
            padded_init_len(contents@.len()) <= old(self).limits().max_buffer_size,
        ensures
            !old(self).buffers().contains_key(handle.id()),
            final(self).buffers() == old(self).buffers().insert(
                handle.id(),
                final(self).buffers()[handle.id()],
            ),
            final(self).buffers()[handle.id()].len() as nat == padded_init_len(contents@.len()),
            final(self).buffers()[handle.id()].usages() == usage,
            !final(self).buffers()[handle.id()].created_mapped(),
            final(self).textures() == old(self).textures(),
            final(self).caps() == old(self).caps(),
            final(self).frame_ring() == old(self).frame_ring(),
    {
        proof {
            use_type_invariant(&*self);
        }
        let mut registry = ResourceRegistry::new();
        std::mem::swap(&mut registry, &mut self.registry);
        let handle = registry.create_buffer_init(self.context.device(), label, contents, usage);
        std::mem::swap(&mut registry, &mut self.registry);
        handle
    }

    /// Stages `data` for the bytes of the buffer a handle names starting at `offset`.
    /// Returns whether the handle was live, whether the device took the write (a dead
    /// handle writes nothing, and nothing is refused), and a record of what was staged: that
    /// buffer, `offset` and `data`. A live buffer must have been
    /// created with the `COPY_DST` usage and not mapped at creation.
    pub fn upload_buffer(&self, handle: BufferHandle, offset: u64, data: &[u8]) -> (r: (bool, bool, Ghost<
        Option<(wgpu::Buffer, u64, Seq<u8>)>,
    >))
        requires
            self.buffers().contains_key(handle.id()) ==> {
                &&& offset % 4 == 0
                &&& data@.len() % 4 == 0
                &&& offset + data@.len() <= self.buffers()[handle.id()].len()
                &&& buffer_usage_bits(self.buffers()[handle.id()].usages()) & copy_dst_bit() != 0
                &&& !self.buffers()[handle.id()].created_mapped()
            },
        ensures
            r.0 == self.buffers().contains_key(handle.id()),
            r.0 ==> r.2@ == Some((self.buffers()[handle.id()].gpu_buffer(), offset, data@)),
            !r.0 ==> r.1 && r.2@ is None,
    {
        match self.registry.buffer(handle) {
            Some(resource) => {
                proof {
                    use_type_invariant(self);
                }
                let (staged, written) = queue_write_buffer(
                    self.context.device(),
                    self.context.queue(),
                    resource.gpu(),
                    offset,
                    data,
                );
                (true, written, Ghost(Some(staged@)))
            },
            None => (false, true, Ghost(None)),
        }
    }

    /// Destroys the buffer a handle names. Returns whether it was live.
    pub fn destroy_buffer(&mut self, handle: BufferHandle) -> (r: bool)
        ensures
            r == old(self).buffers().contains_key(handle.id()),
            final(self).buffers() == old(self).buffers().remove(handle.id()),
            final(self).textures() == old(self).textures(),
            final(self).caps() == old(self).caps(),
            final(self).frame_ring() == old(self).frame_ring(),
    {
        proof {
            use_type_invariant(&*self);
        }
        let mut registry = ResourceRegistry::new();
        std::mem::swap(&mut registry, &mut self.registry);
        let removed = registry.remove_buffer(handle);
        std::mem::swap(&mut registry, &mut self.registry);
        removed
    }

    // --- accessors -------------------------------------------------------------------------------

    /// The GPU context.
    pub fn context(&self) -> (r: &Context)
        ensures
            r.caps() == self.caps(),
    {
        &self.context
    }

    /// The resource registry.
    pub fn registry(&self) -> (r: &ResourceRegistry)
        ensures
            r.textures() == self.textures(),
            r.buffers() == self.buffers(),
    {
        &self.registry
    }

    /// What the device supports.
    pub fn capabilities(&self) -> (r: &Capabilities)
        ensures
            *r == self.caps(),
    {
        self.context.capabilities()
    }

    /// A second handle to the instance, for the UI renderer's set-up only.
    pub fn instance(&self) -> (r: wgpu::Instance)
        ensures
            r == self.gpu_context().instance_value(),
    {
        self.context.instance_handle()
    }

    /// A second handle to the adapter, for the UI renderer's set-up only.
    pub fn adapter(&self) -> (r: wgpu::Adapter)
        ensures
            r == self.gpu_context().adapter_value(),
    {
        self.context.adapter_handle()
    }

    /// A second handle to the device, for the UI renderer's set-up only.
    pub fn device(&self) -> (r: wgpu::Device)
        ensures
            r == self.gpu_context().device_value(),
    {
        self.context.device_handle()
    }

    /// The queue.
    pub(crate) fn queue_ref(&self) -> (r: &wgpu::Queue)
        ensures
            *r == self.gpu_context().queue_value(),
    {
        self.context.queue()
    }

    /// A second handle to the queue, for the UI renderer's set-up only.
    pub fn queue(&self) -> (r: wgpu::Queue)
        ensures
            r == self.gpu_context().queue_value(),
    {
        self.context.queue_handle()
    }
}

impl FrameContext {
    /// Ends the frame: submits its command buffers in order and moves `rhi` on to the
    /// next frame.
    pub fn end(self, rhi: &mut Rhi)
        requires
            old(rhi).frame_ring().index() < u64::MAX,
        ensures
            final(rhi).frame_ring().index() == old(rhi).frame_ring().index() + 1,
            final(rhi).frame_ring().depth() == old(rhi).frame_ring().depth(),
            final(rhi).frame_ring().uniform_len() == old(rhi).frame_ring().uniform_len(),
            final(rhi).textures() == old(rhi).textures(),
            final(rhi).buffers() == old(rhi).buffers(),
            final(rhi).caps() == old(rhi).caps(),
            final(rhi).submissions() == old(rhi).submissions().push(self.queued_buffers()),
            final(rhi).refusals() >= old(rhi).refusals(),
    {
        let uniform_refused = self.uniform_write_refused();
        rhi.end_frame(self.into_command_buffers(), uniform_refused);
    }
}


/// `after` is `before` once the frame being recorded has ended: the next frame is being
/// recorded, the slots are the same, and one more submission was made after the earlier ones.
pub open spec fn frame_ended(before: Rhi, after: Rhi) -> bool {
    &&& after.frame_ring().index() == before.frame_ring().index() + 1
    &&& after.frame_ring().depth() == before.frame_ring().depth()
    &&& after.submissions().len() == before.submissions().len() + 1
    &&& after.submissions().subrange(0, before.submissions().len() as int) == before.submissions()
}

/// Frames are counted from zero. On an interface that started at frame zero with nothing
/// submitted, once `k` frames have ended (`states` holds the interface before and after
/// each), the frame being recorded is frame `k`, it uses slot `k % depth`, and `k`
/// submissions were made, one per frame, the earlier ones kept in order.
pub proof fn lemma_frame_count(states: Seq<Rhi>)
    requires
        states.len() > 0,
        states[0].frame_ring().index() == 0,
        states[0].submissions().len() == 0,
        forall|j: int| 0 <= j < states.len() - 1 ==> frame_ended(states[j], #[trigger] states[j + 1]),
    ensures
        states.last().frame_ring().index() == states.len() - 1,
        states.last().frame_ring().depth() == states[0].frame_ring().depth(),
        states.last().frame_ring().slot_of(states.last().frame_ring().index()) == (states.len() - 1) % (
        states[0].frame_ring().depth() as int),
        states.last().submissions().len() == states.len() - 1,
        forall|j: int| 0 <= j < states.len() ==> #[trigger] states.last().submissions().subrange(
            0,
            j,
        ) == states[j].submissions(),
    decreases states.len(),
{
    if states.len() > 1 {
        let earlier = states.drop_last();
        assert forall|j: int| 0 <= j < earlier.len() - 1 implies frame_ended(earlier[j], #[trigger] earlier[j + 1]) by {
            assert(frame_ended(states[j], states[j + 1]));
        }
        lemma_frame_count(earlier);
        let prev = earlier.last();
        let last = states.last();
        assert(prev == states[states.len() - 2]);
        assert(frame_ended(states[states.len() - 2], states[states.len() - 1]));
        assert forall|j: int| 0 <= j < states.len() implies #[trigger] last.submissions().subrange(0, j)
            == states[j].submissions() by {
            if j < states.len() - 1 {
                assert(earlier[j] == states[j]);
                assert(prev.submissions().subrange(0, j) == states[j].submissions());
                assert(last.submissions().subrange(0, j) == prev.submissions().subrange(0, j));
            } else {
                assert(last.submissions().subrange(0, j) == last.submissions());
            }
        }
    } else {
        assert(states.last() == states[0]);
        assert(states[0].submissions().subrange(0, 0) == states[0].submissions());
    }
}

} // verus!
