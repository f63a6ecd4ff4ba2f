//! Frames in flight: a ring of per-frame GPU slots, one per frame the CPU may record
//! while the GPU still works on earlier ones.
use vstd::prelude::*;
use crate::gpu::{
    buffer_device, buffer_len, buffer_usage, buffer_usage_bits, buffer_usage_ok, copy_dst_bit, device_create_buffer,
    device_create_buffer_bind_group, device_limit_numbers, left_unmapped, uniform_copy_dst_usage, BufferDesc,
    UniformLayout,
};
use crate::labels::indexed_label;

verus! {

/// The queue may write `buffer`: it was created with the `COPY_DST` usage and is left
/// unmapped.
pub open spec fn writable(buffer: wgpu::Buffer) -> bool {
    &&& buffer_usage_bits(buffer_usage(buffer)) & copy_dst_bit() != 0
    &&& left_unmapped(buffer)
}

/// The per-frame uniform buffer of one slot and the bind group over it.
pub struct FrameSlot {
    pub(crate) frame_uniform: wgpu::Buffer,
    pub(crate) frame_uniform_bind_group: wgpu::BindGroup,
}

impl FrameSlot {
    /// The per-frame uniform buffer.
    pub closed spec fn uniform_buffer(&self) -> wgpu::Buffer {
        self.frame_uniform
    }

    /// The bind group over the uniform buffer.
    pub closed spec fn bind_group(&self) -> wgpu::BindGroup {
        self.frame_uniform_bind_group
    }

    /// The per-frame uniform buffer.
    pub(crate) fn uniform_buffer_ref(&self) -> (r: &wgpu::Buffer)
        ensures
            *r == self.uniform_buffer(),
    {
        &self.frame_uniform
    }

    /// The bind group over the uniform buffer.
    pub fn bind_group_ref(&self) -> (r: &wgpu::BindGroup)
        ensures
            *r == self.bind_group(),
    {
        &self.frame_uniform_bind_group
    }
}

/// A ring of frame slots and the index of the frame being recorded. Frame `f` uses slot
/// `f % depth`.
pub struct FramesInFlight {
    slots: Vec<FrameSlot>,
    frame_index: u64,
    uniform_size: Ghost<u64>,
    device: Ghost<wgpu::Device>,
    refused: u64,
}

impl FramesInFlight {
    #[verifier::type_invariant]
    spec fn well_formed(self) -> bool {
        &&& self.slots@.len() > 0
        &&& forall|i: int| 0 <= i < self.slots@.len() ==> buffer_len(
            #[trigger] self.slots@[i].frame_uniform,
        ) == self.uniform_size@
        &&& forall|i: int| 0 <= i < self.slots@.len() ==> writable(#[trigger] self.slots@[i].frame_uniform)
        &&& forall|i: int| 0 <= i < self.slots@.len() ==> buffer_device(#[trigger] self.slots@[i].frame_uniform)
            == self.device@
    }

    /// The device the slots' buffers were created on.
    pub closed spec fn made_on(&self) -> wgpu::Device {
        self.device@
    }

    /// How many of the calls that made the slots the device refused.
    pub closed spec fn refusals(&self) -> u64 {
        self.refused
    }

    /// How many of the calls that made the slots the device refused.
    pub fn refusal_count(&self) -> (r: u64)
        ensures
            r == self.refusals(),
    {
        self.refused
    }

    /// How many frames may be in flight: the number of slots.
    pub closed spec fn depth(&self) -> nat {
        self.slots@.len()
    }

    /// The index of the frame being recorded.
    pub closed spec fn index(&self) -> u64 {
        self.frame_index
    }

    /// The size in bytes of every slot's uniform buffer.
    pub closed spec fn uniform_len(&self) -> u64 {
        self.uniform_size@
    }

    /// The slots, in ring order.
    pub closed spec fn slot_seq(&self) -> Seq<FrameSlot> {
        self.slots@
    }

    /// The slot frame `frame` uses.
    pub open spec fn slot_of(&self, frame: u64) -> int {
        frame as int % self.depth() as int
    }

    /// Creates `depth` slots, each with a uniform buffer of `uniform_size` bytes and a bind
    /// group of `layout` over it; recording starts at frame 0.
    pub fn new(device: &wgpu::Device, depth: usize, layout: &UniformLayout, uniform_size: u64) -> (r: Self)
        requires
            depth > 0,
            layout.made_on() == *device,
            layout.min_binding_size() <= uniform_size,
            uniform_size <= device_limit_numbers(*device).max_uniform_buffer_binding_size,
            uniform_size <= device_limit_numbers(*device).max_buffer_size,
        ensures
            r.depth() == depth,
            r.index() == 0,
            r.uniform_len() == uniform_size,
            r.made_on() == *device,
    {
        let mut refused: u64 = 0;
        let mut slots: Vec<FrameSlot> = Vec::new();
        let mut i: usize = 0;
        while i < depth
            invariant
                i <= depth,
                slots@.len() == i,
                forall|j: int| 0 <= j < i ==> buffer_len(#[trigger] slots@[j].frame_uniform) == uniform_size,
                forall|j: int| 0 <= j < i ==> writable(#[trigger] slots@[j].frame_uniform),
                forall|j: int| 0 <= j < i ==> buffer_device(#[trigger] slots@[j].frame_uniform) == *device,
                layout.made_on() == *device,
                layout.min_binding_size() <= uniform_size,
                uniform_size <= device_limit_numbers(*device).max_uniform_buffer_binding_size,
                uniform_size <= device_limit_numbers(*device).max_buffer_size,
            decreases depth - i,
        {
            let usage = uniform_copy_dst_usage();
            proof {
                let bits = buffer_usage_bits(usage);
                assert(bits == 64u32 | 8u32 ==> bits != 0 && bits & 8u32 != 0 && bits & 64u32 != 0 && bits & !0x3ffu32
                    == 0 && bits & 2u32 == 0 && bits & 1u32 == 0 && bits & 16u32 == 0 && bits & 256u32 == 0)
                    by (bit_vector);
                assert(buffer_usage_ok(bits));
            }
            let desc = BufferDesc {
                label: indexed_label("frame-globals", i),
                size: uniform_size,
                usage,
                mapped_at_creation: false,
            };
            let (frame_uniform, made) = device_create_buffer(device, &desc);
            let bind_group_label = indexed_label("frame-globals-bg", i);
            let (frame_uniform_bind_group, bound) = device_create_buffer_bind_group(
                device,
                bind_group_label.as_str(),
                layout,
                &frame_uniform,
            );
            if !made || !bound {
                refused = refused.saturating_add(1);
            }
            slots.push(FrameSlot { frame_uniform, frame_uniform_bind_group });
            i = i + 1;
        }
        FramesInFlight { slots, frame_index: 0, uniform_size: Ghost(uniform_size), device: Ghost(*device), refused }
    }

    /// The number of slots.
    pub fn depth_count(&self) -> (r: usize)
        ensures
            r == self.depth(),
            r > 0,
    {
        proof {
            use_type_invariant(self);
        }
        self.slots.len()
    }

    /// The index of the frame being recorded.
    pub fn frame_index(&self) -> (r: u64)
        ensures
            r == self.index(),
    {
        self.frame_index
    }

    /// The slot the frame being recorded uses.
    pub fn slot_index(&self) -> (r: usize)
        ensures
            r == self.slot_of(self.index()),
            r < self.depth(),
    {
        proof {
            use_type_invariant(self);
        }
        (self.frame_index % (self.slots.len() as u64)) as usize
    }

    /// The slot at index `i` of the ring.
    pub fn slot(&self, i: usize) -> (r: &FrameSlot)
        requires
            i < self.depth(),
        ensures
            *r == self.slot_seq()[i as int],
            buffer_len(r.uniform_buffer()) == self.uniform_len(),
            writable(r.uniform_buffer()),
            buffer_device(r.uniform_buffer()) == self.made_on(),
    {
        proof {
            use_type_invariant(self);
        }
        &self.slots[i]
    }

    /// The slot the frame being recorded uses.
    pub(crate) fn current(&self) -> (r: &FrameSlot)
        ensures
            *r == self.slot_seq()[self.slot_of(self.index())],
            buffer_len(r.uniform_buffer()) == self.uniform_len(),
            writable(r.uniform_buffer()),
            buffer_device(r.uniform_buffer()) == self.made_on(),
    {
        let i = self.slot_index();
        self.slot(i)
    }

    /// Moves on to the next frame.
    pub(crate) fn advance(&mut self)
        requires
            old(self).index() < u64::MAX,
        ensures
            final(self).index() == old(self).index() + 1,
            final(self).depth() == old(self).depth(),
            final(self).slot_seq() == old(self).slot_seq(),
            final(self).uniform_len() == old(self).uniform_len(),
            final(self).made_on() == old(self).made_on(),
            final(self).refusals() == old(self).refusals(),
        no_unwind
    {
        proof {
            use_type_invariant(&*self);
        }
        self.frame_index = self.frame_index + 1;
    }
}

/// The frame being recorded: its index, the slot it uses, and the command buffers queued
/// for submission when it ends.
pub struct FrameContext {
    pub frame_index: u64,
    pub slot_index: usize,
    command_buffers: Vec<wgpu::CommandBuffer>,
    staged: Ghost<(wgpu::Buffer, u64, Seq<u8>)>,
    write_refused: bool,
}

impl FrameContext {
    /// The index of the frame.
    pub closed spec fn index(&self) -> u64 {
        self.frame_index
    }

    /// The slot the frame uses.
    pub closed spec fn slot(&self) -> usize {
        self.slot_index
    }

    /// The number of command buffers queued for submission.
    pub closed spec fn queued(&self) -> nat {
        self.command_buffers@.len()
    }

    /// What was staged for the frame's uniform buffer when the frame began: the buffer, the
    /// offset and the bytes.
    pub closed spec fn uniform_write(&self) -> (wgpu::Buffer, u64, Seq<u8>) {
        self.staged@
    }

    /// The command buffers queued for submission, in order.
    pub closed spec fn queued_buffers(&self) -> Seq<wgpu::CommandBuffer> {
        self.command_buffers@
    }

    /// Whether the device refused the write of the frame's uniform.
    pub closed spec fn uniform_refused(&self) -> bool {
        self.write_refused
    }

    /// Whether the device refused the write of the frame's uniform.
    pub fn uniform_write_refused(&self) -> (r: bool)
        ensures
            r == self.uniform_refused(),
    {
        self.write_refused
    }

    pub(crate) fn new(
        frame_index: u64,
        slot_index: usize,
        staged: Ghost<(wgpu::Buffer, u64, Seq<u8>)>,
        write_refused: bool,
    ) -> (r: Self)
        ensures
            r.uniform_write() == staged@,
            r.uniform_refused() == write_refused,
            r.index() == frame_index,
            r.slot() == slot_index,
            r.queued() == 0,
            r.queued_buffers() == Seq::<wgpu::CommandBuffer>::empty(),
    {
        FrameContext { frame_index, slot_index, command_buffers: Vec::new(), staged, write_refused }
    }

    /// Queues a command buffer; queued buffers are submitted in order when the frame ends.
    pub fn submit(&mut self, command_buffer: wgpu::CommandBuffer)
        ensures
            final(self).index() == old(self).index(),
            final(self).slot() == old(self).slot(),
            final(self).queued() == old(self).queued() + 1,
            final(self).queued_buffers() == old(self).queued_buffers().push(command_buffer),
            final(self).uniform_write() == old(self).uniform_write(),
            final(self).uniform_refused() == old(self).uniform_refused(),
    {
        self.command_buffers.push(command_buffer);
    }

    /// The per-frame uniform bind group of the frame's slot in `rhi`.
    pub fn frame_uniform_bind_group<'r>(&self, rhi: &'r crate::rhi::Rhi) -> (r: &'r wgpu::BindGroup)
        requires
            self.slot() < rhi.frame_ring().depth(),
        ensures
            *r == rhi.frame_ring().slot_seq()[self.slot() as int].bind_group(),
    {
        rhi.frame_uniform_bind_group(self.slot_index)
    }

    /// A command encoder on `rhi`'s device, with the given label.
    pub fn create_encoder(&self, rhi: &crate::rhi::Rhi, label: &str) -> wgpu::CommandEncoder {
        rhi.create_encoder(label)
    }

    /// The queue of `rhi`, where the frame's work is submitted.
    pub fn queue<'r>(&self, rhi: &'r crate::rhi::Rhi) -> (r: &'r wgpu::Queue)
        ensures
            *r == rhi.gpu_context().queue_value(),
    {
        rhi.queue_ref()
    }

    /// The queued command buffers, in order.
    pub(crate) fn into_command_buffers(self) -> (r: Vec<wgpu::CommandBuffer>)
        ensures
            r@ == self.queued_buffers(),
    {
        self.command_buffers
    }
}

/// Frames in flight cycle through the slots: frames `depth` apart share a slot, frames
/// fewer than `depth` apart never do, and each frame uses the slot after its predecessor's.
pub proof fn lemma_slot_cycle(frames: FramesInFlight, a: u64, b: u64)
    requires
        frames.depth() > 0,
        a <= b,
    ensures
        (b - a) % (frames.depth() as int) == 0 ==> frames.slot_of(a) == frames.slot_of(b),
        0 < b - a < frames.depth() ==> frames.slot_of(a) != frames.slot_of(b),
        b == a + 1 ==> frames.slot_of(b) == (frames.slot_of(a) + 1) % (frames.depth() as int),
{
    let d = frames.depth() as int;
    let x = a as int;
    let y = b as int;
    assert((y - x) % d == 0 ==> x % d == y % d) by (nonlinear_arith)
        requires
            d > 0,
            x <= y,
    {
        if (y - x) % d == 0 {
            vstd::arithmetic::div_mod::lemma_fundamental_div_mod(y - x, d);
            vstd::arithmetic::div_mod::lemma_mod_multiples_vanish((y - x) / d, x, d);
        }
    }
    assert(0 < y - x < d ==> x % d != y % d) by (nonlinear_arith)
        requires
            d > 0,
            x <= y,
    {
        if 0 < y - x < d && x % d == y % d {
            vstd::arithmetic::div_mod::lemma_fundamental_div_mod(x, d);
            vstd::arithmetic::div_mod::lemma_fundamental_div_mod(y, d);
        }
    }
    assert(y == x + 1 ==> y % d == (x % d + 1) % d) by (nonlinear_arith)
        requires
            d > 0,
    {
        if y == x + 1 {
            vstd::arithmetic::div_mod::lemma_add_mod_noop(x, 1, d);
            vstd::arithmetic::div_mod::lemma_mod_twice(x, d);
        }
    }
}

} // verus!
