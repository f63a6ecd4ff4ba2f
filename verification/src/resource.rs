//! The registry of live GPU resources, addressed by generational handles.
use vstd::prelude::*;
use crate::gpu::{
    buffer_device, buffer_len, buffer_size, buffer_usage, buffer_usage_bits, buffer_usage_ok, device_create_buffer,
    device_create_buffer_init, device_create_texture, device_limit_numbers, left_unmapped, padded_init_len,
    texture_create_default_view, texture_desc_ok, texture_extent, texture_format, texture_usages, BufferDesc,
    Extent3d, TextureDesc,
};
use crate::slots::{
    buffer_slots, buffer_table_get, buffer_table_insert, buffer_table_len, buffer_table_new,
    buffer_table_remove, canonical_key, null_key, slot_null_key, texture_slots, texture_table_get,
    texture_table_insert, texture_table_len, texture_table_new, texture_table_overwrite,
    texture_table_remove, SlotTable,
};
use crate::target::{RenderTarget, ResolvedTarget};

verus! {

/// A handle to a texture in a [`ResourceRegistry`]. A handle names its texture until the
/// texture is destroyed, across any number of re-creations in place.
#[derive(Clone, Copy, Debug, PartialEq, Eq, Hash, Structural)]
pub struct TextureHandle {
    key: u64,
}

/// A handle to a buffer in a [`ResourceRegistry`].
#[derive(Clone, Copy, Debug, PartialEq, Eq, Hash, Structural)]
pub struct BufferHandle {
    key: u64,
}

impl TextureHandle {
    #[verifier::type_invariant]
    spec fn is_canonical(self) -> bool {
        canonical_key(self.key)
    }

    /// The key the handle stands for.
    pub closed spec fn id(self) -> u64 {
        self.key
    }
}

impl BufferHandle {
    #[verifier::type_invariant]
    spec fn is_canonical(self) -> bool {
        canonical_key(self.key)
    }

    /// The key the handle stands for.
    pub closed spec fn id(self) -> u64 {
        self.key
    }
}

impl Default for TextureHandle {
    /// The null handle, which names no texture.
    fn default() -> (r: Self)
        ensures
            r.id() == null_key(),
    {
        TextureHandle { key: slot_null_key() }
    }
}

impl Default for BufferHandle {
    /// The null handle, which names no buffer.
    fn default() -> (r: Self)
        ensures
            r.id() == null_key(),
    {
        BufferHandle { key: slot_null_key() }
    }
}

/// A live texture with the default view onto it and what it was created with.
pub struct TextureResource {
    pub texture: wgpu::Texture,
    pub view: wgpu::TextureView,
    pub format: wgpu::TextureFormat,
    pub size: Extent3d,
    pub usage: wgpu::TextureUsages,
}

/// A live buffer with its size in bytes, its usages, and whether it was mapped at
/// creation. The buffer itself stays inside the library, so nothing maps it.
pub struct BufferResource {
    pub(crate) buffer: wgpu::Buffer,
    pub(crate) size: u64,
    pub(crate) usage: wgpu::BufferUsages,
    pub(crate) mapped_at_creation: bool,
}

impl BufferResource {
    /// The GPU buffer.
    pub closed spec fn gpu_buffer(&self) -> wgpu::Buffer {
        self.buffer
    }

    /// The size in bytes.
    pub closed spec fn len(&self) -> u64 {
        self.size
    }

    /// The usages.
    pub closed spec fn usages(&self) -> wgpu::BufferUsages {
        self.usage
    }

    /// Whether the buffer was mapped at creation.
    pub closed spec fn created_mapped(&self) -> bool {
        self.mapped_at_creation
    }

    /// The GPU buffer, for the library's own use: no buffer leaves the library.
    pub(crate) fn gpu(&self) -> (r: &wgpu::Buffer)
        ensures
            *r == self.gpu_buffer(),
    {
        &self.buffer
    }

    /// The size in bytes.
    pub fn size(&self) -> (r: u64)
        ensures
            r == self.len(),
    {
        self.size
    }

    /// The usages.
    pub fn usage(&self) -> (r: wgpu::BufferUsages)
        ensures
            r == self.usages(),
    {
        self.usage
    }

    /// Whether the buffer was mapped at creation.
    pub fn mapped_at_creation(&self) -> (r: bool)
        ensures
            r == self.created_mapped(),
    {
        self.mapped_at_creation
    }
}

/// A texture resource made by `desc`: the texture has the descriptor's size, format and
/// usages, and so do the fields that record them.
pub open spec fn made_from(resource: TextureResource, desc: TextureDesc) -> bool {
    &&& resource.format == desc.format
    &&& resource.size == desc.size
    &&& resource.usage == desc.usage
    &&& texture_extent(resource.texture) == desc.size
    &&& texture_format(resource.texture) == desc.format
    &&& texture_usages(resource.texture) == desc.usage
}

/// Owns every live texture and buffer.
pub struct ResourceRegistry {
    textures: SlotTable<TextureResource>,
    buffers: SlotTable<BufferResource>,
    refused: u64,
}

impl ResourceRegistry {
    #[verifier::type_invariant]
    spec fn well_formed(self) -> bool {
        &&& texture_slots(self.textures).dom().finite()
        &&& buffer_slots(self.buffers).dom().finite()
        &&& forall|k: u64| #[trigger]
            buffer_slots(self.buffers).contains_key(k) ==> buffer_slots(self.buffers)[k].size
                == buffer_len(buffer_slots(self.buffers)[k].buffer)
        &&& forall|k: u64| #[trigger]
            buffer_slots(self.buffers).contains_key(k) ==> buffer_slots(self.buffers)[k].usage
                == buffer_usage(buffer_slots(self.buffers)[k].buffer)
        &&& forall|k: u64| #[trigger]
            buffer_slots(self.buffers).contains_key(k) ==> (!buffer_slots(self.buffers)[k].mapped_at_creation
                ==> left_unmapped(buffer_slots(self.buffers)[k].buffer))
    }

    /// The live textures, by handle key.
    pub closed spec fn textures(&self) -> Map<u64, TextureResource> {
        texture_slots(self.textures)
    }

    /// The live buffers, by handle key.
    pub closed spec fn buffers(&self) -> Map<u64, BufferResource> {
        buffer_slots(self.buffers)
    }

    /// How many resources the device refused to create (counted up to `u64::MAX`). A refused
    /// resource is registered all the same; it reports the size, format and usages it was
    /// asked for, but the GPU cannot use it.
    pub closed spec fn refusals(&self) -> u64 {
        self.refused
    }

    /// How many resources the device refused to create.
    pub fn refusal_count(&self) -> (r: u64)
        ensures
            r == self.refusals(),
    {
        self.refused
    }

    /// A registry with no resources.
    pub fn new() -> (r: Self)
        ensures
            r.textures() == Map::<u64, TextureResource>::empty(),
            r.buffers() == Map::<u64, BufferResource>::empty(),
            r.refusals() == 0,
    {
        ResourceRegistry { textures: texture_table_new(), buffers: buffer_table_new(), refused: 0 }
    }

    /// The number of live textures.
    pub fn texture_count(&self) -> (r: usize)
        ensures
            r == self.textures().len(),
            self.textures().dom().finite(),
    {
        proof {
            use_type_invariant(self);
        }
        texture_table_len(&self.textures)
    }

    /// The number of live buffers.
    pub fn buffer_count(&self) -> (r: usize)
        ensures
            r == self.buffers().len(),
            self.buffers().dom().finite(),
    {
        proof {
            use_type_invariant(self);
        }
        buffer_table_len(&self.buffers)
    }

    // --- texture ---------------------------------------------------------------------------------

    /// Creates a texture from `desc`, with its default view, and registers it under a new
    /// handle.
    pub fn create_texture(&mut self, device: &wgpu::Device, desc: &TextureDesc) -> (handle: TextureHandle)
        requires
            old(self).textures().len() + 1 < u32::MAX,
            texture_desc_ok(*desc, device_limit_numbers(*device)),
        ensures
            !old(self).textures().contains_key(handle.id()),
            final(self).textures() == old(self).textures().insert(
                handle.id(),
                final(self).textures()[handle.id()],
            ),
            made_from(final(self).textures()[handle.id()], *desc),
            final(self).buffers() == old(self).buffers(),
            final(self).refusals() >= old(self).refusals(),
    {
        proof {
            use_type_invariant(&*self);
        }
        let (texture, made) = device_create_texture(device, desc);
        let (view, viewed) = texture_create_default_view(device, &texture);
        if !made || !viewed {
            self.refused = self.refused.saturating_add(1);
        }
        let resource = TextureResource {
            texture,
            view,
            format: desc.format,
            size: desc.size,
            usage: desc.usage,
        };
        let mut table = texture_table_new();
        std::mem::swap(&mut table, &mut self.textures);
        let key = texture_table_insert(&mut table, resource);
        self.textures = table;
        TextureHandle { key }
    }

    /// The texture a handle names, if it is live.
    pub fn texture(&self, handle: TextureHandle) -> (r: Option<&TextureResource>)
        ensures
            r is Some <==> self.textures().contains_key(handle.id()),
            r matches Some(t) ==> *t == self.textures()[handle.id()],
    {
        proof {
            use_type_invariant(&handle);
        }
        texture_table_get(&self.textures, handle.key)
    }

    /// The default view of the texture a handle names, if it is live.
    pub fn texture_view(&self, handle: TextureHandle) -> (r: Option<&wgpu::TextureView>)
        ensures
            r is Some <==> self.textures().contains_key(handle.id()),
            r matches Some(v) ==> *v == self.textures()[handle.id()].view,
    {
        match self.texture(handle) {
            Some(t) => Some(&t.view),
            None => None,
        }
    }

    /// Re-creates the texture a handle names from `desc`, keeping the handle. Returns
    /// whether the handle was live; a dead handle creates nothing.
    pub fn replace_texture(&mut self, device: &wgpu::Device, handle: TextureHandle, desc: &TextureDesc) -> (r: bool)
        requires
            old(self).textures().contains_key(handle.id()) ==> texture_desc_ok(*desc, device_limit_numbers(*device)),
        ensures
            r == old(self).textures().contains_key(handle.id()),
            r ==> final(self).textures() == old(self).textures().insert(
                handle.id(),
                final(self).textures()[handle.id()],
            ),
            r ==> made_from(final(self).textures()[handle.id()], *desc),
            !r ==> final(self).textures() == old(self).textures(),
            !r ==> final(self).refusals() == old(self).refusals(),
            final(self).buffers() == old(self).buffers(),
            final(self).refusals() >= old(self).refusals(),
    {
        proof {
            use_type_invariant(&*self);
            use_type_invariant(&handle);
        }
        if texture_table_get(&self.textures, handle.key).is_none() {
            return false;
        }
        let (texture, made) = device_create_texture(device, desc);
        let (view, viewed) = texture_create_default_view(device, &texture);
        if !made || !viewed {
            self.refused = self.refused.saturating_add(1);
        }
        let resource = TextureResource {
            texture,
            view,
            format: desc.format,
            size: desc.size,
            usage: desc.usage,
        };
        let mut table = texture_table_new();
        std::mem::swap(&mut table, &mut self.textures);
        let _previous = texture_table_overwrite(&mut table, handle.key, resource);
        self.textures = table;
        true
    }

    /// Unregisters and drops the texture a handle names. Returns whether it was live.
    pub fn remove_texture(&mut self, handle: TextureHandle) -> (r: bool)
        ensures
            r == old(self).textures().contains_key(handle.id()),
            final(self).textures() == old(self).textures().remove(handle.id()),
            final(self).buffers() == old(self).buffers(),
    {
        proof {
            use_type_invariant(&*self);
            use_type_invariant(&handle);
        }
        let mut table = texture_table_new();
        std::mem::swap(&mut table, &mut self.textures);
        let removed = texture_table_remove(&mut table, handle.key);
        self.textures = table;
        removed.is_some()
    }

    // --- render target ---------------------------------------------------------------------------

    /// Looks up the views of every attachment of `target`; `None` as soon as one of its
    /// textures is not live.
    pub fn resolve_target(&self, target: &RenderTarget) -> (r: Option<ResolvedTarget<'_>>)
        ensures
            r is Some <==> self.resolves(*target),
            r matches Some(resolved) ==> self.resolution(*target, resolved),
    {
        let count = target.color_count();
        let mut colors: Vec<&wgpu::TextureView> = Vec::new();
        let mut i: usize = 0;
        while i < count
            invariant
                count == target.attachments().len(),
                i <= count,
                colors@.len() == i,
                forall|j: int| 0 <= j < i ==> self.textures().contains_key(
                    #[trigger] target.attachments()[j].handle.id(),
                ),
                forall|j: int| 0 <= j < i ==> *colors@[j] == self.textures()[
                    #[trigger] target.attachments()[j].handle.id()].view,
            decreases count - i,
        {
            let attachment = target.color(i);
            match self.texture_view(attachment.handle) {
                Some(view) => colors.push(view),
                None => return None,
            }
            i = i + 1;
        }
        let depth = match target.depth() {
            Some(handle) => match self.texture_view(handle) {
                Some(view) => Some(view),
                None => return None,
            },
            None => None,
        };
        Some(ResolvedTarget::new(colors, depth, target.extent(), target.sample_count()))
    }

    /// Every texture `target` attaches is live.
    pub open spec fn resolves(&self, target: RenderTarget) -> bool {
        &&& forall|j: int| 0 <= j < target.attachments().len() ==> self.textures().contains_key(
            #[trigger] target.attachments()[j].handle.id(),
        )
        &&& (target.depth_target() matches Some(d) ==> self.textures().contains_key(d.id()))
    }

    /// `resolved` holds, in order, the views of the textures `target` attaches.
    pub open spec fn resolution(&self, target: RenderTarget, resolved: ResolvedTarget) -> bool {
        &&& resolved.views().len() == target.attachments().len()
        &&& forall|j: int| 0 <= j < resolved.views().len() ==> resolved.views()[j] == self.textures()[
            #[trigger] target.attachments()[j].handle.id()].view
        &&& resolved.depth_view() == match target.depth_target() {
            Some(d) => Some(self.textures()[d.id()].view),
            None => None,
        }
        &&& resolved.resolved_extent() == target.target_extent()
        &&& resolved.resolved_samples() == target.target_samples()
    }

    /// A resolved target draws into exactly the target's textures: one colour view per
    /// attachment, in order, each the view of the registry's texture under that
    /// attachment's handle; a depth view exactly when the target has a depth attachment, and
    /// then the view of the registry's texture under the depth handle.
    pub proof fn lemma_resolution_views<'a>(&self, target: RenderTarget, resolved: ResolvedTarget<'a>)
        requires
            self.resolution(target, resolved),
        ensures
            resolved.views().len() == target.attachments().len(),
            forall|j: int| 0 <= j < target.attachments().len() ==> resolved.views()[j] == self.textures()[
                #[trigger] target.attachments()[j].handle.id()].view,
            resolved.depth_view() is Some <==> target.depth_target() is Some,
            target.depth_target() matches Some(d) ==> resolved.depth_view() == Some(self.textures()[d.id()].view),
            resolved.resolved_extent() == target.target_extent(),
    {
    }

    // --- buffer ----------------------------------------------------------------------------------

    /// Creates a buffer from `desc` and registers it under a new handle.
    pub fn create_buffer(&mut self, device: &wgpu::Device, desc: &BufferDesc) -> (handle: BufferHandle)
        requires
            old(self).buffers().len() + 1 < u32::MAX,
            buffer_usage_ok(buffer_usage_bits(desc.usage)),
            desc.mapped_at_creation ==> desc.size % 4 == 0,
            desc.size <= device_limit_numbers(*device).max_buffer_size,
        ensures
            !old(self).buffers().contains_key(handle.id()),
            final(self).buffers() == old(self).buffers().insert(
                handle.id(),
                final(self).buffers()[handle.id()],
            ),
            final(self).buffers()[handle.id()].len() == desc.size,
            final(self).buffers()[handle.id()].usages() == desc.usage,
            final(self).buffers()[handle.id()].created_mapped() == desc.mapped_at_creation,
            buffer_device(final(self).buffers()[handle.id()].gpu_buffer()) == *device,
            final(self).textures() == old(self).textures(),
            final(self).refusals() >= old(self).refusals(),
    {
        proof {
            use_type_invariant(&*self);
        }
        let (buffer, made) = device_create_buffer(device, desc);
        if !made {
            self.refused = self.refused.saturating_add(1);
        }
        let resource = BufferResource {
            buffer,
            size: desc.size,
            usage: desc.usage,
            mapped_at_creation: desc.mapped_at_creation,
        };
        let mut table = buffer_table_new();
        std::mem::swap(&mut table, &mut self.buffers);
        let key = buffer_table_insert(&mut table, resource);
        self.buffers = table;
        BufferHandle { key }
    }

    /// Creates a buffer holding `contents` and registers it under a new handle. Its size
    /// is the length of `contents` rounded up to a multiple of four bytes.
    pub fn create_buffer_init(
        &mut self,
        device: &wgpu::Device,
        label: &str,
        contents: &[u8],
        usage: wgpu::BufferUsages,
    ) -> (handle: BufferHandle)
        requires
            old(self).buffers().len() + 1 < u32::MAX,
            contents@.len() + 4 <= u64::MAX,
            buffer_usage_ok(buffer_usage_bits(usage)),
            padded_init_len(contents@.len()) <= device_limit_numbers(*device).max_buffer_size,
        ensures
            !old(self).buffers().contains_key(handle.id()),
            final(self).buffers() == old(self).buffers().insert(
                handle.id(),
                final(self).buffers()[handle.id()],
            ),
            final(self).buffers()[handle.id()].len() as nat == padded_init_len(contents@.len()),
            final(self).buffers()[handle.id()].usages() == usage,
            !final(self).buffers()[handle.id()].created_mapped(),
            buffer_device(final(self).buffers()[handle.id()].gpu_buffer()) == *device,
            final(self).textures() == old(self).textures(),
            final(self).refusals() == old(self).refusals(),
    {
        proof {
            use_type_invariant(&*self);
        }
        let buffer = device_create_buffer_init(device, label, contents, usage);
        let size = buffer_size(&buffer);
        let resource = BufferResource { buffer, size, usage, mapped_at_creation: false };
        let mut table = buffer_table_new();
        std::mem::swap(&mut table, &mut self.buffers);
        let key = buffer_table_insert(&mut table, resource);
        self.buffers = table;
        BufferHandle { key }
    }

    /// The buffer a handle names, if it is live.
    pub fn buffer(&self, handle: BufferHandle) -> (r: Option<&BufferResource>)
        ensures
            r is Some <==> self.buffers().contains_key(handle.id()),
            r matches Some(b) ==> *b == self.buffers()[handle.id()],
            r matches Some(b) ==> b.len() == buffer_len(b.gpu_buffer()),
            r matches Some(b) ==> b.usages() == buffer_usage(b.gpu_buffer()),
            r matches Some(b) ==> (!b.created_mapped() ==> left_unmapped(b.gpu_buffer())),
    {
        proof {
            use_type_invariant(&handle);
            use_type_invariant(self);
        }
        buffer_table_get(&self.buffers, handle.key)
    }

    /// The GPU buffer a handle names, if it is live.
    pub(crate) fn buffer_ref(&self, handle: BufferHandle) -> (r: Option<&wgpu::Buffer>)
        ensures
            r is Some <==> self.buffers().contains_key(handle.id()),
            r matches Some(b) ==> *b == self.buffers()[handle.id()].gpu_buffer(),
    {
        match self.buffer(handle) {
            Some(b) => Some(&b.buffer),
            None => None,
        }
    }

    /// Unregisters and drops the buffer a handle names. Returns whether it was live.
    pub fn remove_buffer(&mut self, handle: BufferHandle) -> (r: bool)
        ensures
            r == old(self).buffers().contains_key(handle.id()),
            final(self).buffers() == old(self).buffers().remove(handle.id()),
            final(self).textures() == old(self).textures(),
    {
        proof {
            use_type_invariant(&*self);
            use_type_invariant(&handle);
        }
        let mut table = buffer_table_new();
        std::mem::swap(&mut table, &mut self.buffers);
        let removed = buffer_table_remove(&mut table, handle.key);
        self.buffers = table;
        removed.is_some()
    }
}

impl Default for ResourceRegistry {
    fn default() -> (r: Self)
        ensures
            r.textures() == Map::<u64, TextureResource>::empty(),
            r.buffers() == Map::<u64, BufferResource>::empty(),
    {
        ResourceRegistry::new()
    }
}

/// The life of a texture handle: a handle `create_texture` returns names the texture made
/// from the descriptor until `destroy_texture` is called on it, after which it names
/// nothing; meanwhile every other handle names what it named before.
pub proof fn lemma_texture_handle_lifecycle(
    before: ResourceRegistry,
    created: ResourceRegistry,
    destroyed: ResourceRegistry,
    handle: TextureHandle,
    desc: TextureDesc,
    other: TextureHandle,
)
    requires
        !before.textures().contains_key(handle.id()),
        created.textures() == before.textures().insert(handle.id(), created.textures()[handle.id()]),
        made_from(created.textures()[handle.id()], desc),
        destroyed.textures() == created.textures().remove(handle.id()),
        other.id() != handle.id(),
    ensures
        created.textures().contains_key(handle.id()),
        made_from(created.textures()[handle.id()], desc),
        !destroyed.textures().contains_key(handle.id()),
        destroyed.textures().contains_key(other.id()) == before.textures().contains_key(other.id()),
        created.textures().contains_key(other.id()) == before.textures().contains_key(other.id()),
        before.textures().contains_key(other.id()) ==> created.textures()[other.id()] == before.textures()[other.id()]
            && destroyed.textures()[other.id()] == before.textures()[other.id()],
{
}

/// Re-creating a texture in place retargets its handle: a target that resolved before still
/// resolves, its attachments on that handle now see the new texture, and every other
/// attachment sees the texture it saw before.
pub proof fn lemma_replace_retargets(
    before: ResourceRegistry,
    after: ResourceRegistry,
    handle: TextureHandle,
    target: RenderTarget,
)
    requires
        before.textures().contains_key(handle.id()),
        after.textures() == before.textures().insert(handle.id(), after.textures()[handle.id()]),
        before.resolves(target),
    ensures
        after.resolves(target),
        forall|j: int| 0 <= j < target.attachments().len() ==> {
            let k = (#[trigger] target.attachments()[j]).handle.id();
            &&& k == handle.id() ==> after.textures()[k] == after.textures()[handle.id()]
            &&& k != handle.id() ==> after.textures()[k] == before.textures()[k]
        },
        target.depth_target() matches Some(d) ==> (d.id() != handle.id() ==> after.textures()[d.id()]
            == before.textures()[d.id()]),
{
    assert forall|j: int| 0 <= j < target.attachments().len() implies after.textures().contains_key(
        #[trigger] target.attachments()[j].handle.id(),
    ) by {
        assert(before.textures().contains_key(target.attachments()[j].handle.id()));
    }
}

/// The life of a buffer handle: a handle `create_buffer` returns names a buffer of the
/// requested size until `destroy_buffer` is called on it, after which it names nothing;
/// meanwhile every other handle names what it named before.
pub proof fn lemma_buffer_handle_lifecycle(
    before: ResourceRegistry,
    created: ResourceRegistry,
    destroyed: ResourceRegistry,
    handle: BufferHandle,
    size: u64,
    other: BufferHandle,
)
    requires
        !before.buffers().contains_key(handle.id()),
        created.buffers() == before.buffers().insert(handle.id(), created.buffers()[handle.id()]),
        created.buffers()[handle.id()].len() == size,
        destroyed.buffers() == created.buffers().remove(handle.id()),
        other.id() != handle.id(),
    ensures
        created.buffers().contains_key(handle.id()),
        created.buffers()[handle.id()].len() == size,
        !destroyed.buffers().contains_key(handle.id()),
        destroyed.buffers().contains_key(other.id()) == before.buffers().contains_key(other.id()),
        before.buffers().contains_key(other.id()) ==> destroyed.buffers()[other.id()] == before.buffers()[other.id()],
{
}

} // verus!
