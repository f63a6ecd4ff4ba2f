use gecko::conventions::MAX_COLOR_ATTACHMENTS;
use wgpu::TextureFormat::{R8Unorm, R32Uint, Rg16Float, Rgba8Unorm, Rgba16Float, Rgba32Float};
use gecko::gpu::Extent3d;
use gecko::resource::TextureHandle;
use gecko::target::{bytes_per_sample, packed_sample_bytes, try_bytes_per_sample, AttachmentRole, ColorAttachment, RenderTarget};

fn attachment(format: wgpu::TextureFormat, role: AttachmentRole) -> ColorAttachment {
    ColorAttachment {
        handle: TextureHandle::default(),
        format,
        role,
        usage: wgpu::TextureUsages::RENDER_ATTACHMENT,
    }
}

fn render_target(attachments: &[ColorAttachment]) -> RenderTarget {
    assert!(attachments.len() <= MAX_COLOR_ATTACHMENTS);
    RenderTarget::from_parts(
        attachments,
        None,
        Extent3d {
            width: 1,
            height: 1,
            depth_or_array_layers: 1,
        },
        1,
    )
}

#[test]
fn tracks_attachment_order_and_roles() {
    let target = render_target(&[
        attachment(wgpu::TextureFormat::Rgba8Unorm, AttachmentRole::Color),
        attachment(wgpu::TextureFormat::R32Uint, AttachmentRole::ObjectId),
    ]);

    assert_eq!(target.color_count(), 2);

    let roles: Vec<_> = target.colors().iter().map(|attachment| attachment.role).collect();
    assert_eq!(roles, [AttachmentRole::Color, AttachmentRole::ObjectId]);

    let (index, found) = target
        .find(AttachmentRole::ObjectId)
        .expect("object-id attachment present");
    assert_eq!(index, 1);
    assert_eq!(found.format, wgpu::TextureFormat::R32Uint);

    assert_eq!(
        target.find(AttachmentRole::Color).expect("color attachment present").0,
        0
    );
    assert_eq!(target.presented().role, AttachmentRole::Color);
}

#[test]
fn bytes_per_sample_mirrors_webgpu_rule() {
    assert_eq!(bytes_per_sample(&[Rgba8Unorm, Rgba16Float, Rg16Float, R32Uint]), 24);
    assert_eq!(bytes_per_sample(&[Rgba8Unorm; 4]), 32);
    assert_eq!(bytes_per_sample(&[Rgba16Float; 5]), 40);
    assert_eq!(bytes_per_sample(&[R8Unorm, Rgba32Float]), 20);
    assert_eq!(bytes_per_sample(&[Rgba32Float, R8Unorm]), 17);
}

#[test]
fn find_returns_the_first_attachment_with_a_role() {
    let target = render_target(&[
        attachment(wgpu::TextureFormat::R32Uint, AttachmentRole::ObjectId),
        attachment(wgpu::TextureFormat::Rgba8Unorm, AttachmentRole::Color),
        attachment(wgpu::TextureFormat::Rgba16Float, AttachmentRole::Color),
    ]);
    let (index, found) = target.find(AttachmentRole::Color).unwrap();
    assert_eq!(index, 1);
    assert_eq!(found.format, wgpu::TextureFormat::Rgba8Unorm);
    assert_eq!(target.presented().format, wgpu::TextureFormat::Rgba8Unorm);
    assert!(target.find(AttachmentRole::Motion).is_none());
    assert!(target.find(AttachmentRole::Normal).is_none());
}

#[test]
fn empty_target_has_no_attachments() {
    let target = render_target(&[]);
    assert_eq!(target.color_count(), 0);
    assert!(target.colors().is_empty());
    assert!(target.find(AttachmentRole::Color).is_none());
    assert_eq!(target.depth(), None);
    assert_eq!(target.sample_count(), 1);
    assert_eq!(target.extent().width, 1);
}

#[test]
fn packed_sample_bytes_aligns_each_attachment() {
    assert_eq!(packed_sample_bytes(&[]), Some(0));
    assert_eq!(packed_sample_bytes(&[(1, 8), (2, 8), (2, 4), (4, 4)]), Some(24));
    // 1 byte, then a 4-aligned 16-byte attachment starts at 4.
    assert_eq!(packed_sample_bytes(&[(1, 1), (4, 16)]), Some(20));
    assert_eq!(packed_sample_bytes(&[(4, 16), (1, 1)]), Some(17));
    assert_eq!(packed_sample_bytes(&[(3, 1), (3, 1)]), Some(4));
}

#[test]
fn packed_sample_bytes_rejects_zero_alignment_and_overflow() {
    assert_eq!(packed_sample_bytes(&[(1, 4), (0, 4)]), None);
    assert_eq!(packed_sample_bytes(&[(1, u32::MAX), (1, 1)]), None);
    assert_eq!(packed_sample_bytes(&[(1, u32::MAX), (2, 0)]), None);
    assert_eq!(packed_sample_bytes(&[(1, u32::MAX - 2), (2, 0)]), Some(u32::MAX - 1));
    assert_eq!(packed_sample_bytes(&[(1, u32::MAX)]), Some(u32::MAX));
}

#[test]
fn try_bytes_per_sample_rejects_formats_that_are_not_color_renderable() {
    assert_eq!(try_bytes_per_sample(&[wgpu::TextureFormat::Depth32Float]), None);
    assert_eq!(
        try_bytes_per_sample(&[wgpu::TextureFormat::Rgba8Unorm, wgpu::TextureFormat::Depth24Plus]),
        None
    );
    assert_eq!(try_bytes_per_sample(&[wgpu::TextureFormat::Rgba8Unorm]), Some(8));
    assert_eq!(try_bytes_per_sample(&[]), Some(0));
}

#[test]
fn null_handles_are_equal() {
    assert_eq!(TextureHandle::default(), TextureHandle::default());
    assert_eq!(
        gecko::resource::BufferHandle::default(),
        gecko::resource::BufferHandle::default()
    );
}
