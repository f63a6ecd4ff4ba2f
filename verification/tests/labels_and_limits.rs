use gecko::console::{level_label, level_slot, more_verbose, Console};
use gecko::context::{supports_bindless, ContextConfig, PowerPreference};
use gecko::diagnostics::{display_text, span_path, LogBufferInner};
use gecko::surface::{choose_surface_format, preferred_surface_formats};
use gecko::gpu::DeviceLimits;
use gecko::labels::{color_label, depth_label, indexed_label, push_decimal};
use gecko::target::{extent_of, fits_limits, usage_ok, usages_ok, AttachmentRole, ColorSpec};
use tracing::Level;
use wgpu::TextureFormat::{Bgra8UnormSrgb, Rgba16Float, Rgba8UnormSrgb};

fn limits(max_2d: u32, layers: u32) -> DeviceLimits {
    DeviceLimits {
        max_texture_dimension_1d: 8192,
        max_texture_dimension_2d: max_2d,
        max_texture_dimension_3d: 2048,
        max_texture_array_layers: layers,
        max_buffer_size: 1 << 28,
        max_uniform_buffer_binding_size: 1 << 16,
        max_color_attachments: 8,
        max_color_attachment_bytes_per_sample: 32,
    }
}

#[test]
fn labels_name_attachments_and_ring_items() {
    assert_eq!(color_label("game", 0), "game_color_0");
    assert_eq!(color_label("game", 12), "game_color_12");
    assert_eq!(depth_label("viewport"), "viewport_depth");
    assert_eq!(indexed_label("frame-globals", 7), "frame-globals[7]");
    assert_eq!(indexed_label("game", 105), "game[105]");
    let mut s = String::from("n=");
    push_decimal(&mut s, usize::MAX);
    assert_eq!(s, format!("n={}", usize::MAX));
}

#[test]
fn display_lines_pad_the_level_to_five() {
    assert_eq!(display_text(&Level::INFO, "gecko", None, "ready"), "[INFO ] gecko: ready");
    assert_eq!(display_text(&Level::WARN, "rhi", Some("frame"), "slow"), "[WARN ] rhi [frame]: slow");
    assert_eq!(display_text(&Level::DEBUG, "t", None, ""), "[DEBUG] t: ");
    assert_eq!(display_text(&Level::TRACE, "", Some(""), "m"), "[TRACE]  []: m");
}

#[test]
fn toggle_labels_name_the_level_of_their_slot() {
    for level in [Level::ERROR, Level::WARN, Level::INFO, Level::DEBUG, Level::TRACE] {
        assert_eq!(level_label(level_slot(level)).to_uppercase(), level.as_str());
    }
}

#[test]
fn default_config_prefers_high_performance() {
    assert_eq!(ContextConfig::default().power_preference, PowerPreference::HighPerformance);
}

#[test]
fn bindless_needs_every_feature() {
    let bindless = wgpu::Features::TEXTURE_BINDING_ARRAY
        .union(wgpu::Features::SAMPLED_TEXTURE_AND_STORAGE_BUFFER_ARRAY_NON_UNIFORM_INDEXING);
    assert!(supports_bindless(&bindless, &bindless));
    assert!(!supports_bindless(&wgpu::Features::TEXTURE_BINDING_ARRAY, &bindless));
    assert!(!supports_bindless(&wgpu::Features::empty(), &bindless));
}

#[test]
fn extents_must_fit_the_device() {
    let l = limits(4096, 256);
    assert!(fits_limits(extent_of((4096, 1)), &l));
    assert!(!fits_limits(extent_of((4097, 16)), &l));
    assert!(!fits_limits(extent_of((16, 4097)), &l));
    assert!(!fits_limits(extent_of((0, 16)), &l));
    let mut layered = extent_of((16, 16));
    layered.depth_or_array_layers = 2;
    assert!(!fits_limits(layered, &l));
}

#[test]
fn attachment_usages_are_checked() {
    assert!(usage_ok(&wgpu::TextureUsages::TEXTURE_BINDING));
    assert!(usage_ok(&wgpu::TextureUsages::empty()));
    assert!(usage_ok(&wgpu::TextureUsages::TRANSIENT_ATTACHMENT));
    assert!(!usage_ok(&(wgpu::TextureUsages::TRANSIENT_ATTACHMENT | wgpu::TextureUsages::COPY_SRC)));
    let specs = [
        ColorSpec { format: wgpu::TextureFormat::Rgba8Unorm, role: AttachmentRole::Color, usage: wgpu::TextureUsages::COPY_SRC },
        ColorSpec {
            format: wgpu::TextureFormat::Rgba8Unorm,
            role: AttachmentRole::Color,
            usage: wgpu::TextureUsages::TRANSIENT_ATTACHMENT | wgpu::TextureUsages::TEXTURE_BINDING,
        },
    ];
    assert!(usages_ok(&specs[..1]));
    assert!(!usages_ok(&specs));
}

#[test]
fn n_pushes_keep_the_last_lines_in_order() {
    let levels = [Level::ERROR, Level::WARN, Level::INFO, Level::DEBUG, Level::TRACE, Level::INFO, Level::WARN];
    let mut buffer = LogBufferInner::new(3);
    for level in levels {
        buffer.push(level, "gecko", None, "line");
    }
    assert_eq!(buffer.next_seq(), 7);
    assert_eq!(buffer.head_seq(), 4);
    let kept = buffer.entries_from(0);
    assert_eq!(kept.len(), 3);
    for (i, entry) in kept.iter().enumerate() {
        assert_eq!(entry.seq, 4 + i as u64);
        assert_eq!(entry.level, levels[4 + i]);
    }
}

#[test]
fn shown_lines_stay_increasing_after_clear() {
    let mut buffer = LogBufferInner::new(4);
    let mut console = Console::new();
    for _ in 0..3 {
        buffer.push(Level::INFO, "gecko", None, "before");
    }
    console.sync_filtered(&buffer, false);
    console.clear(&buffer);
    for _ in 0..3 {
        buffer.push(Level::INFO, "gecko", None, "after");
    }
    console.sync_filtered(&buffer, false);
    console.sync_filtered(&buffer, true);
    let shown = console.filtered().clone();
    assert_eq!(shown, vec![3, 4, 5]);
    assert!(shown.windows(2).all(|w| w[0] < w[1]));
}

#[test]
fn span_paths_join_names_from_the_root() {
    assert_eq!(span_path(&["frame", "game_pass"]), Some("frame:game_pass".to_string()));
    assert_eq!(span_path(&["frame"]), Some("frame".to_string()));
    assert_eq!(span_path(&[]), None);
    assert_eq!(span_path(&[""]), None);
    assert_eq!(span_path(&["", ""]), Some(":".to_string()));
}

#[test]
fn surfaces_prefer_srgb_bgra_then_rgba() {
    assert_eq!(preferred_surface_formats(), vec![Bgra8UnormSrgb, Rgba8UnormSrgb]);
    assert_eq!(choose_surface_format(&[Rgba16Float, Rgba8UnormSrgb, Bgra8UnormSrgb]), Bgra8UnormSrgb);
    assert_eq!(choose_surface_format(&[Rgba16Float, Rgba8UnormSrgb]), Rgba8UnormSrgb);
    assert_eq!(choose_surface_format(&[Rgba16Float]), Rgba16Float);
}

#[test]
fn verbosity_follows_tracing_order() {
    let levels = [Level::ERROR, Level::WARN, Level::INFO, Level::DEBUG, Level::TRACE];
    for a in levels {
        for b in levels {
            assert_eq!(more_verbose(a, b), a > b);
            assert_eq!(level_slot(a) < level_slot(b), a < b);
        }
    }
}
