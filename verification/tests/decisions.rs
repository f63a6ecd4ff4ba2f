use gecko::context::{check_adapter_limits, AdapterLimits, ContextConfig, RhiError};
use gecko::scene_renderer::{cube_indices, object_offset, object_slots, uniform_bytes_len, uniform_stride};
use gecko::surface::{acquire_action, initial_surface_size, pick_surface_format, resized_surface, FrameAction, SurfaceStatus};
use gecko::editor::{next_selection, selection_changed};
use gecko::target::{extent_of, resize_wanted};
use wgpu::TextureFormat::{Bgra8UnormSrgb, Rgba16Float, Rgba8UnormSrgb};

#[test]
fn default_config_asks_for_two_frames_in_flight() {
    let config = ContextConfig::default();
    assert_eq!(config.min_immediate_size, 128);
    assert_eq!(config.min_bind_groups, 8);
    assert_eq!(config.frames_in_flight, 2);
}

#[test]
fn adapter_limits_are_checked_in_order() {
    let config = ContextConfig::default();
    let ok = AdapterLimits { max_immediate_size: 256, max_bind_groups: 8 };
    assert!(check_adapter_limits(&config, &ok).is_ok());

    let both_short = AdapterLimits { max_immediate_size: 64, max_bind_groups: 4 };
    match check_adapter_limits(&config, &both_short) {
        Err(RhiError::UnmetLimit { name, required, available }) => {
            assert_eq!(name, "min_immediate_size");
            assert_eq!(required, 128);
            assert_eq!(available, 64);
        }
        _ => panic!("expected the immediate-size limit to be reported"),
    }

    let few_groups = AdapterLimits { max_immediate_size: 128, max_bind_groups: 4 };
    match check_adapter_limits(&config, &few_groups) {
        Err(RhiError::UnmetLimit { name, required, available }) => {
            assert_eq!(name, "min_bind_groups");
            assert_eq!(required, 8);
            assert_eq!(available, 4);
        }
        _ => panic!("expected the bind-group limit to be reported"),
    }
}

#[test]
fn surface_format_prefers_srgb_formats_in_order() {
    let preferred = [Bgra8UnormSrgb, Rgba8UnormSrgb];
    assert_eq!(pick_surface_format(&[Rgba16Float, Rgba8UnormSrgb, Bgra8UnormSrgb], &preferred), Bgra8UnormSrgb);
    assert_eq!(pick_surface_format(&[Rgba16Float, Rgba8UnormSrgb], &preferred), Rgba8UnormSrgb);
    assert_eq!(pick_surface_format(&[Rgba16Float], &preferred), Rgba16Float);
}

#[test]
fn surface_sizes_ignore_zero_sides() {
    assert_eq!(initial_surface_size(0, 720), (1, 720));
    assert_eq!(resized_surface((800, 600), 1024, 768), (1024, 768));
    assert_eq!(resized_surface((800, 600), 0, 768), (800, 600));
    assert_eq!(resized_surface((800, 600), 1024, 0), (800, 600));
}

#[test]
fn acquisition_outcomes_map_to_actions() {
    assert_eq!(acquire_action(SurfaceStatus::Success), FrameAction::Present { reconfigure_after: false });
    assert_eq!(acquire_action(SurfaceStatus::Suboptimal), FrameAction::Present { reconfigure_after: true });
    assert_eq!(acquire_action(SurfaceStatus::Lost), FrameAction::ReconfigureAndSkip);
    assert_eq!(acquire_action(SurfaceStatus::Outdated), FrameAction::ReconfigureAndSkip);
    assert_eq!(acquire_action(SurfaceStatus::Timeout), FrameAction::Skip);
    assert_eq!(acquire_action(SurfaceStatus::Occluded), FrameAction::Skip);
    assert_eq!(acquire_action(SurfaceStatus::Validation), FrameAction::Fail);
}

#[test]
fn uniform_blocks_are_aligned() {
    assert_eq!(uniform_stride(144, 256), 256);
    assert_eq!(uniform_stride(256, 256), 256);
    assert_eq!(uniform_stride(257, 256), 512);
    assert_eq!(uniform_stride(0, 64), 0);
    assert_eq!(object_slots(3, true), (1, 4));
    assert_eq!(object_slots(3, false), (0, 3));
    assert_eq!(uniform_bytes_len(256, 0), 256);
    assert_eq!(uniform_bytes_len(256, 4), 1024);
    assert_eq!(object_offset(3, 256), 768);
    assert_eq!(object_offset(1, 1 << 32), 0);
}

#[test]
fn cube_has_two_triangles_per_face() {
    let indices = cube_indices();
    assert_eq!(indices.len(), 36);
    assert_eq!(&indices[..6], &[0, 1, 2, 0, 2, 3]);
    assert_eq!(&indices[30..], &[20, 21, 22, 20, 22, 23]);
}

#[test]
fn extents_are_single_layer() {
    let extent = extent_of((1280, 720));
    assert_eq!(extent.width, 1280);
    assert_eq!(extent.height, 720);
    assert_eq!(extent.depth_or_array_layers, 1);
}

#[test]
fn hierarchy_selection_follows_clicks_and_right_clicks() {
    assert_eq!(next_selection(None, Some(2), false), Some(2));
    assert_eq!(next_selection(Some(1), None, false), Some(1));
    assert_eq!(next_selection(Some(1), Some(0), true), None);
    assert!(selection_changed(Some(1), Some(2)));
    assert!(!selection_changed(Some(2), Some(2)));
    assert!(!selection_changed(Some(2), None));
}

#[test]
fn resizes_are_wanted_only_for_new_nonzero_sizes() {
    assert!(resize_wanted((1280, 720), (800, 600)));
    assert!(!resize_wanted((1280, 720), (1280, 720)));
    assert!(!resize_wanted((1280, 720), (0, 600)));
    assert!(!resize_wanted((1280, 720), (800, 0)));
}
