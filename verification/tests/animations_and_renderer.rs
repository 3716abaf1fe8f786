use std::io::Cursor;

use minecraft_plus_wayland::lock::animations::creeper::{
    clamped_progress, creeper_frame, uniform_bytes, UNIFORM_BYTES,
};
use minecraft_plus_wayland::lock::animations::torch::{
    encoded_boxes, encoded_present_uniforms, encoded_trace_uniforms, prepare_textures,
    scene_boxes, texture_file, GeometryBank, TemporalAccumulator, TextureError, BOX_COUNT,
    BOX_STRIDE, COPPER_SLOT, FIELD_OF_VIEW, MAX_CACHE_UPDATES, OWNER_MASK, REDSTONE_OFF_ONLY_FLAG,
    REDSTONE_ON_ONLY_FLAG, REDSTONE_SHEET_FLAG, REDSTONE_SLOT, SOUL_SLOT, TORCH_SLOT,
};
use minecraft_plus_wayland::lock::animations::triangle::rgba_bytes;
use minecraft_plus_wayland::lock::animations::{scene_of, Scene};
use minecraft_plus_wayland::lock::state::{
    AttemptId, LockVisual, CREEPER_APPROACH_DURATION, DISSOLVE_DURATION,
};
use minecraft_plus_wayland::modules::RenderSize;
use minecraft_plus_wayland::renderer::{
    debug_surface_format_override, preferred_surface_format, surface_action, RenderOutcome,
    RenderSchedule, SurfaceAction, SurfaceFormat, SurfaceStatus, FALLBACK_HEIGHT, FALLBACK_WIDTH,
};
use minecraft_plus_wayland::time::Instant;

fn bits(value: f32) -> u32 {
    value.to_bits()
}

#[test]
fn progress_is_clamped_to_the_shared_timeline() {
    let progress = |elapsed| {
        clamped_progress(elapsed, CREEPER_APPROACH_DURATION) as f64
            / CREEPER_APPROACH_DURATION as f64
    };
    assert_eq!(progress(0), 0.0);
    assert_eq!(progress(CREEPER_APPROACH_DURATION / 2), 0.5);
    assert_eq!(progress(CREEPER_APPROACH_DURATION * 2), 1.0);
}

#[test]
fn instant_success_approaches_while_the_first_half_dissolves() {
    let started_at = Instant { nanos: 77 };
    let visual = LockVisual::DissolvingCreeper {
        attempt: AttemptId::new(1),
        approach_started_at: started_at,
        started_at,
    };
    let now = Instant { nanos: 77 + CREEPER_APPROACH_DURATION };
    let frame = creeper_frame(visual, now).unwrap();
    assert_eq!(frame.approach as f64 / CREEPER_APPROACH_DURATION as f64, 1.0);
    assert_eq!(frame.dissolve as f64 / DISSOLVE_DURATION as f64, 0.5);
    assert!(frame.draw_head && frame.dissolving && !frame.red);
    assert!(!creeper_frame(visual, started_at).unwrap().dissolving);
}

#[test]
fn uniforms_follow_the_wgsl_layout() {
    let bytes = uniform_bytes(bits(1920.0), bits(1080.0), bits(0.25), bits(0.75), true, true);
    assert_eq!(bytes.len(), UNIFORM_BYTES);
    assert_eq!(&bytes[0..4], &1920.0_f32.to_ne_bytes());
    assert_eq!(&bytes[4..8], &1080.0_f32.to_ne_bytes());
    assert_eq!(&bytes[8..12], &0.25_f32.to_ne_bytes());
    assert_eq!(&bytes[12..16], &0.75_f32.to_ne_bytes());
    assert_eq!(&bytes[16..20], &1_u32.to_ne_bytes());
    assert_eq!(&bytes[20..24], &1_u32.to_ne_bytes());
    assert!(bytes[24..].iter().all(|byte| *byte == 0));
}

#[test]
fn visuals_have_their_scenes() {
    let now = Instant { nanos: 5 };
    assert_eq!(scene_of(LockVisual::Hidden), Scene::Nothing);
    assert_eq!(
        scene_of(LockVisual::Torch { mask: 5, state_id: 1 }),
        Scene::Torch { mask: 5 }
    );
    assert_eq!(scene_of(LockVisual::FatalBlack), Scene::Creeper);
    assert!(creeper_frame(LockVisual::Hidden, now).is_none());
    assert!(!creeper_frame(LockVisual::FatalBlack, now).unwrap().draw_head);
    let red = LockVisual::Creeper { approach_started_at: now, red: true };
    assert!(creeper_frame(red, now).unwrap().red);
}

#[test]
fn color_uniform_has_exact_vec4_layout() {
    let bytes = rgba_bytes(&[bits(1.0), bits(0.5), bits(0.25), bits(1.0)]);
    assert_eq!(&bytes[0..4], &1.0_f32.to_ne_bytes());
    assert_eq!(&bytes[12..16], &1.0_f32.to_ne_bytes());
}

#[test]
fn contribution_cache_accumulates_globally_until_resize() {
    let mut temporal = TemporalAccumulator::new();
    let size = RenderSize { width: 10, height: 8 };
    assert!(temporal.resize(size));
    assert_eq!(temporal.next_update().unwrap().sample_index, 0);
    assert_eq!(temporal.next_update().unwrap().sample_index, 1);

    assert!(!temporal.resize(size));
    let update = temporal.next_update().unwrap();
    assert_eq!(update.sample_index, 2);
    assert_eq!(update.sample_count, 3);
}

#[test]
fn resize_resets_only_the_changed_outputs_cache() {
    let mut temporal = TemporalAccumulator::new();
    let first = RenderSize { width: 10, height: 8 };
    assert!(temporal.resize(first));
    temporal.next_update();
    assert!(!temporal.resize(first));
    assert_eq!(temporal.updates, 1);

    assert!(temporal.resize(RenderSize { width: 11, height: 8 }));
    assert_eq!(temporal.updates, 0);
    temporal.clear();
    assert!(!temporal.needs_update());
}

#[test]
fn continuous_frames_stop_after_512_cache_updates() {
    let mut temporal = TemporalAccumulator::new();
    temporal.resize(RenderSize { width: 1, height: 1 });
    for expected in 0..MAX_CACHE_UPDATES {
        assert!(temporal.needs_update());
        assert_eq!(temporal.next_update().unwrap().sample_index, expected);
    }
    assert!(!temporal.needs_update());
    assert_eq!(temporal.next_update(), None);
}

#[test]
fn redstone_off_bank_is_diffuse_and_uses_the_minecraft_texture() {
    for box_data in &scene_boxes()[6..8] {
        assert_eq!(box_data.geometry_bank, GeometryBank::RedstoneOff);
        assert_eq!(box_data.light_level, bits(0.0));
        assert_eq!(box_data.texture_index, 5);
        assert_eq!(box_data.light_owner, None);
        assert!(!box_data.direct_light);
    }
}

#[test]
fn four_direct_sources_match_the_shader_index_table() {
    let boxes = scene_boxes();
    let expected = [
        (5, REDSTONE_SLOT),
        (9, COPPER_SLOT),
        (11, SOUL_SLOT),
        (13, TORCH_SLOT),
    ];
    for (index, slot) in expected {
        assert_eq!(boxes[index].light_owner, Some(slot));
        assert!(boxes[index].direct_light);
        assert!(f32::from_bits(boxes[index].light_level) > 0.5);
    }
}

#[test]
fn packed_box_flags_preserve_bank_owner_and_sheet_roles() {
    let boxes = scene_boxes();
    assert_eq!(boxes[0].flags() & REDSTONE_ON_ONLY_FLAG, REDSTONE_ON_ONLY_FLAG);
    assert_eq!(boxes[1].flags() & OWNER_MASK, 1);
    assert_ne!(boxes[1].flags() & REDSTONE_SHEET_FLAG, 0);
    assert_eq!(boxes[6].flags() & REDSTONE_OFF_ONLY_FLAG, REDSTONE_OFF_ONLY_FLAG);
    assert_eq!(boxes[6].flags() & OWNER_MASK, 0);
    assert_eq!(boxes[14].flags(), 0);
}

#[test]
fn scene_scalars_are_what_they_are_called() {
    let boxes = scene_boxes();
    assert_eq!(boxes.len(), BOX_COUNT);
    let vector = |x: f32, y: f32, z: f32| (bits(x), bits(y), bits(z));
    assert_eq!(boxes[0].min, vector(-0.5625, 0.4375, 0.0));
    assert_eq!(boxes[0].max, vector(-0.4375, 0.5625, 0.4375));
    assert_eq!(boxes[5].max, vector(-0.4375, 0.5625, 0.625));
    assert_eq!(boxes[1].light_level, bits(7.0));
    assert_eq!(boxes[9].light_level, bits(14.0));
    assert_eq!(boxes[11].light_level, bits(10.0));
    assert_eq!(boxes[9].texture_offset_positive, vector(0.0, 0.0, 0.0625));
    assert_eq!(boxes[9].texture_offset_negative, vector(0.0, 0.0, -0.4375));
    assert_eq!(boxes[16].min, vector(-1.0, -1.0, 0.0));
    assert_eq!(boxes[16].smoothness, bits(0.2));
    assert_eq!(FIELD_OF_VIEW, bits(70.0_f32.to_radians()));

    let bytes = encoded_boxes();
    assert_eq!(bytes.len(), BOX_COUNT * BOX_STRIDE);
    let word = |at: usize| u32::from_ne_bytes(bytes[at..at + 4].try_into().unwrap());
    assert_eq!(word(9 * 80), bits(0.4375));
    assert_eq!(word(9 * 80 + 16), bits(0.5625));
    assert_eq!(word(9 * 80 + 32), bits(14.0));
    assert_eq!(word(9 * 80 + 40), 1);
    assert_eq!(word(9 * 80 + 44), boxes[9].flags());
    assert_eq!(word(9 * 80 + 72), bits(-0.4375));

    let uniforms = encoded_trace_uniforms(bits(10.0), bits(8.0), 3);
    assert_eq!(uniforms.len(), 80);
    assert_eq!(&uniforms[0..4], &1.0f32.to_ne_bytes());
    assert_eq!(&uniforms[24..28], &1.0f32.to_ne_bytes());
    assert_eq!(&uniforms[32..36], &70.0_f32.to_radians().to_ne_bytes());
    assert_eq!(&uniforms[52..56], &(-3.0f32).to_ne_bytes());
    assert_eq!(&uniforms[68..72], &8.0f32.to_ne_bytes());
    assert_eq!(&uniforms[72..76], &3u32.to_ne_bytes());
    let present = encoded_present_uniforms(0b1010);
    assert_eq!(&present[0..4], &10u32.to_ne_bytes());
    assert_eq!(present.len(), 16);
}

fn png(width: u32, height: u32) -> Vec<u8> {
    let image =
        image::RgbaImage::from_fn(width, height, |x, y| image::Rgba([x as u8, y as u8, 1, 2]));
    let mut encoded = Cursor::new(Vec::new());
    image.write_to(&mut encoded, image::ImageFormat::Png).unwrap();
    encoded.into_inner()
}

#[test]
fn torch_textures_are_decoded_and_turned() {
    let prepared = prepare_textures(&vec![png(16, 16); 6]).unwrap();
    assert_eq!(prepared.len(), 6);
    assert_eq!(&prepared[3].pixels[0..4], &[0, 15, 1, 2]);
    assert!(matches!(prepare_textures(&vec![]), Err(TextureError::Count(0))));
    let mut odd = vec![png(16, 16); 6];
    odd[2] = png(16, 15);
    assert!(matches!(prepare_textures(&odd), Err(TextureError::Dimensions)));
    odd[4] = vec![1, 2, 3];
    assert!(matches!(prepare_textures(&odd), Err(TextureError::Image { layer: 4, .. })));
    assert_eq!(texture_file(0), "lock/torch/redstone_torch.png");
    assert_eq!(texture_file(5), "lock/torch/redstone_torch_off.png");
}

#[test]
fn surface_format_prefers_srgb_over_capability_order() {
    assert_eq!(
        preferred_surface_format(&[
            SurfaceFormat::Bgra8Unorm,
            SurfaceFormat::Rgba8UnormSrgb,
            SurfaceFormat::Bgra8UnormSrgb,
        ]),
        Some(SurfaceFormat::Rgba8UnormSrgb)
    );
}

#[test]
fn surface_format_falls_back_to_first_non_srgb_format() {
    assert_eq!(
        preferred_surface_format(&[SurfaceFormat::Rgba8Unorm, SurfaceFormat::Bgra8Unorm]),
        Some(SurfaceFormat::Rgba8Unorm)
    );
    assert_eq!(preferred_surface_format(&[]), None);
}

#[test]
fn debug_override_accepts_only_supported_unorm_surface_formats() {
    let supported = [SurfaceFormat::Rgba8UnormSrgb, SurfaceFormat::Rgba8Unorm];
    assert_eq!(
        debug_surface_format_override("rgba8unorm", &supported).unwrap(),
        SurfaceFormat::Rgba8Unorm
    );
    assert!(debug_surface_format_override("bgra8unorm", &supported).is_err());
    assert!(debug_surface_format_override("rgba16float", &supported).is_err());
}

#[test]
fn frames_are_timed_and_requested_once() {
    let start = Instant { nanos: 1_000 };
    let mut schedule = RenderSchedule::new(start);
    let size = schedule.requested_size(0, 0);
    assert_eq!((size.width, size.height), (FALLBACK_WIDTH, FALLBACK_HEIGHT));
    assert!(schedule.begin_frame(start).is_none());
    assert!(schedule.configured(RenderSize { width: 10, height: 20 }));
    schedule.initialized();
    let first = schedule.begin_frame(Instant { nanos: 1_500 }).unwrap();
    assert_eq!(first.elapsed, 500);
    assert_eq!((first.size.width, first.size.height), (10, 20));
    let second = schedule.begin_frame(Instant { nanos: 1_700 }).unwrap();
    assert_eq!(second.delta, 200);
    assert!(schedule.request_frame(true));
    assert!(!schedule.request_frame(true));
    schedule.frame_arrived();
    assert!(!schedule.request_frame(false));
    assert!(schedule.retry_skipped(RenderOutcome::Skipped));
    assert_eq!(surface_action(SurfaceStatus::Success), SurfaceAction::Draw);
}
