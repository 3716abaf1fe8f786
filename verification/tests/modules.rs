use std::io::{Cursor, Write};

use minecraft_plus_wayland::bytes::matrix_bytes;
use minecraft_plus_wayland::modules::block_list::LayoutError;
use minecraft_plus_wayland::modules::dvd_bounce::{BounceState, ResourceNeeds};
use minecraft_plus_wayland::modules::footprint::{
    draw_duration, footprint_bytes, global_bytes, FootprintState, Stamp, WalkerPhase, WalkerStep, MAX_FOOTPRINTS,
};
use minecraft_plus_wayland::modules::grass::{
    biome_bytes, candidate_column_bounds, grid_dimensions, GrassState, GridDimensions, MINUS_ONE,
    MINUS_ONE_DOUBLE, ONE,
};
use minecraft_plus_wayland::modules::item_bounce::BounceClock;
use minecraft_plus_wayland::modules::item_models::{
    can_parse, deindex_obj, load_manifest, load_model, load_obj, vertex_bytes, MeshError, ModelError,
    MODEL_COUNT,
};
use minecraft_plus_wayland::modules::item_pop::SpawnGate;
use minecraft_plus_wayland::modules::load_cube::{
    expected_dimension, random_direction, random_offset, read_atlas_spec, AtlasSpec, CubeState,
};
use minecraft_plus_wayland::modules::panorama::{
    choose_panorama, face_resource, load_faces, panorama_names, PanoramaError,
};
use minecraft_plus_wayland::modules::{
    blocks, creeper, dvd_bounce, grass, item_bounce, load_cube, squid, web_surface_fragment_entry,
    DvdBounceVariant, RenderSize,
};
use minecraft_plus_wayland::resources::ResourceError;
use minecraft_plus_wayland::text::NumberError;
use minecraft_plus_wayland::time::{milliseconds, seconds, whole_periods};
use rand::distributions::StandardNormal;
use rand::{Rng, RngCore, SeedableRng};
use rand_hc::Hc128Rng;

fn bits(value: f32) -> u32 {
    value.to_bits()
}

fn value(bytes: &[u8], index: usize) -> f32 {
    f32::from_ne_bytes(bytes[index * 4..index * 4 + 4].try_into().unwrap())
}

fn archive(entries: &[(&str, Vec<u8>)]) -> Vec<u8> {
    let mut writer = zip::ZipWriter::new(Cursor::new(Vec::new()));
    for (name, contents) in entries {
        writer
            .start_file(*name, zip::write::SimpleFileOptions::default())
            .unwrap();
        writer.write_all(contents).unwrap();
    }
    writer.finish().unwrap().into_inner()
}

fn png(width: u32, height: u32) -> Vec<u8> {
    let mut encoded = Cursor::new(Vec::new());
    image::RgbaImage::new(width, height)
        .write_to(&mut encoded, image::ImageFormat::Png)
        .unwrap();
    encoded.into_inner()
}

fn block_list(width: &str, count: &str, entries: usize) -> String {
    let mut list = format!("{width}\n{count}\n");
    for index in 0..entries {
        list.push_str(&format!("{} {} block_{index}\n", index / 32, index % 32));
    }
    list
}

#[test]
fn web_fragment_entry_matches_surface_encoding() {
    assert_eq!(
        web_surface_fragment_entry(
            wgpu::TextureFormat::Bgra8UnormSrgb.is_srgb(),
            "fs_srgb",
            "fs_unorm"
        ),
        "fs_srgb"
    );
    assert_eq!(
        web_surface_fragment_entry(wgpu::TextureFormat::Rgba8Unorm.is_srgb(), "fs_srgb", "fs_unorm"),
        "fs_unorm"
    );
}

#[test]
fn uniforms_follow_the_wgsl_scalar_layout() {
    let bytes = blocks::uniform_bytes(
        bits(80.0),
        bits(45.0),
        bits(1.5),
        bits(0.25),
        bits(0.5),
        bits(32.0),
        bits(463.0),
    );
    assert_eq!(bytes.len(), blocks::UNIFORM_BYTES);
    assert_eq!(&bytes[0..4], &80.0f32.to_ne_bytes());
    assert_eq!(&bytes[4..8], &45.0f32.to_ne_bytes());
    assert_eq!(&bytes[8..12], &1.5f32.to_ne_bytes());
    assert_eq!(&bytes[12..16], &0.25f32.to_ne_bytes());
    assert_eq!(&bytes[16..20], &0.5f32.to_ne_bytes());
    assert_eq!(&bytes[20..24], &32.0f32.to_ne_bytes());
    assert_eq!(&bytes[24..28], &463.0f32.to_ne_bytes());
}

#[test]
fn block_layouts_are_read_and_checked() {
    assert_eq!(blocks::load_block_layout(&block_list("32", " 463 ", 463)), Ok((32, 463)));
    assert_eq!(blocks::load_block_layout("32\r\n1\r\n\r\n0 0 stone"), Ok((32, 1)));
    assert_eq!(blocks::load_block_layout(""), Err(LayoutError::MissingLineWidth));
    assert_eq!(blocks::load_block_layout("x\n1\n"), Err(LayoutError::LineWidth(NumberError::InvalidDigit)));
    assert_eq!(blocks::load_block_layout("32\n"), Err(LayoutError::MissingSlotCount));
    assert_eq!(blocks::load_block_layout("32\n-1\n"), Err(LayoutError::SlotCount(NumberError::InvalidDigit)));
    assert_eq!(blocks::load_block_layout("0\n1\n"), Err(LayoutError::ZeroDimension));
    assert_eq!(
        blocks::load_block_layout(&block_list("32", "4", 3)),
        Err(LayoutError::Listed { declared: 4, listed: 3 })
    );
    assert_eq!(blocks::check_atlas(32, 1024), Ok(()));
    assert_eq!(blocks::check_atlas(32, 1025), Err(LayoutError::AtlasHeight(1025)));
    assert_eq!(blocks::check_atlas(16, 1), Err(LayoutError::AtlasWidth(16)));
}

#[test]
fn uniforms_follow_wgsl_layout() {
    let bytes =
        creeper::uniform_bytes(bits(1.5), bits(0.25), bits(1080.0 / 480.0), bits(1920.0), bits(1080.0));
    assert_eq!(bytes.len(), creeper::UNIFORM_BYTES);
    assert_eq!(&bytes[0..4], &1.5f32.to_ne_bytes());
    assert_eq!(&bytes[4..8], &0.25f32.to_ne_bytes());
    assert_eq!(&bytes[8..12], &2.25f32.to_ne_bytes());
    assert_eq!(&bytes[12..16], &500.0f32.to_ne_bytes());
    assert_eq!(&bytes[16..20], &1920.0f32.to_ne_bytes());
    assert_eq!(&bytes[20..24], &1080.0f32.to_ne_bytes());
    assert_eq!(&bytes[24..28], &20.0f32.to_ne_bytes());
    for _ in 0..100 {
        assert!(creeper::draw_seed() < 1 << 24);
    }
}

#[test]
fn uniforms_use_native_f32_layout() {
    let bytes = squid::uniform_bytes(bits(1.5), bits(1920.0), bits(1080.0), bits(0.25));
    assert_eq!(&bytes[0..4], &1.5f32.to_ne_bytes());
    assert_eq!(&bytes[4..8], &1920.0f32.to_ne_bytes());
    assert_eq!(&bytes[8..12], &1080.0f32.to_ne_bytes());
    assert_eq!(&bytes[12..16], &0.25f32.to_ne_bytes());
}

#[test]
fn variant_resource_needs_exclude_unused_gpu_allocations() {
    assert_eq!(
        dvd_bounce::resource_needs(DvdBounceVariant::Direct, false),
        ResourceNeeds {
            direct_pipeline: true,
            trail_pipeline: false,
            trail_texture: false,
            trail_copy_resources: false,
        }
    );
    assert_eq!(
        dvd_bounce::resource_needs(DvdBounceVariant::Direct, true),
        ResourceNeeds {
            direct_pipeline: true,
            trail_pipeline: false,
            trail_texture: false,
            trail_copy_resources: false,
        }
    );
    assert_eq!(
        dvd_bounce::resource_needs(DvdBounceVariant::Trail, false),
        ResourceNeeds {
            direct_pipeline: false,
            trail_pipeline: true,
            trail_texture: true,
            trail_copy_resources: true,
        }
    );
    assert_eq!(
        dvd_bounce::resource_needs(DvdBounceVariant::Trail, true),
        ResourceNeeds {
            direct_pipeline: true,
            trail_pipeline: true,
            trail_texture: true,
            trail_copy_resources: true,
        }
    );
}

#[test]
fn slot_id_maps_to_the_webgl_column_and_row() {
    assert_eq!(dvd_bounce::slot_offset(0), (0, 0));
    assert_eq!(dvd_bounce::slot_offset(31), (31, 0));
    assert_eq!(dvd_bounce::slot_offset(32), (0, 1));
    assert_eq!(dvd_bounce::slot_offset(462), (14, 14));
}

fn initial_velocity(rng: &mut impl Rng) -> (i32, i32) {
    loop {
        let candidate = (
            (rng.sample::<f64, _>(StandardNormal) * 7.0) as i32,
            (rng.sample::<f64, _>(StandardNormal) * 7.0) as i32,
        );
        if dvd_bounce::valid_initial_velocity(candidate) {
            return candidate;
        }
    }
}

#[test]
fn standard_normal_initial_velocity_is_deterministic_for_a_fixed_seed() {
    let seed = [0x5a; 32];
    let first = initial_velocity(&mut Hc128Rng::from_seed(seed));
    let second = initial_velocity(&mut Hc128Rng::from_seed(seed));
    assert_eq!(first, second);
    assert_eq!(first, (-12, -15));
    assert!(dvd_bounce::valid_initial_velocity(first));
}

#[test]
fn initial_velocity_rejects_zero_components_and_short_vectors() {
    for rejected in [(0, 10), (10, 0), (1, 1), (3, 3), (4, 2)] {
        assert!(!dvd_bounce::valid_initial_velocity(rejected), "accepted {rejected:?}");
    }
    for accepted in [(1, 5), (-5, 1), (4, 3), (-4, -3)] {
        assert!(dvd_bounce::valid_initial_velocity(accepted), "rejected {accepted:?}");
    }
}

#[test]
fn uniform_layout_matches_wgsl() {
    let bytes = dvd_bounce::uniform_bytes(
        (bits(12.0), bits(-4.0)),
        (bits(1280.0), bits(720.0)),
        (bits(31.0), bits(14.0)),
    );
    assert_eq!(&bytes[0..4], &12.0f32.to_ne_bytes());
    assert_eq!(&bytes[4..8], &(-4.0f32).to_ne_bytes());
    assert_eq!(&bytes[8..12], &1280.0f32.to_ne_bytes());
    assert_eq!(&bytes[12..16], &720.0f32.to_ne_bytes());
    assert_eq!(&bytes[16..20], &31.0f32.to_ne_bytes());
    assert_eq!(&bytes[20..24], &14.0f32.to_ne_bytes());
}

#[test]
fn tiles_are_read_as_columns_and_rows() {
    let slots = dvd_bounce::load_slots(&block_list("32", "40", 40)).unwrap();
    assert_eq!(slots.len(), 40);
    assert_eq!(slots[33], (1, 1));
    let fault = |text: &str| dvd_bounce::load_slots(text).unwrap_err();
    assert_eq!(fault("31\n1\n0 0 a\n"), LayoutError::AtlasWidth(31));
    assert_eq!(fault("32\n1\nx 0 a\n"), LayoutError::Row(0, NumberError::InvalidDigit));
    assert_eq!(fault("32\n2\n0 0 a\n1\n"), LayoutError::MissingColumn(1));
    assert_eq!(fault("32\n1\n0 y a\n"), LayoutError::Column(0, NumberError::InvalidDigit));
    assert_eq!(fault("32\n1\n0 0\n"), LayoutError::InvalidEntry(0));
    assert_eq!(fault("32\n1\n32 0 a\n"), LayoutError::InvalidEntry(0));
    assert_eq!(fault("32\n2\n0 0 a\n"), LayoutError::Listed { declared: 2, listed: 1 });
}

#[test]
fn the_block_bounces_and_keeps_its_speed() {
    let size = RenderSize { width: 600, height: 500 };
    let mut state = BounceState::new((40, 7));
    assert!(!state.advance(0, size));
    assert!(!state.changed_this_tick);
    for tick in 1..500u64 {
        let before = state;
        let bounced = state.advance(tick, size);
        assert!(state.changed_this_tick);
        assert_eq!(state.position.0, before.position.0 + before.velocity.0);
        assert_eq!(state.velocity.0.abs(), 40);
        assert_eq!(state.velocity.1.abs(), 7);
        assert!(state.position.0.abs() <= 300 - 128 + 40);
        assert!(state.position.1.abs() <= 250 - 128 + 7);
        assert_eq!(bounced, state.velocity != before.velocity);
        assert!(!state.advance(tick, size));
    }
    let mut late = BounceState::new((40, 7));
    late.advance(90, size);
    assert_eq!(late.position, (40, 7));
    late.select(462);
    assert_eq!(late.slot_offset, (14, 14));
    let mut drawn = BounceState::new((1000, 1));
    drawn.update(1, size, 463);
    assert_eq!(drawn.velocity.0, -1000);
    let (column, row) = drawn.slot_offset;
    assert!(row * 32 + column < 463);
}

#[test]
fn grid_dimensions_match_web_allocation_strategy() {
    for (width, visible_columns, allocated_columns) in
        [(800, 7, 20), (960, 8, 20), (1280, 11, 22), (1920, 16, 32)]
    {
        assert_eq!(
            grid_dimensions(RenderSize { width, height: 1080 }),
            GridDimensions { allocated_columns, visible_columns, rows: 9 }
        );
    }
}

#[test]
fn candidate_range_reaches_the_allocated_work_area() {
    for allocated_columns in [20, 22, 32] {
        let (start, end) = candidate_column_bounds(allocated_columns);
        assert_eq!(start, 1);
        assert_eq!(end, allocated_columns);
        assert!(start <= 10 && 10 < end, "column > 9 must be reachable");
        assert_eq!(end - 1, allocated_columns - 1);
    }
}

fn glsl_column_major_rotation(position: [f32; 2], rotation: f32) -> [f32; 2] {
    let (s, c) = rotation.sin_cos();
    [
        c * position[0] + s * position[1],
        -s * position[0] + c * position[1],
    ]
}

#[test]
fn pi_over_two_rotation_matches_glsl_column_major_mat3() {
    let rotated = glsl_column_major_rotation([0.25, -0.5], std::f32::consts::FRAC_PI_2);
    assert!((rotated[0] + 0.5).abs() < 1.0e-6);
    assert!((rotated[1] + 0.25).abs() < 1.0e-6);
}

#[test]
fn state_storage_uses_allocated_columns() {
    let state = GrassState::new(22, 11, 9, [3; 32]);
    assert_eq!(state.biomes.len(), 22 * 9);
    assert_eq!(state.visible_columns, 11);
    assert!(state.biomes[..9].iter().all(|biome| *biome == (0, 0)));
    assert!(state.biomes[9..].iter().all(|biome| *biome == (ONE, ONE)));
    assert_eq!(ONE, bits(1.0));
    assert_eq!(MINUS_ONE, bits(-1.0));
    assert_eq!(MINUS_ONE_DOUBLE, (-1.0f64).to_bits());
}

#[test]
fn uniforms_keep_the_32_byte_wgsl_scalar_layout() {
    let bytes = grass::uniform_bytes(
        bits(32.0),
        bits(16.0),
        bits(9.0),
        bits(0.25),
        bits(3.0),
        bits(4.5),
        bits(2.5),
    );
    assert_eq!(bytes.len(), grass::UNIFORM_BYTES);
    let values = bytes
        .chunks_exact(4)
        .map(|chunk| f32::from_ne_bytes(chunk.try_into().unwrap()))
        .collect::<Vec<_>>();
    assert_eq!(values, [32.0, 16.0, 9.0, 0.25, 3.0, 4.5, 2.5, 0.0]);
}

#[test]
fn delayed_time_does_not_catch_up_multiple_buckets() {
    let mut state = GrassState::new(18, 16, 9, [1; 32]);
    state.choose_candidate(0, true);
    let after_first = state.last_bucket;
    state.choose_candidate(100, true);
    assert_eq!(state.last_bucket, Some(100));
    assert_ne!(after_first, state.last_bucket);
    assert_eq!(state.choose_candidate(100, true), None);
}

#[test]
fn recycling_a_column_preserves_the_world_rotation_coordinate() {
    let mut state = GrassState::new(4, 2, 2, [2; 32]);
    let biome = |value: f32| (bits(value), bits(0.0));
    state.biomes = [0.0, 0.1, 0.2, 0.3, 0.4, 0.5, 0.6, 0.7].map(biome).to_vec();
    state.scroll_left(12.5f64.to_bits(), bits(12.5));
    assert_eq!(state.biomes[0..6], [0.2, 0.3, 0.4, 0.5, 0.6, 0.7].map(biome));
    assert_eq!(state.biomes[6..], [(ONE, ONE), (ONE, ONE)]);
    assert_eq!(state.offset, 1);
    assert_eq!(state.shift_start, bits(12.5));
    assert_eq!(state.last_shift, 12.5f64.to_bits());
}

#[test]
fn grass_candidates_follow_the_generator() {
    let mut state = GrassState::new(20, 8, 9, [5; 32]);
    let mut mirror = Hc128Rng::from_seed([5; 32]);
    for bucket in 0..200u64 {
        let column = mirror.gen_range(1u32, 20);
        let row = mirror.gen_range(0u32, 9);
        assert_eq!(state.choose_candidate(bucket, true), Some((column, row)));
    }
    let passed_over = (200..400u64)
        .filter(|bucket| match state.choose_candidate(*bucket, false) {
            None => true,
            Some((column, _)) => {
                assert!(column <= 9);
                false
            }
        })
        .count();
    assert!(passed_over > 0);
    for _ in 0..400 {
        mirror.gen_range(0u32, 9);
    }
    let mut growth = GrassState::new(20, 8, 9, [6; 32]);
    let mut other = Hc128Rng::from_seed([6; 32]);
    for _ in 0..50 {
        assert_eq!(growth.draw_growth(), other.gen_range(0, 4) != 3);
        let target = match other.gen_range(0, 3) {
            0 => (0, 0),
            1 => (ONE, 0),
            _ => (0, ONE),
        };
        assert_eq!(growth.draw_target(), target);
    }
}

#[test]
fn grass_spreads_from_its_neighbors() {
    let mut state = GrassState::new(12, 6, 3, [8; 32]);
    assert_eq!(state.neighbors(1, 0), [0, 6, 4]);
    assert_eq!(state.neighbors(1, 1), [1, 7, 3, 5]);
    assert_eq!(state.neighbors(11, 2), [32, 34]);
    state.plant(2, 1, (7, 8), 1, 2);
    assert_eq!(state.biomes[7], (7, 8));
    assert_eq!(state.offset, 0);
    state.plant(10, 0, (9, 10), 3, 4);
    assert_eq!(state.biomes[27], (9, 10));
    assert_eq!(state.offset, 1);
    assert_eq!((state.last_shift, state.shift_start), (3, 4));
    let encoded = biome_bytes(&vec![(1, 2), (3, 4)]);
    assert_eq!(encoded.len(), 16);
    assert_eq!(&encoded[8..12], &3u32.to_ne_bytes());
    let dimensions = GridDimensions { allocated_columns: 20, visible_columns: 7, rows: 9 };
    let fresh = GrassState::with_random_seed(dimensions);
    assert!(!fresh.needs_resize(dimensions));
    assert!(state.needs_resize(dimensions));
}

#[test]
fn a_field_without_rows_is_empty() {
    let mut empty = GrassState::new(0, 0, 0, [3; 32]);
    assert!(empty.biomes.is_empty());
    assert!(GrassState::new(20, 7, 0, [3; 32]).biomes.is_empty());
    empty.last_bucket = Some(4);
    assert_eq!(empty.choose_candidate(4, true), None);
    assert_eq!(empty.last_bucket, Some(4));
}

#[test]
fn transition_moves_current_directional_face_to_front() {
    let mut state = CubeState::new(32, 463, [7; 32]).unwrap();
    state.offsets = vec![(0, 0), (1, 0), (2, 0), (3, 0), (4, 0), (5, 0)];
    state.direction = 3;
    assert!(state.advance(1));
    assert_eq!(state.offsets[0], (3, 0));
    assert_ne!(state.offsets[3], (3, 0));
    assert!((1..=4).contains(&state.direction));
    assert_eq!(state.offsets[5], (5, 0));
    let faces = state.offsets.clone();
    assert!(state.advance(1));
    assert_eq!(state.offsets, faces);
    assert_eq!(state.visible_offsets(), &faces[..5]);
}

#[test]
fn offset_selection_stays_inside_manifest_range() {
    let mut random = Hc128Rng::from_seed([42; 32]);
    for _ in 0..10_000 {
        let (column, row) = random_offset(&mut random, 32, 463).unwrap();
        let id = row * 32 + column;
        assert!(id < 463);
    }
}

#[test]
fn drawn_tiles_and_directions_follow_the_generator() {
    let mut random = Hc128Rng::from_seed([43; 32]);
    let mut mirror = Hc128Rng::from_seed([43; 32]);
    for _ in 0..1_000 {
        let zone = 463u32 << 463u32.leading_zeros();
        let slot = loop {
            let product = 463u64 * u64::from(mirror.next_u32());
            if (product as u32) < zone {
                break (product >> 32) as u32;
            }
        };
        assert_eq!(random_offset(&mut random, 32, 463), Some((slot % 32, slot / 32)));
        let direction = loop {
            let value = mirror.next_u32();
            if value & (1 << 29) == 0 {
                break (value >> 30) as u8 + 1;
            }
        };
        assert_eq!(random_direction(&mut random), Some(direction));
    }
    let cube = CubeState::with_random_seed(32, 463).unwrap();
    assert_eq!(cube.offsets.len(), 6);
}

#[test]
fn uniform_layout_has_wgsl_uniform_alignment() {
    let bytes =
        load_cube::uniform_bytes(&[bits(1.0); 16], &[(bits(2.0), bits(3.0)); 5], bits(32.0));
    assert_eq!(bytes.len(), load_cube::UNIFORM_BYTES);
    assert_eq!(&bytes[0..4], &1.0f32.to_ne_bytes());
    assert_eq!(&bytes[64..68], &2.0f32.to_ne_bytes());
    assert_eq!(&bytes[68..72], &3.0f32.to_ne_bytes());
    assert_eq!(&bytes[72..80], &[0; 8]);
    assert_eq!(&bytes[144..148], &32.0f32.to_ne_bytes());
}

#[test]
fn atlas_specifications_allow_no_blanks_around_numbers() {
    assert_eq!(
        read_atlas_spec(&block_list("32", "5", 5)),
        Ok(AtlasSpec { line_width: 32, slot_count: 5 })
    );
    assert_eq!(
        read_atlas_spec(&block_list(" 32", "5", 5)),
        Err(LayoutError::LineWidth(NumberError::InvalidDigit))
    );
    assert_eq!(
        read_atlas_spec(&block_list("", "5", 5)),
        Err(LayoutError::LineWidth(NumberError::Empty))
    );
    assert_eq!(
        read_atlas_spec(&block_list("32", "4294967296", 5)),
        Err(LayoutError::SlotCount(NumberError::TooLarge))
    );
    assert_eq!(
        expected_dimension(AtlasSpec { line_width: 32, slot_count: 5 }),
        Ok(512)
    );
    assert_eq!(
        expected_dimension(AtlasSpec { line_width: 1 << 28, slot_count: 5 }),
        Err(LayoutError::AtlasOverflow)
    );
}

fn stamp(number: u32) -> Stamp {
    Stamp {
        center_x: number,
        center_y: number + 1,
        turn: number + 2,
        birth: number + 3,
        red: number + 4,
        green: number + 5,
        blue: number + 6,
    }
}

#[test]
fn footprints_are_spaced_age_and_always_fit() {
    let mut state = FootprintState::new();
    assert!(!state.begin(0));
    let mut most = 0;
    for tick in 1..1_000u64 {
        assert!(state.begin(tick));
        for walker in 0..4 {
            if state.advance_walker(walker) == WalkerStep::NeedsRun {
                state.start_run(walker, 100);
            }
            let left = state.next_foot_is_left(walker);
            if state.tread(walker, tick, stamp(tick as u32)) {
                assert_eq!(state.walkers[walker].left_foot, left);
            }
        }
        assert!(state.footprints.iter().all(|print| tick - print.birth_tick <= 99));
        most = most.max(state.footprints.len());
    }
    assert_eq!(most, 60);
    assert!(most <= MAX_FOOTPRINTS);
    assert!(!state.begin(999));
}

#[test]
fn walkers_run_and_rest() {
    let mut state = FootprintState::new();
    assert_eq!(state.advance_walker(1), WalkerStep::NeedsRun);
    state.start_run(1, 3);
    assert_eq!(state.advance_walker(1), WalkerStep::Moved { progress: 1 });
    assert_eq!(state.advance_walker(1), WalkerStep::Moved { progress: 2 });
    assert_eq!(state.advance_walker(1), WalkerStep::Stopped);
    let WalkerPhase::Paused { remaining } = state.walkers[1].phase else {
        panic!("a finished run is followed by a pause");
    };
    assert!((20..40).contains(&remaining));
    for _ in 1..remaining {
        assert_eq!(state.advance_walker(1), WalkerStep::Waited);
    }
    assert_eq!(state.advance_walker(1), WalkerStep::NeedsRun);
}

#[test]
fn footprint_buffers_are_little_endian() {
    let globals = global_bytes(bits(1.0), bits(0.5), bits(0.25));
    assert_eq!(&globals[0..4], &1.0f32.to_le_bytes());
    assert_eq!(&globals[8..12], &0.25f32.to_le_bytes());
    assert_eq!(&globals[12..16], &[0; 4]);

    let mut state = FootprintState::new();
    state.begin(7);
    assert!(state.tread(2, 7, stamp(10)));
    assert!(!state.tread(2, 7, stamp(20)));
    assert!(state.tread(3, 7, stamp(30)));
    let bytes = footprint_bytes(&state.footprints);
    assert_eq!(bytes.len(), 64 * 32);
    assert_eq!(&bytes[0..4], &10u32.to_le_bytes());
    assert_eq!(&bytes[24..28], &16u32.to_le_bytes());
    assert_eq!(&bytes[28..32], &[0; 4]);
    assert_eq!(&bytes[32..36], &30u32.to_le_bytes());
    assert!(bytes[64..].iter().all(|byte| *byte == 0));
}

fn manifest(count: usize) -> String {
    (0..count).map(|index| format!("item_models/item_{index}.obj\n")).collect()
}

#[test]
fn manifests_list_every_model_once() {
    let names = load_manifest(&manifest(MODEL_COUNT)).unwrap();
    assert_eq!(names.len(), MODEL_COUNT);
    assert_eq!(names[127], "item_models/item_127.obj");
    assert!(load_manifest(&manifest(MODEL_COUNT - 1)).is_none());
    let mut repeated = manifest(MODEL_COUNT - 1);
    repeated.push_str("item_models/item_0.obj\n");
    assert!(load_manifest(&repeated).is_none());
    let mut elsewhere = manifest(MODEL_COUNT - 1);
    elsewhere.push_str("models/item.obj\n");
    assert!(load_manifest(&elsewhere).is_none());
    let spaced = manifest(MODEL_COUNT).replace('\n', "\n\n");
    assert!(load_manifest(&spaced).is_some());
}

const QUAD: &str = "o quad\nv 0 0 0\nv 1 0 0\nv 1 0.5 1\nv 0 0 1\nvt 0 0\nvt 1 0\nvt 1 1\nvt 0 1\n\
vn 0 1 0\ng side\nf 1/1/1 2/2/1 3/3/1 4/4/1\n";

#[test]
fn model_faces_fan_out_into_triangles() {
    assert!(can_parse(QUAD.as_bytes()));
    let mesh = load_obj(QUAD.as_bytes()).unwrap();
    assert_eq!(mesh.positions.len(), 4);
    let vertices = deindex_obj(&mesh, true).unwrap();
    assert_eq!(vertices.len(), 6);
    let place = |x: f32, y: f32, z: f32| (bits(x), bits(y), bits(z));
    assert_eq!(vertices[0].position, place(0.0, 0.0, 0.0));
    assert_eq!(vertices[1].position, place(1.0, 0.0, 0.0));
    assert_eq!(vertices[2].position, place(1.0, 0.5, 1.0));
    assert_eq!(vertices[3].position, place(0.0, 0.0, 0.0));
    assert_eq!(vertices[4].position, place(1.0, 0.5, 1.0));
    assert_eq!(vertices[5].position, place(0.0, 0.0, 1.0));
    assert_eq!(vertices[5].uv, (bits(0.0), bits(1.0)));
    assert_eq!(vertices[5].normal, place(0.0, 1.0, 0.0));
    assert_eq!(vertex_bytes(&vertices, true).len(), 6 * 32);
    let plain = vertex_bytes(&vertices, false);
    assert_eq!(plain.len(), 6 * 20);
    assert_eq!(value(&plain, 5 * 2 + 1), 0.5);
}

#[test]
fn broken_models_are_refused() {
    let fault = |source: &str, normals: bool| {
        deindex_obj(&load_obj(source.as_bytes()).unwrap(), normals).unwrap_err()
    };
    assert_eq!(fault("v 0 0 0\nvt 0 0\nf 1/1 1/1\n", false), MeshError::ShortFace);
    assert_eq!(fault("v 0 0 0\nf 1 1 1\n", false), MeshError::MissingTexture);
    assert_eq!(fault("v 0 0 0\nvt 0 0\nf 1/1 1/1 1/1\n", true), MeshError::MissingNormal);
    assert_eq!(fault("v 0 0 0\nvt 0 0\nf 1/1 2/1 1/1\n", false), MeshError::OutOfRange);
    assert_eq!(fault("v 0 0 0\n", false), MeshError::NoFaces);
    assert!(matches!(load_obj(b"v 0 zero 0\n"), Err(ModelError::Parse(_))));
    assert!(can_parse("# \u{e9}t\u{e9}\no \u{e9}\n".as_bytes()));
    assert!(can_parse(" \u{e9}\nv 0 0 0\n g\n".as_bytes()));
    assert!(can_parse(b"\xa0o \xff"));
    assert!(!can_parse("g\u{a0}name\n".as_bytes()));
    assert!(!can_parse("v 0 0 0\n\u{3000}g name".as_bytes()));
    assert!(!can_parse("\u{a0}o name\n".as_bytes()));
}

#[test]
fn webgl_signed_clip_depth_is_remapped_into_webgpu_range() {
    let remap = |web_z: f32, web_w: f32| 0.5 * (web_z + web_w);
    assert_eq!(remap(-0.0625, 1.0), 0.46875);
    assert_eq!(remap(0.0625, 1.0), 0.53125);
    assert!(item_bounce::SHADER.contains("0.5 * (web_clip.z + web_clip.w)"));
}

#[test]
fn items_move_once_for_every_accepted_frame() {
    let mut clock = BounceClock::from_seed([12; 32]);
    assert!(clock.accept(true));
    assert!(!clock.accept(true));
    assert_eq!(clock.accepted_ticks, 1);
    assert!(clock.accept(false));
    assert_eq!(clock.accepted_ticks, 2);
    assert!(clock.needs_run(false));
    let mut mirror = Hc128Rng::from_seed([12; 32]);
    let model = clock.begin_run(MODEL_COUNT as u32);
    assert_eq!(model, mirror.gen_range(0u32, MODEL_COUNT as u32));
    assert!(!clock.needs_run(false));
    assert!(clock.needs_run(true));
    assert!(BounceClock::new().needs_run(false));
}

const UPDATE_INTERVAL_SECONDS: f64 = 1.0 / 15.0;
const INTERNAL_TICKS_PER_FRAME: f64 = 1.0 / 15.0;

/// A bouncing item with its times in seconds.
struct BouncingItem {
    clock: BounceClock,
    last_accepted: f64,
    started_at: f64,
    duration: f64,
}

impl BouncingItem {
    fn from_seed(seed: [u8; 32]) -> Self {
        BouncingItem {
            clock: BounceClock::from_seed(seed),
            last_accepted: 0.0,
            started_at: 0.0,
            duration: 0.0,
        }
    }

    /// Tells whether the item moved and whether it began a run.
    fn advance(&mut self, elapsed: f64) -> (bool, bool) {
        if !self.clock.accept(elapsed - self.last_accepted <= UPDATE_INTERVAL_SECONDS) {
            return (false, false);
        }
        self.last_accepted = elapsed;
        let now = self.clock.accepted_ticks as f64 * INTERNAL_TICKS_PER_FRAME;
        let begins = self.clock.needs_run(now - self.started_at > self.duration);
        if begins {
            self.clock.begin_run(MODEL_COUNT as u32);
            let generator = &mut self.clock.generator;
            let _amplitude = generator.gen_range(720.0 * 0.25_f32, 720.0 * 0.8);
            let _phase = -generator.gen_range(0.0_f32, 1.0);
            let _decay = generator.gen_range(0.01_f32, 0.2);
            let crossing_time = generator.gen_range(2.0_f32, 8.0);
            let time_scale = generator.gen_range(1.0_f32, 5.0);
            self.started_at = now;
            self.duration = f64::from(crossing_time * time_scale);
        }
        (true, begins)
    }
}

#[test]
fn run_replacement_uses_strict_greater_than_and_no_catch_up() {
    let mut state = BouncingItem::from_seed([11; 32]);
    assert!(state.advance(0.0).1);
    let started_at = state.started_at;
    let equality_time = 3.0 * INTERNAL_TICKS_PER_FRAME;
    state.duration = equality_time - started_at;
    assert!(!state.advance(0.1).1);
    assert!(!state.advance(0.2).1);
    assert_eq!(state.started_at, started_at);
    assert!(state.advance(0.3).1);
    assert_eq!(state.clock.accepted_ticks, 4);
}

#[test]
fn timestamp_gate_is_strict_and_does_not_catch_up() {
    let mut state = BouncingItem::from_seed([12; 32]);
    assert!(state.advance(0.0).0);
    assert!(!state.advance(UPDATE_INTERVAL_SECONDS).0);
    assert_eq!(state.clock.accepted_ticks, 1);
    assert!(state.advance(UPDATE_INTERVAL_SECONDS + 1e-9).0);
    assert_eq!(state.clock.accepted_ticks, 2);
    assert!(state.advance(10.0).0);
    assert_eq!(state.clock.accepted_ticks, 3);
}

#[test]
fn whole_periods_are_counted_exactly() {
    let period = milliseconds(50);
    for (elapsed, count) in [(0, 0), (49, 0), (50, 1), (99, 1), (100, 2), (150, 3), (350, 7)] {
        assert_eq!(whole_periods(milliseconds(elapsed), period), count);
    }
    assert_eq!(whole_periods(milliseconds(50) - 1, period), 0);
    assert_eq!(whole_periods(seconds(1), milliseconds(25)), 40);
    assert_eq!(whole_periods(u128::MAX, 1), u64::MAX);
}

#[test]
fn bouncing_blocks_start_with_one_of_the_textures() {
    let mut state = BounceState::new((1, 1));
    for _ in 0..64 {
        let before = state.position;
        state.select_any(3);
        assert!(state.slot_offset.0 < 3);
        assert_eq!(state.slot_offset.1, 0);
        assert_eq!(state.position, before);
    }
    let mut plain = BounceState::new((1, 1));
    plain.update(1, RenderSize { width: 640, height: 480 }, 0);
    assert_eq!((plain.position, plain.slot_offset), ((1, 1), (0, 0)));
    let mut edge = BounceState::new((i32::MIN, 1));
    assert!(!edge.advance(0, RenderSize { width: 640, height: 480 }));
    assert_eq!(edge.position, (0, 0));
}

#[test]
fn runs_last_for_a_hundred_to_three_hundred_ticks() {
    for _ in 0..256 {
        assert!((100..300).contains(&draw_duration()));
    }
}

#[test]
fn sampled_run_respects_all_web_ranges_and_crossing_identity() {
    let mut clock = BounceClock::from_seed([7; 32]);
    assert!(clock.accept(false));
    assert!(clock.needs_run(false));
    let model = clock.begin_run(MODEL_COUNT as u32);
    let height = 720.0f32;
    let width = 1_280.0f32;
    let amplitude = clock.generator.gen_range(height * 0.25, height * 0.8);
    let phase = -clock.generator.gen_range(0.0_f32, 1.0);
    let decay = clock.generator.gen_range(0.01_f32, 0.2);
    let crossing_time = clock.generator.gen_range(2.0_f32, 8.0);
    let time_scale = clock.generator.gen_range(1.0_f32, 5.0);
    let duration = f64::from(crossing_time * time_scale);
    let speed = -(width + 64.0) / crossing_time;
    assert_eq!(model, 824);
    assert_eq!(amplitude, 317.147_74);
    assert_eq!(phase, -0.399_992_82);
    assert_eq!(decay, 0.028_307_216);
    assert_eq!(duration, 4.226_469_993_591_309);
    assert_eq!(speed, -623.598_4);
    assert_eq!(time_scale, 1.961_026_7);
    assert!((180.0..576.0).contains(&amplitude));
    assert!(phase <= 0.0 && phase > -1.0);
    assert!((0.01..0.2).contains(&decay));
    assert!((1.0..5.0).contains(&time_scale));
    let crossing_time = duration as f32 / time_scale;
    assert!((2.0..8.0).contains(&crossing_time));
    assert!((speed * crossing_time + 1_344.0).abs() < 0.001);
}

#[test]
fn uniform_layout_contains_the_captured_web_vp_and_motion_values() {
    let bytes = item_bounce::uniform_bytes(
        bits(2.0 / 1_280.0),
        bits(2.0 / 720.0),
        bits(0.25),
        bits(317.0),
        bits(-0.5),
        bits(0.125),
        bits(-600.0),
    );
    assert_eq!(bytes.len(), item_bounce::UNIFORM_BYTES);
    assert!((value(&bytes, 0) - 2.0 / 1_280.0).abs() < f32::EPSILON);
    assert!((value(&bytes, 5) - 2.0 / 720.0).abs() < f32::EPSILON);
    assert_eq!(value(&bytes, 10), 0.125);
    assert_eq!(value(&bytes, 12), 1.0);
    assert_eq!(value(&bytes, 13), -1.0);
    assert_eq!(value(&bytes, 16), 0.25);
    assert_eq!(value(&bytes, 17), 317.0);
    assert_eq!(value(&bytes, 18), -0.5);
    assert_eq!(value(&bytes, 19), 0.125);
    assert_eq!(value(&bytes, 20), -600.0);
}

#[test]
fn items_appear_once_in_a_bucket_while_there_is_room() {
    let mut gate = SpawnGate::new();
    assert!(!gate.observe(0, 0));
    assert!(gate.observe(1, 9));
    assert!(!gate.observe(1, 9));
    assert!(!gate.observe(5, 10));
    assert!(!gate.observe(5, 0));
}

#[test]
fn panoramas_are_listed_and_loaded_in_layer_order() {
    let names = panorama_names("  first \n\nsecond\n").unwrap();
    assert_eq!(names, ["first", "second"]);
    assert!(names.contains(choose_panorama(&names).unwrap()));
    assert_eq!(choose_panorama(&names[1..].to_vec()).unwrap(), "second");
    assert_eq!(choose_panorama(&Vec::new()), None);
    assert_eq!(panorama_names(" \n"), Err(PanoramaError::NoNames));
    assert_eq!(panorama_names("ok\na/b\n"), Err(PanoramaError::InvalidName));
    assert_eq!(panorama_names("a\\b\n"), Err(PanoramaError::InvalidName));
    let resources = (0..6).map(|layer| face_resource("x", layer)).collect::<Vec<_>>();
    assert_eq!(
        resources,
        [
            "panoramas/x/panorama_1.png",
            "panoramas/x/panorama_3.png",
            "panoramas/x/panorama_4.png",
            "panoramas/x/panorama_5.png",
            "panoramas/x/panorama_0.png",
            "panoramas/x/panorama_2.png",
        ]
    );
    let broken = archive(&[("panoramas/x/panorama_1.png", png(4, 4))]);
    let fault = load_faces(&broken, "x").unwrap_err();
    assert_eq!(fault.layer, 0);
    assert_eq!(fault.resource, "panoramas/x/panorama_1.png");
    assert!(matches!(fault.error, ResourceError::Dimensions { width: 4, height: 4, .. }));
    let missing = load_faces(&archive(&[]), "x").unwrap_err();
    assert!(matches!(missing.error, ResourceError::Archive(_)));
}

#[test]
fn panorama_faces_are_all_loaded() {
    let face = png(1024, 1024);
    let entries = (0..6)
        .map(|number| (format!("panoramas/y/panorama_{number}.png"), face.clone()))
        .collect::<Vec<_>>();
    let borrowed = entries
        .iter()
        .map(|(name, contents)| (name.as_str(), contents.clone()))
        .collect::<Vec<_>>();
    let faces = load_faces(&archive(&borrowed), "y").unwrap();
    assert_eq!(faces.len(), 6);
    assert!(faces.iter().all(|image| image.pixels.len() == 4 * 1024 * 1024));
}

#[test]
fn uniforms_are_a_tightly_packed_column_major_mat4() {
    let mut matrix = [bits(0.0); 16];
    matrix[0] = bits(1.0);
    matrix[15] = bits(1.0);
    let bytes = matrix_bytes(&matrix);
    assert_eq!(bytes.len(), 64);
    assert_eq!(&bytes[0..4], &1.0f32.to_ne_bytes());
    assert_eq!(&bytes[60..64], &1.0f32.to_ne_bytes());
}

#[test]
fn a_model_file_is_read_into_triangles() {
    let vertices = load_model(QUAD.as_bytes(), true).unwrap();
    assert_eq!(vertices, deindex_obj(&load_obj(QUAD.as_bytes()).unwrap(), true).unwrap());
    assert!(matches!(load_model(b"v 0 zero 0\n", false), Err(ModelError::Parse(_))));
    assert!(matches!(
        load_model(b"v 0 0 0\n", false),
        Err(ModelError::Mesh(MeshError::NoFaces))
    ));
}
