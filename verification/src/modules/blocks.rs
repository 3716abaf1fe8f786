//! A plane of blocks under a camera that turns and drifts.

use vstd::prelude::*;

use crate::bytes;
use crate::modules::block_list;
use crate::modules::block_list::{LayoutError, ATLAS_DIMENSION, TILE_DIMENSION};
use crate::text;

verus! {

pub const UNIFORM_BYTES: usize = 32;

/// The layout that a block list describes.
pub open spec fn block_layout(list: Seq<char>) -> Result<(u32, u32), LayoutError> {
    block_list::complete(
        block_list::declared(text::lines(list), true),
        block_list::entries(text::lines(list)).len(),
    )
}

/// Reads the line width and the slot count of a block list.
pub fn load_block_layout(list: &str) -> (layout: Result<(u32, u32), LayoutError>)
    ensures
        layout == block_layout(list@),
{
    block_list::read_layout(list, true)
}

/// Accepts a layout that fills the width of the atlas and fits into its height.
pub fn check_atlas(line_width: u32, slot_count: u32) -> (checked: Result<(), LayoutError>)
    requires
        line_width > 0,
        slot_count > 0,
    ensures
        checked == if line_width * TILE_DIMENSION != ATLAS_DIMENSION {
            Err::<(), LayoutError>(LayoutError::AtlasWidth(line_width))
        } else if slot_count > line_width * line_width {
            Err(LayoutError::AtlasHeight(slot_count))
        } else {
            Ok(())
        },
{
    assert(line_width * TILE_DIMENSION == ATLAS_DIMENSION <==> line_width == 32)
        by (nonlinear_arith);
    if line_width != ATLAS_DIMENSION / TILE_DIMENSION {
        return Err(LayoutError::AtlasWidth(line_width));
    }
    assert(line_width * line_width == 1024) by (nonlinear_arith)
        requires
            line_width == 32,
    ;
    let full_rows: u32 = slot_count / line_width;
    let required_rows: u32 = if slot_count % line_width == 0 {
        full_rows
    } else {
        full_rows + 1
    };
    if required_rows * TILE_DIMENSION > ATLAS_DIMENSION {
        return Err(LayoutError::AtlasHeight(slot_count));
    }
    Ok(())
}

/// The uniform block: the number of blocks across and down the screen, the time, the two seeds, the
/// line width, the slot count and a word of padding. Each scalar is passed by its bits.
pub fn uniform_bytes(
    slots_x: u32,
    slots_y: u32,
    time: u32,
    vertex_seed: u32,
    fragment_seed: u32,
    line_width: u32,
    slot_count: u32,
) -> (encoded: Vec<u8>)
    ensures
        encoded@.len() == UNIFORM_BYTES,
        bytes::holds_words(
            encoded@,
            seq![slots_x, slots_y, time, vertex_seed, fragment_seed, line_width, slot_count, 0u32],
        ),
{
    let words: [u32; 8] = [
        slots_x,
        slots_y,
        time,
        vertex_seed,
        fragment_seed,
        line_width,
        slot_count,
        0,
    ];
    assert(words@ == seq![
        slots_x,
        slots_y,
        time,
        vertex_seed,
        fragment_seed,
        line_width,
        slot_count,
        0u32,
    ]);
    bytes::encode_words(words.as_slice())
}

/// A block list that is accepted has exactly as many entries as the atlas shows, and every one of
/// them has a tile.
pub proof fn lemma_accepted_lists_fit(list: Seq<char>, line_width: u32, slot_count: u32)
    requires
        block_layout(list) == Ok::<(u32, u32), LayoutError>((line_width, slot_count)),
        line_width * TILE_DIMENSION == ATLAS_DIMENSION,
        slot_count <= line_width * line_width,
    ensures
        block_list::entries(text::lines(list)).len() == slot_count,
        forall|slot: u32|
            slot < slot_count ==> (#[trigger] (slot / line_width)) * TILE_DIMENSION
                + TILE_DIMENSION <= ATLAS_DIMENSION,
{
    assert(line_width == 32) by (nonlinear_arith)
        requires
            line_width * TILE_DIMENSION == ATLAS_DIMENSION,
    ;
    assert(line_width * line_width == 1024) by (nonlinear_arith)
        requires
            line_width == 32,
    ;
}

/// What the GPU draws, after [`crate::modules::SRGB_TO_LINEAR`].
pub const SHADER: &'static str = r#"
struct ModuleUniforms {
    slots_per_screen: vec2<f32>,
    time: f32,
    vertex_seed: f32,
    fragment_seed: f32,
    line_width: f32,
    slot_count: f32,
    _padding: f32,
};

struct VertexOutput {
    @builtin(position) position: vec4<f32>,
    @location(0) tex: vec2<f32>,
};

@group(0) @binding(0) var<uniform> uniforms: ModuleUniforms;
@group(0) @binding(1) var blocks_texture: texture_2d<f32>;
@group(0) @binding(2) var blocks_sampler: sampler;

fn turned(value: vec2<f32>, angle: f32) -> vec2<f32> {
    let s = sin(angle);
    let c = cos(angle);
    return vec2<f32>(c * value.x + s * value.y, -s * value.x + c * value.y);
}

@vertex
fn vs_main(@builtin(vertex_index) vertex_index: u32) -> VertexOutput {
    let positions = array<vec2<f32>, 6>(
        vec2<f32>(-1.0, -1.0), vec2<f32>(1.0, -1.0), vec2<f32>(-1.0, 1.0),
        vec2<f32>(1.0, -1.0), vec2<f32>(1.0, 1.0), vec2<f32>(-1.0, 1.0),
    );
    let texcoords = array<vec2<f32>, 6>(
        vec2<f32>(0.0, 1.0), vec2<f32>(1.0, 1.0), vec2<f32>(0.0, 0.0),
        vec2<f32>(1.0, 1.0), vec2<f32>(1.0, 0.0), vec2<f32>(0.0, 0.0),
    );
    let time = uniforms.time;
    let seed = uniforms.vertex_seed;
    let angle = 6.283185307179586 * sin(time / 35.0 + seed);
    let zoom_factor = -cos(time / 12.0 + seed * 2.0)
        * sin(time / 100.0 + seed * 3.0) + 1.7;
    let zoom = uniforms.slots_per_screen / 8.0 * zoom_factor;
    let drift_time = time / 100.0 + seed;
    let translation = vec2<f32>(
        50.0 * sin(11.0 * drift_time + seed)
            + 1000.0 * cos(13.0 * drift_time / 100.0 + 2.0 * seed)
                * sqrt(drift_time / 50.0),
        67.0 * cos(9.0 * drift_time + 3.0 * seed)
            + 1050.0 * sin(7.0 * drift_time / 100.0 + 4.0 * seed)
                * sqrt(drift_time / 50.0),
    );

    var output: VertexOutput;
    output.position = vec4<f32>(positions[vertex_index], 0.0, 1.0);
    output.tex = turned(zoom * texcoords[vertex_index], angle) + translation;
    return output;
}

fn rand(value: f32) -> f32 {
    return fract(sin(value * 12.9898 + uniforms.fragment_seed) * 43758.5453);
}

@fragment
fn fs_main(input: VertexOutput) -> @location(0) vec4<f32> {
    let slot_position = floor(input.tex);
    let slot_fraction = fract(input.tex);
    let slot_id = floor(uniforms.slot_count
        * rand(11.0 * slot_position.x + 23.0 * slot_position.y + 8.0));
    let slot_row = floor(slot_id / uniforms.line_width);
    let slot_column = slot_id - slot_row * uniforms.line_width;
    let angle = 1.5707963267948966
        * floor(4.0 * rand(23.0 * slot_position.x + 19.0 * slot_position.y + 3.0));
    let position_in_slot = turned(slot_fraction - vec2<f32>(0.5), angle) + vec2<f32>(0.5);
    let atlas_uv = (vec2<f32>(slot_column, slot_row) + position_in_slot) / uniforms.line_width;
    let color = textureSample(blocks_texture, blocks_sampler, atlas_uv);
    return vec4<f32>(to_linear(color.rgb), 1.0);
}
"#;

} // verus!
