//! A swarm of creepers that comes towards the screen.

use vstd::prelude::*;

use crate::bytes;
use crate::random;

verus! {

pub const CREEPER_DIMENSION: u32 = 8;

pub const INSTANCE_COUNT: u32 = 512;

pub const UNIFORM_BYTES: usize = 32;

/// The bits of the scalar 500, the distance at which a creeper appears.
pub const MAX_DISTANCE: u32 = 0x43fa_0000;

/// The bits of the scalar 20, the speed of a creeper.
pub const SPEED: u32 = 0x41a0_0000;

/// Draws the numerator of a seed below one, in units of two to the minus twenty-fourth: the upper
/// bits of the first word of a freshly seeded HC-128 generator.
pub fn draw_seed() -> (seed: u32)
    ensures
        seed < 0x100_0000,
        exists|entropy: Seq<u8>|
            entropy.len() == 32 && seed == #[trigger] random::hc128_words(entropy)[0] / 256,
{
    let entropy = random::seed();
    let mut generator = random::seeded(entropy);
    let word = random::next_word(&mut generator);
    assert(entropy@.len() == 32 && word == random::hc128_words(entropy@)[0]);
    word / 256
}

/// The uniform block: the time, the seed, the scale of the screen, the greatest distance, the width
/// and height of the screen, the speed and a word of padding. Each scalar is passed by its bits.
pub fn uniform_bytes(time: u32, seed: u32, scale: u32, width: u32, height: u32) -> (encoded: Vec<u8>)
    ensures
        encoded@.len() == UNIFORM_BYTES,
        bytes::holds_words(
            encoded@,
            seq![time, seed, scale, MAX_DISTANCE, width, height, SPEED, 0u32],
        ),
{
    let words: [u32; 8] = [time, seed, scale, MAX_DISTANCE, width, height, SPEED, 0];
    assert(words@ == seq![time, seed, scale, MAX_DISTANCE, width, height, SPEED, 0u32]);
    bytes::encode_words(words.as_slice())
}

/// What the GPU draws, after [`crate::modules::SRGB_TO_LINEAR`].
pub const SHADER: &'static str = r#"
struct ModuleUniforms {
    time: f32,
    seed: f32,
    viewport_scale: f32,
    max_distance: f32,
    viewport: vec2<f32>,
    speed: f32,
    _padding: f32,
};

struct VertexOutput {
    @builtin(position) position: vec4<f32>,
    @location(0) uv: vec2<f32>,
    @location(1) dim: f32,
};

@group(0) @binding(0) var<uniform> uniforms: ModuleUniforms;
@group(0) @binding(1) var creeper_texture: texture_2d<f32>;
@group(0) @binding(2) var creeper_sampler: sampler;

fn rand(value: f32) -> f32 {
    return fract(sin(value * 12.9898 + uniforms.seed) * 43758.5453);
}

@vertex
fn vs_main(
    @builtin(vertex_index) vertex_index: u32,
    @builtin(instance_index) instance_index: u32,
) -> VertexOutput {
    let corners = array<vec2<f32>, 6>(
        vec2<f32>(0.0, 0.0), vec2<f32>(1.0, 0.0), vec2<f32>(0.0, 1.0),
        vec2<f32>(1.0, 0.0), vec2<f32>(1.0, 1.0), vec2<f32>(0.0, 1.0),
    );
    let corner = corners[vertex_index];

    let id = f32(instance_index);
    let time_offset = rand(id) * 100.0;
    let target_position = vec2<f32>(
        uniforms.viewport.x * (rand(21.0 * id) - 0.5),
        uniforms.viewport.y * (rand(55.0 * id) - 0.5),
    );
    let period = 30.0 - clamp(uniforms.speed, 0.0, 29.0);
    let scale = fract((uniforms.time + time_offset) / period);
    let distance = uniforms.max_distance * (1.0 - scale);
    let projected = target_position * (uniforms.max_distance / 2.0) / distance;
    let view = uniforms.viewport / 2.0
        + projected
        + (corner * 64.0 - vec2<f32>(32.0)) * pow(scale, 3.0) * uniforms.viewport_scale;

    var output: VertexOutput;
    output.position = vec4<f32>(
        view.x * 2.0 / uniforms.viewport.x - 1.0,
        view.y * 2.0 / uniforms.viewport.y - 1.0,
        0.5 - scale / 8.0,
        1.0,
    );
    output.uv = vec2<f32>(corner.x, 1.0 - corner.y);
    output.dim = scale;
    return output;
}

@fragment
fn fs_main(input: VertexOutput) -> @location(0) vec4<f32> {
    let sampled = textureSample(creeper_texture, creeper_sampler, input.uv);
    // A wallpaper is opaque, however dim the creeper.
    return vec4<f32>(to_linear(sampled.rgb * pow(input.dim, 4.0)), 1.0);
}
"#;

} // verus!
