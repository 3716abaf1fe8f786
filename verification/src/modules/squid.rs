//! Squids that swim across the screen.

use vstd::prelude::*;

use crate::bytes;

verus! {

pub const SQUID_ATLAS_WIDTH: u32 = 128;

pub const SQUID_ATLAS_HEIGHT: u32 = 640;

pub const SQUID_INSTANCE_COUNT: u32 = 32;

/// The uniform block: the time, the width and height of the screen, and the seed. Each scalar is
/// passed by its bits.
pub fn uniform_bytes(time: u32, width: u32, height: u32, seed: u32) -> (encoded: Vec<u8>)
    ensures
        encoded@.len() == 16,
        bytes::holds_words(encoded@, seq![time, width, height, seed]),
{
    let words: [u32; 4] = [time, width, height, seed];
    assert(words@ == seq![time, width, height, seed]);
    bytes::encode_words(words.as_slice())
}

/// What the GPU draws, after [`crate::modules::SRGB_TO_LINEAR`].
pub const SHADER: &'static str = r#"
struct ModuleUniforms {
    time: f32,
    width: f32,
    height: f32,
    seed: f32,
};

struct VertexOutput {
    @builtin(position) position: vec4<f32>,
    @location(0) uv: vec2<f32>,
};

@group(0) @binding(0) var<uniform> uniforms: ModuleUniforms;
@group(0) @binding(1) var squid_atlas: texture_2d<f32>;
@group(0) @binding(2) var squid_sampler: sampler;

fn rand(value: f32) -> f32 {
    return fract(sin(value * 12.9898 + uniforms.seed) * 43758.5453);
}

@vertex
fn vs_main(
    @builtin(vertex_index) vertex_index: u32,
    @builtin(instance_index) instance_index: u32,
) -> VertexOutput {
    let corners = array<vec2<f32>, 6>(
        vec2<f32>(0.0, 0.0), vec2<f32>(1.0, 0.0), vec2<f32>(0.0, 1.0),
        vec2<f32>(1.0, 0.0), vec2<f32>(1.0, 1.0), vec2<f32>(0.0, 1.0),
    );
    let corner = corners[vertex_index];

    let fid = f32(instance_index);
    let scale = max(0.5, 2.5 * rand(17.0 * fid + 3.0 + 7.0));
    let run_duration = max(2.0 / scale, 1.0) * (5.0 + 30.0 * rand(7.0 * fid + 2.0));
    let time_offset = 3.0 + 5.0 * rand(23.0 * fid + 1.0);
    let run = (uniforms.time + time_offset) / run_duration;
    let run_integer = floor(run);
    let cycles_per_run = max(2.0 / scale, 1.0)
        * (5.0 + 6.0 * rand(3.0 * fid + 11.0 + 3.0 * run_integer));
    let delta_y = uniforms.height * (2.0 * rand(13.0 * fid + 5.0 * run_integer) - 1.0);
    let variant = floor(min(run_integer / 30.0, 1.0)
        * 1.02 * rand(7.0 * fid + 2.0 * run_integer));

    let cycle = fract(run) * cycles_per_run;
    let cycle_phase = fract(cycle);
    let frame = floor(cycle_phase * 10.0);
    let progress = (floor(cycle) + pow(cycle_phase, 8.0)) / cycles_per_run;
    let sprite_size = 64.0 * scale;
    let x = (1.0 - progress) * (uniforms.width + sprite_size) - sprite_size;
    let y = (1.0 - progress) * uniforms.height + delta_y;
    let pixel_position = (corner * 64.0 - vec2<f32>(32.0)) * scale + vec2<f32>(x, y);

    var output: VertexOutput;
    output.position = vec4<f32>(
        pixel_position.x * 2.0 / uniforms.width - 1.0,
        pixel_position.y * 2.0 / uniforms.height - 1.0,
        0.0,
        1.0,
    );
    output.uv = vec2<f32>((corner.x + variant) / 2.0, (1.0 - corner.y + frame) / 10.0);
    return output;
}

@fragment
fn fs_srgb(input: VertexOutput) -> @location(0) vec4<f32> {
    let color = textureSample(squid_atlas, squid_sampler, input.uv);
    if (color.a == 0.0) {
        discard;
    }
    return vec4<f32>(to_linear(color.rgb), color.a);
}

@fragment
fn fs_unorm(input: VertexOutput) -> @location(0) vec4<f32> {
    let color = textureSample(squid_atlas, squid_sampler, input.uv);
    if (color.a == 0.0) {
        discard;
    }
    return color;
}
"#;

} // verus!
