//! Items that pop out of the ground, fall back and vanish.

use vstd::prelude::*;

verus! {

pub const MAX_ITEMS: usize = 10;

/// When an item may appear: once in every bucket of time, as long as there is room.
#[derive(Clone, Copy, Debug, PartialEq, Eq, Structural)]
pub struct SpawnGate {
    pub last: u64,
}

impl SpawnGate {
    /// A gate that has seen the first bucket.
    pub fn new() -> (gate: Self)
        ensures
            gate.last == 0,
    {
        SpawnGate { last: 0 }
    }

    /// Takes note of a bucket and tells whether an item may appear in it.
    pub fn observe(&mut self, bucket: u64, item_count: usize) -> (may_spawn: bool)
        ensures
            final(self).last == bucket,
            may_spawn == (bucket != old(self).last && item_count < MAX_ITEMS),
    {
        if bucket == self.last {
            return false;
        }
        self.last = bucket;
        item_count < MAX_ITEMS
    }
}

/// What the GPU draws, after [`crate::modules::SRGB_TO_LINEAR`].
pub const SHADER: &'static str = r#"
struct Uniforms {
    mvp: mat4x4<f32>,
};

struct VertexInput {
    @location(0) position: vec3<f32>,
    @location(1) uv: vec2<f32>,
    @location(2) normal: vec3<f32>,
};

struct VertexOutput {
    @builtin(position) position: vec4<f32>,
    @location(0) uv: vec2<f32>,
    @location(1) light: f32,
};

@group(0) @binding(0) var<uniform> uniforms: Uniforms;
@group(0) @binding(1) var atlas: texture_2d<f32>;
@group(0) @binding(2) var atlas_sampler: sampler;

@vertex
fn vs_main(input: VertexInput) -> VertexOutput {
    var output: VertexOutput;
    output.position = uniforms.mvp * vec4<f32>(input.position, 1.0);
    output.uv = input.uv;
    output.light = 0.4 + 0.6 * max(
        dot(input.normal, normalize(vec3<f32>(2.0, 2.0, 3.0))),
        0.0,
    );
    return output;
}

// The models count V from the lower edge of the atlas, the sampler from the upper one.
fn atlas_color(input: VertexOutput) -> vec4<f32> {
    return textureSample(atlas, atlas_sampler, vec2<f32>(input.uv.x, 1.0 - input.uv.y));
}

@fragment
fn fs_srgb(input: VertexOutput) -> @location(0) vec4<f32> {
    let color = atlas_color(input);
    if (color.a < 0.1) {
        discard;
    }
    return vec4<f32>(to_linear(color.rgb * input.light), color.a);
}

@fragment
fn fs_unorm(input: VertexOutput) -> @location(0) vec4<f32> {
    let color = atlas_color(input);
    if (color.a < 0.1) {
        discard;
    }
    return vec4<f32>(color.rgb * input.light, 1.0);
}
"#;

} // verus!
