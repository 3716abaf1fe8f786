//! An item that bounces across the screen and leaves a trail.

use vstd::prelude::*;

use crate::bytes;
use crate::random;

verus! {

pub const UNIFORM_BYTES: usize = 96;

/// The bits of the scalar one.
pub const ONE: u32 = 0x3f80_0000;

/// The bits of the scalar minus one.
pub const MINUS_ONE: u32 = 0xbf80_0000;

/// The bits of the scalar one eighth, by which depths are scaled.
pub const DEPTH_SCALE: u32 = 0x3e00_0000;

/// How often the item has moved, and whether it is on a run.
pub struct BounceClock {
    pub accepted_ticks: u64,
    pub accepted_before: bool,
    pub running: bool,
    pub generator: rand_hc::Hc128Rng,
}

impl BounceClock {
    /// The clock of an item that has not moved yet, with the generator of a seed.
    pub fn from_seed(seed: [u8; 32]) -> (clock: Self)
        ensures
            clock.accepted_ticks == 0,
            !clock.accepted_before,
            !clock.running,
            random::words_to_come(clock.generator) == random::hc128_words(seed@),
    {
        BounceClock {
            accepted_ticks: 0,
            accepted_before: false,
            running: false,
            generator: random::seeded(seed),
        }
    }

    /// The clock of an item that has not moved yet, with a seed from the thread's generator.
    pub fn new() -> (clock: Self)
        ensures
            clock.accepted_ticks == 0,
            !clock.accepted_before,
            !clock.running,
            exists|seed: Seq<u8>|
                seed.len() == 32 && random::words_to_come(clock.generator)
                    == #[trigger] random::hc128_words(seed),
    {
        let seed = random::seed();
        assert(seed@.len() == 32);
        BounceClock::from_seed(seed)
    }

    /// Moves the item by one tick, unless the last move was too recent. However late a frame comes,
    /// the item moves by no more than one tick.
    pub fn accept(&mut self, too_soon: bool) -> (accepted: bool)
        ensures
            accepted == !(old(self).accepted_before && too_soon),
            final(self).accepted_before == (old(self).accepted_before || accepted),
            final(self).accepted_ticks == if accepted && old(self).accepted_ticks < u64::MAX {
                (old(self).accepted_ticks + 1) as u64
            } else {
                old(self).accepted_ticks
            },
            final(self).running == old(self).running,
            final(self).generator == old(self).generator,
    {
        if self.accepted_before && too_soon {
            return false;
        }
        self.accepted_before = true;
        self.accepted_ticks = self.accepted_ticks.saturating_add(1);
        true
    }

    /// Whether another run must begin: the first one, or one after a run that is over.
    pub fn needs_run(&self, run_over: bool) -> (needs: bool)
        ensures
            needs == (!self.running || run_over),
    {
        !self.running || run_over
    }

    /// Begins a run and draws its model: the first word that picks one of the models decides.
    pub fn begin_run(&mut self, model_count: u32) -> (model: u32)
        requires
            model_count > 0,
        ensures
            model < model_count,
            random::draws(
                random::words_to_come(old(self).generator),
                0,
                model_count,
                model,
                random::words_to_come(final(self).generator),
            ),
            final(self).running,
            final(self).accepted_ticks == old(self).accepted_ticks,
            final(self).accepted_before == old(self).accepted_before,
    {
        self.running = true;
        random::between(&mut self.generator, 0, model_count)
    }
}

/// The words of the uniform block: the matrix that maps pixels from the lower right corner, the
/// motion of the run and three words of padding.
pub open spec fn uniform_words(
    scale_x: u32,
    scale_y: u32,
    cycle_time: u32,
    amplitude: u32,
    phase: u32,
    decay: u32,
    speed: u32,
) -> Seq<u32> {
    seq![
        scale_x,
        0,
        0,
        0,
        0,
        scale_y,
        0,
        0,
        0,
        0,
        DEPTH_SCALE,
        0,
        ONE,
        MINUS_ONE,
        0,
        ONE,
        cycle_time,
        amplitude,
        phase,
        decay,
        speed,
        0,
        0,
        0,
    ]
}

/// Lays out the uniform block. Each scalar is passed by its bits.
pub fn uniform_bytes(
    scale_x: u32,
    scale_y: u32,
    cycle_time: u32,
    amplitude: u32,
    phase: u32,
    decay: u32,
    speed: u32,
) -> (encoded: Vec<u8>)
    ensures
        encoded@.len() == UNIFORM_BYTES,
        bytes::holds_words(
            encoded@,
            uniform_words(scale_x, scale_y, cycle_time, amplitude, phase, decay, speed),
        ),
{
    let words: [u32; 24] = [
        scale_x,
        0,
        0,
        0,
        0,
        scale_y,
        0,
        0,
        0,
        0,
        DEPTH_SCALE,
        0,
        ONE,
        MINUS_ONE,
        0,
        ONE,
        cycle_time,
        amplitude,
        phase,
        decay,
        speed,
        0,
        0,
        0,
    ];
    assert(words@ == uniform_words(scale_x, scale_y, cycle_time, amplitude, phase, decay, speed));
    bytes::encode_words(words.as_slice())
}

/// The shaders that draw the item on its trail and copy the trail to the screen. Clip depths from
/// minus one to one are remapped to those from zero to one.
pub const SHADER: &'static str = r#"
struct Uniforms {
    vp: mat4x4<f32>,
    motion_a: vec4<f32>,
    motion_b: vec4<f32>,
};

struct ItemInput {
    @location(0) position: vec3<f32>,
    @location(1) uv: vec2<f32>,
};

struct VertexOutput {
    @builtin(position) position: vec4<f32>,
    @location(0) uv: vec2<f32>,
};

@group(0) @binding(0) var<uniform> uniforms: Uniforms;
@group(0) @binding(1) var atlas: texture_2d<f32>;
@group(0) @binding(2) var atlas_sampler: sampler;

@vertex
fn vs_item(input: ItemInput) -> VertexOutput {
    let cycle_time = uniforms.motion_a.x;
    let amplitude = uniforms.motion_a.y;
    let phase = uniforms.motion_a.z;
    let decay = uniforms.motion_a.w;
    let speed = uniforms.motion_b.x;
    let angle = cycle_time;
    let sine = sin(angle);
    let cosine = cos(angle);
    let rotated = vec3<f32>(
        cosine * input.position.x - sine * input.position.z,
        input.position.y,
        sine * input.position.x + cosine * input.position.z,
    );
    let x = cycle_time * speed;
    let y = abs(cos(3.14159265358979323846 * cycle_time + phase)
        * amplitude * exp(-decay * cycle_time));

    var output: VertexOutput;
    let web_clip = uniforms.vp * vec4<f32>(
        64.0 * rotated.x + x,
        64.0 * rotated.y + y,
        rotated.z,
        1.0,
    );
    output.position = vec4<f32>(
        web_clip.xy,
        0.5 * (web_clip.z + web_clip.w),
        web_clip.w,
    );
    output.uv = vec2<f32>(input.uv.x, 1.0 - input.uv.y);
    return output;
}

@fragment
fn fs_item(input: VertexOutput) -> @location(0) vec4<f32> {
    let color = textureSample(atlas, atlas_sampler, input.uv);
    if (color.a < 0.1) {
        discard;
    }
    return color;
}

struct CopyOutput {
    @builtin(position) position: vec4<f32>,
    @location(0) uv: vec2<f32>,
};

@group(0) @binding(3) var trail: texture_2d<f32>;
@group(0) @binding(4) var trail_sampler: sampler;

@vertex
fn vs_copy(@builtin(vertex_index) index: u32) -> CopyOutput {
    let positions = array<vec2<f32>, 6>(
        vec2<f32>(-1.0, -1.0), vec2<f32>(1.0, -1.0), vec2<f32>(-1.0, 1.0),
        vec2<f32>(1.0, -1.0), vec2<f32>(1.0, 1.0), vec2<f32>(-1.0, 1.0),
    );
    let texcoords = array<vec2<f32>, 6>(
        vec2<f32>(0.0, 1.0), vec2<f32>(1.0, 1.0), vec2<f32>(0.0, 0.0),
        vec2<f32>(1.0, 1.0), vec2<f32>(1.0, 0.0), vec2<f32>(0.0, 0.0),
    );
    var output: CopyOutput;
    output.position = vec4<f32>(positions[index], 0.0, 1.0);
    output.uv = texcoords[index];
    return output;
}

fn srgb_to_linear(channel: f32) -> f32 {
    if (channel <= 0.04045) {
        return channel / 12.92;
    }
    return pow((channel + 0.055) / 1.055, 2.4);
}

@fragment
fn fs_copy_srgb(input: CopyOutput) -> @location(0) vec4<f32> {
    let color = textureSample(trail, trail_sampler, input.uv);
    return vec4<f32>(
        srgb_to_linear(color.r),
        srgb_to_linear(color.g),
        srgb_to_linear(color.b),
        1.0,
    );
}

@fragment
fn fs_copy_unorm(input: CopyOutput) -> @location(0) vec4<f32> {
    return vec4<f32>(textureSample(trail, trail_sampler, input.uv).rgb, 1.0);
}
"#;

} // verus!
