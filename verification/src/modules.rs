//! What every wallpaper module shares.

use vstd::prelude::*;

use crate::time::Duration;

pub mod alpha_fluids;
pub mod block_list;
pub mod blocks;
pub mod creeper;
pub mod dvd_bounce;
pub mod footprint;
pub mod grass;
pub mod item_bounce;
pub mod item_models;
pub mod item_pop;
pub mod load_cube;
pub mod panorama;
pub mod squid;

verus! {

#[derive(Clone, Copy, Debug, PartialEq, Eq, Structural)]
pub struct RenderSize {
    pub width: u32,
    pub height: u32,
}

#[derive(Clone, Copy, Debug, PartialEq, Eq, Structural)]
pub struct FrameInfo {
    pub elapsed: Duration,
    pub delta: Duration,
    pub size: RenderSize,
}

#[derive(Clone, Copy, Debug, PartialEq, Eq, Structural)]
pub enum AlphaFluidVariant {
    Water,
    Lava,
}

#[derive(Clone, Copy, Debug, PartialEq, Eq, Structural)]
pub enum DvdBounceVariant {
    Trail,
    Direct,
}

/// Chooses the fragment shader that undoes the encoding which an sRGB surface applies.
pub fn web_surface_fragment_entry<'a>(
    surface_is_srgb: bool,
    srgb_entry: &'a str,
    unorm_entry: &'a str,
) -> (entry: &'a str)
    ensures
        entry == if surface_is_srgb {
            srgb_entry
        } else {
            unorm_entry
        },
{
    if surface_is_srgb {
        srgb_entry
    } else {
        unorm_entry
    }
}

/// Undoes the encoding that an sRGB target applies to what a fragment shader writes.
pub const SRGB_TO_LINEAR: &'static str = r#"
fn srgb_to_linear(channel: f32) -> f32 {
    if (channel <= 0.04045) {
        return channel / 12.92;
    }
    return pow((channel + 0.055) / 1.055, 2.4);
}

fn to_linear(color: vec3<f32>) -> vec3<f32> {
    return vec3<f32>(
        srgb_to_linear(color.r),
        srgb_to_linear(color.g),
        srgb_to_linear(color.b),
    );
}
"#;

} // verus!
