//! The scenes of a locked screen.

use vstd::prelude::*;

use crate::lock::state::LockVisual;

pub mod creeper;
pub mod torch;
pub mod triangle;

verus! {

/// Which scene draws a visual.
#[derive(Clone, Copy, Debug, PartialEq, Eq, Structural)]
pub enum Scene {
    Nothing,
    Torch { mask: u8 },
    Creeper,
}

/// Chooses the scene of a visual. The black screen is the creeper's scene without the creeper.
pub fn scene_of(visual: LockVisual) -> (scene: Scene)
    ensures
        scene == match visual {
            LockVisual::Hidden => Scene::Nothing,
            LockVisual::Torch { mask, .. } => Scene::Torch { mask },
            _ => Scene::Creeper,
        },
{
    match visual {
        LockVisual::Hidden => Scene::Nothing,
        LockVisual::Torch { mask, .. } => Scene::Torch { mask },
        _ => Scene::Creeper,
    }
}

} // verus!
