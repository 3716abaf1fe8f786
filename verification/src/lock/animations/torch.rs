//! Four torches whose light is traced a little further with every frame.

use vstd::prelude::*;

use crate::bytes;
use crate::modules::RenderSize;
use crate::resources;
use crate::resources::{ResourceError, RgbaImage};

verus! {

pub const MAX_CACHE_UPDATES: u32 = 512;

pub const UNIFORM_BYTES: usize = 80;

pub const PRESENT_UNIFORM_BYTES: usize = 16;

pub const BOX_STRIDE: usize = 80;

pub const BOX_COUNT: usize = 18;

pub const TEXTURE_COUNT: usize = 6;

pub const TEXTURE_DIMENSION: u32 = 16;

pub const REDSTONE_SLOT: u8 = 0;

pub const COPPER_SLOT: u8 = 1;

pub const SOUL_SLOT: u8 = 2;

pub const TORCH_SLOT: u8 = 3;

pub const OWNER_MASK: u32 = 7;

pub const DIRECT_LIGHT_FLAG: u32 = 8;

pub const REDSTONE_ON_ONLY_FLAG: u32 = 16;

pub const REDSTONE_OFF_ONLY_FLAG: u32 = 32;

pub const REDSTONE_SHEET_FLAG: u32 = 64;

/// The bits of the field of view, seventy degrees in radians.
pub const FIELD_OF_VIEW: u32 = 0x3f9c_61aa;

// The bits of the scalars that the scene is made of.
pub const ZERO: u32 = 0x0000_0000;

pub const ONE: u32 = 0x3f80_0000;

pub const MINUS_ONE: u32 = 0xbf80_0000;

pub const HALF: u32 = 0x3f00_0000;

pub const SEVEN_SIXTEENTHS: u32 = 0x3ee0_0000;

pub const NINE_SIXTEENTHS: u32 = 0x3f10_0000;

pub const TEN_SIXTEENTHS: u32 = 0x3f20_0000;

pub const MINUS_SEVEN_SIXTEENTHS: u32 = 0xbee0_0000;

pub const MINUS_NINE_SIXTEENTHS: u32 = 0xbf10_0000;

pub const ONE_SIXTEENTH: u32 = 0x3d80_0000;

pub const ONE_FIFTH: u32 = 0x3e4c_cccd;

pub const SEVEN: u32 = 0x40e0_0000;

pub const TEN: u32 = 0x4120_0000;

pub const FOURTEEN: u32 = 0x4160_0000;

pub const MINUS_THREE: u32 = 0xc040_0000;

/// One step of the accumulation: the index of its sample, and among how many samples it counts.
#[derive(Clone, Copy, Debug, PartialEq, Eq, Structural)]
pub struct TemporalUpdate {
    pub sample_index: u32,
    /// The weight of the sample is one divided by this.
    pub sample_count: u32,
}

/// How far the light of an output has been traced.
#[derive(Clone, Copy, Debug, PartialEq, Eq)]
pub struct TemporalAccumulator {
    pub size: Option<RenderSize>,
    pub updates: u32,
}

impl TemporalAccumulator {
    pub open spec fn wf(self) -> bool {
        self.updates <= MAX_CACHE_UPDATES
    }

    pub fn new() -> (accumulator: Self)
        ensures
            accumulator == (TemporalAccumulator { size: None, updates: 0 }),
            accumulator.wf(),
    {
        TemporalAccumulator { size: None, updates: 0 }
    }

    /// Takes note of the size of the output. Another size than before starts the accumulation anew.
    pub fn resize(&mut self, size: RenderSize) -> (changed: bool)
        requires
            old(self).wf(),
        ensures
            changed == (old(self).size != Some(size)),
            *final(self) == if changed {
                TemporalAccumulator { size: Some(size), updates: 0 }
            } else {
                *old(self)
            },
            final(self).wf(),
    {
        if let Some(known) = self.size {
            if known.width == size.width && known.height == size.height {
                return false;
            }
        }
        self.size = Some(size);
        self.updates = 0;
        true
    }

    pub fn clear(&mut self)
        ensures
            *final(self) == (TemporalAccumulator { size: None, updates: 0 }),
            final(self).wf(),
    {
        self.size = None;
        self.updates = 0;
    }

    pub fn needs_update(&self) -> (needs: bool)
        ensures
            needs == (self.size is Some && self.updates < MAX_CACHE_UPDATES),
    {
        self.size.is_some() && self.updates < MAX_CACHE_UPDATES
    }

    /// Takes the next step, until the light has converged.
    pub fn next_update(&mut self) -> (update: Option<TemporalUpdate>)
        requires
            old(self).wf(),
        ensures
            final(self).wf(),
            final(self).size == old(self).size,
            old(self).updates == MAX_CACHE_UPDATES ==> update is None && *final(self) == *old(self),
            old(self).updates < MAX_CACHE_UPDATES ==> {
                &&& update == Some(
                    TemporalUpdate {
                        sample_index: old(self).updates,
                        sample_count: (old(self).updates + 1) as u32,
                    },
                )
                &&& final(self).updates == old(self).updates + 1
            },
    {
        if self.updates >= MAX_CACHE_UPDATES {
            return None;
        }
        let update = TemporalUpdate {
            sample_index: self.updates,
            sample_count: self.updates + 1,
        };
        self.updates = self.updates + 1;
        Some(update)
    }
}

/// The accumulator after `steps` further steps.
pub open spec fn after_steps(accumulator: TemporalAccumulator, steps: nat) -> TemporalAccumulator
    decreases steps,
{
    if steps == 0 {
        accumulator
    } else {
        let before = after_steps(accumulator, (steps - 1) as nat);
        if before.updates < MAX_CACHE_UPDATES {
            TemporalAccumulator { updates: (before.updates + 1) as u32, ..before }
        } else {
            before
        }
    }
}

/// The light of an output of unchanging size converges: it asks for frames until the last of a
/// fixed number of steps, and never again.
pub proof fn lemma_the_light_converges(accumulator: TemporalAccumulator, steps: nat)
    requires
        accumulator.wf(),
        accumulator.size is Some,
    ensures
        after_steps(accumulator, steps).size == accumulator.size,
        after_steps(accumulator, steps).updates == if accumulator.updates + steps
            < MAX_CACHE_UPDATES {
            accumulator.updates + steps
        } else {
            MAX_CACHE_UPDATES as int
        },
    decreases steps,
{
    if steps > 0 {
        lemma_the_light_converges(accumulator, (steps - 1) as nat);
    }
}

/// Which model of the redstone torch a box belongs to.
#[derive(Clone, Copy, Debug, PartialEq, Eq, Structural)]
pub enum GeometryBank {
    Shared,
    RedstoneOn,
    RedstoneOff,
}

/// A vector of three scalars, by their bits.
pub type Vector = (u32, u32, u32);

/// A box of the scene. Scalars are held by their bits.
#[derive(Clone, Copy, Debug, PartialEq, Eq)]
pub struct BoxData {
    pub min: Vector,
    pub max: Vector,
    pub light_level: u32,
    pub smoothness: u32,
    pub texture_index: u32,
    pub texture_offset_positive: Vector,
    pub texture_offset_negative: Vector,
    pub light_owner: Option<u8>,
    pub direct_light: bool,
    pub geometry_bank: GeometryBank,
    pub redstone_sheet: bool,
}

/// The place of the owner in the flags: nothing for none, and one more than the slot for a torch.
pub open spec fn owner_field(owner: Option<u8>) -> int {
    match owner {
        None => 0,
        Some(slot) => (slot + 1) % 8,
    }
}

impl BoxData {
    /// The flags as a number: the owner in the lowest three bits, and above it, bit by bit, direct
    /// light, the two models and the sheets.
    pub open spec fn flag_word(self) -> int {
        owner_field(self.light_owner) + if self.direct_light {
            DIRECT_LIGHT_FLAG as int
        } else {
            0
        } + match self.geometry_bank {
            GeometryBank::Shared => 0int,
            GeometryBank::RedstoneOn => REDSTONE_ON_ONLY_FLAG as int,
            GeometryBank::RedstoneOff => REDSTONE_OFF_ONLY_FLAG as int,
        } + if self.redstone_sheet {
            REDSTONE_SHEET_FLAG as int
        } else {
            0
        }
    }

    /// Packs the flags.
    pub fn flags(self) -> (flags: u32)
        ensures
            flags == self.flag_word(),
    {
        let owner: u32 = match self.light_owner {
            None => 0,
            Some(slot) => (slot as u32 + 1) % 8,
        };
        let direct: u32 = if self.direct_light {
            DIRECT_LIGHT_FLAG
        } else {
            0
        };
        let bank: u32 = match self.geometry_bank {
            GeometryBank::Shared => 0,
            GeometryBank::RedstoneOn => REDSTONE_ON_ONLY_FLAG,
            GeometryBank::RedstoneOff => REDSTONE_OFF_ONLY_FLAG,
        };
        let sheet: u32 = if self.redstone_sheet {
            REDSTONE_SHEET_FLAG
        } else {
            0
        };
        owner + direct + bank + sheet
    }

    /// The words of the box in the scene buffer.
    pub open spec fn words(self) -> Seq<u32> {
        seq![
            self.min.0,
            self.min.1,
            self.min.2,
            0,
            self.max.0,
            self.max.1,
            self.max.2,
            0,
            self.light_level,
            self.smoothness,
            self.texture_index,
            self.flag_word() as u32,
            self.texture_offset_positive.0,
            self.texture_offset_positive.1,
            self.texture_offset_positive.2,
            0,
            self.texture_offset_negative.0,
            self.texture_offset_negative.1,
            self.texture_offset_negative.2,
            0,
        ]
    }
}

/// Every role of a box can be read back from its flags.
pub proof fn lemma_flags_keep_the_roles(data: BoxData)
    ensures
        data.flag_word() % 8 == owner_field(data.light_owner),
        (data.flag_word() / 8) % 2 == 1 <==> data.direct_light,
        (data.flag_word() / 16) % 2 == 1 <==> data.geometry_bank is RedstoneOn,
        (data.flag_word() / 32) % 2 == 1 <==> data.geometry_bank is RedstoneOff,
        (data.flag_word() / 64) % 2 == 1 <==> data.redstone_sheet,
        0 <= data.flag_word() < 128,
{
}

/// A part of a torch.
pub open spec fn torch_part(
    min: Vector,
    max: Vector,
    light_level: u32,
    texture_index: u32,
    light_owner: Option<u8>,
    direct_light: bool,
    geometry_bank: GeometryBank,
    redstone_sheet: bool,
) -> BoxData {
    BoxData {
        min,
        max,
        light_level,
        smoothness: ZERO,
        texture_index,
        texture_offset_positive: (ZERO, ZERO, ONE_SIXTEENTH),
        texture_offset_negative: (ZERO, ZERO, MINUS_SEVEN_SIXTEENTHS),
        light_owner,
        direct_light,
        geometry_bank,
        redstone_sheet,
    }
}

/// A slab of the ground.
pub open spec fn ground_slab(min: Vector, max: Vector) -> BoxData {
    BoxData {
        min,
        max,
        light_level: ZERO,
        smoothness: ONE_FIFTH,
        texture_index: 4,
        texture_offset_positive: (ZERO, ZERO, ZERO),
        texture_offset_negative: (ZERO, ZERO, ZERO),
        light_owner: None,
        direct_light: false,
        geometry_bank: GeometryBank::Shared,
        redstone_sheet: false,
    }
}

fn torch_box(
    min: Vector,
    max: Vector,
    light_level: u32,
    texture_index: u32,
    light_owner: Option<u8>,
    direct_light: bool,
    geometry_bank: GeometryBank,
    redstone_sheet: bool,
) -> (data: BoxData)
    ensures
        data == torch_part(
            min,
            max,
            light_level,
            texture_index,
            light_owner,
            direct_light,
            geometry_bank,
            redstone_sheet,
        ),
{
    BoxData {
        min,
        max,
        light_level,
        smoothness: ZERO,
        texture_index,
        texture_offset_positive: (ZERO, ZERO, ONE_SIXTEENTH),
        texture_offset_negative: (ZERO, ZERO, MINUS_SEVEN_SIXTEENTHS),
        light_owner,
        direct_light,
        geometry_bank,
        redstone_sheet,
    }
}

fn ground(min: Vector, max: Vector) -> (data: BoxData)
    ensures
        data == ground_slab(min, max),
{
    BoxData {
        min,
        max,
        light_level: ZERO,
        smoothness: ONE_FIFTH,
        texture_index: 4,
        texture_offset_positive: (ZERO, ZERO, ZERO),
        texture_offset_negative: (ZERO, ZERO, ZERO),
        light_owner: None,
        direct_light: false,
        geometry_bank: GeometryBank::Shared,
        redstone_sheet: false,
    }
}

/// The boxes of the scene: the lit redstone torch, the unlit one, the three other torches and the
/// ground.
pub open spec fn scene() -> Seq<BoxData> {
    seq![
        torch_part(
            (MINUS_NINE_SIXTEENTHS, SEVEN_SIXTEENTHS, ZERO),
            (MINUS_SEVEN_SIXTEENTHS, NINE_SIXTEENTHS, SEVEN_SIXTEENTHS),
            ZERO,
            0,
            None,
            false,
            GeometryBank::RedstoneOn,
            false,
        ),
        torch_part(
            (MINUS_ONE, SEVEN_SIXTEENTHS, ZERO),
            (ZERO, SEVEN_SIXTEENTHS, ONE),
            SEVEN,
            0,
            Some(REDSTONE_SLOT),
            false,
            GeometryBank::RedstoneOn,
            true,
        ),
        torch_part(
            (MINUS_ONE, NINE_SIXTEENTHS, ZERO),
            (ZERO, NINE_SIXTEENTHS, ONE),
            SEVEN,
            0,
            Some(REDSTONE_SLOT),
            false,
            GeometryBank::RedstoneOn,
            true,
        ),
        torch_part(
            (MINUS_NINE_SIXTEENTHS, ZERO, ZERO),
            (MINUS_NINE_SIXTEENTHS, ONE, ONE),
            SEVEN,
            0,
            Some(REDSTONE_SLOT),
            false,
            GeometryBank::RedstoneOn,
            true,
        ),
        torch_part(
            (MINUS_SEVEN_SIXTEENTHS, ZERO, ZERO),
            (MINUS_SEVEN_SIXTEENTHS, ONE, ONE),
            SEVEN,
            0,
            Some(REDSTONE_SLOT),
            false,
            GeometryBank::RedstoneOn,
            true,
        ),
        torch_part(
            (MINUS_NINE_SIXTEENTHS, SEVEN_SIXTEENTHS, HALF),
            (MINUS_SEVEN_SIXTEENTHS, NINE_SIXTEENTHS, TEN_SIXTEENTHS),
            SEVEN,
            0,
            Some(REDSTONE_SLOT),
            true,
            GeometryBank::RedstoneOn,
            false,
        ),
        torch_part(
            (MINUS_NINE_SIXTEENTHS, SEVEN_SIXTEENTHS, ZERO),
            (MINUS_SEVEN_SIXTEENTHS, NINE_SIXTEENTHS, HALF),
            ZERO,
            5,
            None,
            false,
            GeometryBank::RedstoneOff,
            false,
        ),
        torch_part(
            (MINUS_NINE_SIXTEENTHS, SEVEN_SIXTEENTHS, HALF),
            (MINUS_SEVEN_SIXTEENTHS, NINE_SIXTEENTHS, TEN_SIXTEENTHS),
            ZERO,
            5,
            None,
            false,
            GeometryBank::RedstoneOff,
            false,
        ),
        torch_part(
            (SEVEN_SIXTEENTHS, SEVEN_SIXTEENTHS, ZERO),
            (NINE_SIXTEENTHS, NINE_SIXTEENTHS, HALF),
            ZERO,
            1,
            None,
            false,
            GeometryBank::Shared,
            false,
        ),
        torch_part(
            (SEVEN_SIXTEENTHS, SEVEN_SIXTEENTHS, HALF),
            (NINE_SIXTEENTHS, NINE_SIXTEENTHS, TEN_SIXTEENTHS),
            FOURTEEN,
            1,
            Some(COPPER_SLOT),
            true,
            GeometryBank::Shared,
            false,
        ),
        torch_part(
            (MINUS_NINE_SIXTEENTHS, MINUS_NINE_SIXTEENTHS, ZERO),
            (MINUS_SEVEN_SIXTEENTHS, MINUS_SEVEN_SIXTEENTHS, HALF),
            ZERO,
            2,
            None,
            false,
            GeometryBank::Shared,
            false,
        ),
        torch_part(
            (MINUS_NINE_SIXTEENTHS, MINUS_NINE_SIXTEENTHS, HALF),
            (MINUS_SEVEN_SIXTEENTHS, MINUS_SEVEN_SIXTEENTHS, TEN_SIXTEENTHS),
            TEN,
            2,
            Some(SOUL_SLOT),
            true,
            GeometryBank::Shared,
            false,
        ),
        torch_part(
            (SEVEN_SIXTEENTHS, MINUS_NINE_SIXTEENTHS, ZERO),
            (NINE_SIXTEENTHS, MINUS_SEVEN_SIXTEENTHS, HALF),
            ZERO,
            3,
            None,
            false,
            GeometryBank::Shared,
            false,
        ),
        torch_part(
            (SEVEN_SIXTEENTHS, MINUS_NINE_SIXTEENTHS, HALF),
            (NINE_SIXTEENTHS, MINUS_SEVEN_SIXTEENTHS, TEN_SIXTEENTHS),
            FOURTEEN,
            3,
            Some(TORCH_SLOT),
            true,
            GeometryBank::Shared,
            false,
        ),
        ground_slab((ZERO, ZERO, ZERO), (ONE, ONE, ZERO)),
        ground_slab((MINUS_ONE, ZERO, ZERO), (ZERO, ONE, ZERO)),
        ground_slab((MINUS_ONE, MINUS_ONE, ZERO), (ZERO, ZERO, ZERO)),
        ground_slab((ZERO, MINUS_ONE, ZERO), (ONE, ZERO, ZERO)),
    ]
}

/// Lists the boxes of the scene.
pub fn scene_boxes() -> (boxes: Vec<BoxData>)
    ensures
        boxes@ == scene(),
        boxes@.len() == BOX_COUNT,
{
    let boxes = vec![
        torch_box(
            (MINUS_NINE_SIXTEENTHS, SEVEN_SIXTEENTHS, ZERO),
            (MINUS_SEVEN_SIXTEENTHS, NINE_SIXTEENTHS, SEVEN_SIXTEENTHS),
            ZERO,
            0,
            None,
            false,
            GeometryBank::RedstoneOn,
            false,
        ),
        torch_box(
            (MINUS_ONE, SEVEN_SIXTEENTHS, ZERO),
            (ZERO, SEVEN_SIXTEENTHS, ONE),
            SEVEN,
            0,
            Some(REDSTONE_SLOT),
            false,
            GeometryBank::RedstoneOn,
            true,
        ),
        torch_box(
            (MINUS_ONE, NINE_SIXTEENTHS, ZERO),
            (ZERO, NINE_SIXTEENTHS, ONE),
            SEVEN,
            0,
            Some(REDSTONE_SLOT),
            false,
            GeometryBank::RedstoneOn,
            true,
        ),
        torch_box(
            (MINUS_NINE_SIXTEENTHS, ZERO, ZERO),
            (MINUS_NINE_SIXTEENTHS, ONE, ONE),
            SEVEN,
            0,
            Some(REDSTONE_SLOT),
            false,
            GeometryBank::RedstoneOn,
            true,
        ),
        torch_box(
            (MINUS_SEVEN_SIXTEENTHS, ZERO, ZERO),
            (MINUS_SEVEN_SIXTEENTHS, ONE, ONE),
            SEVEN,
            0,
            Some(REDSTONE_SLOT),
            false,
            GeometryBank::RedstoneOn,
            true,
        ),
        torch_box(
            (MINUS_NINE_SIXTEENTHS, SEVEN_SIXTEENTHS, HALF),
            (MINUS_SEVEN_SIXTEENTHS, NINE_SIXTEENTHS, TEN_SIXTEENTHS),
            SEVEN,
            0,
            Some(REDSTONE_SLOT),
            true,
            GeometryBank::RedstoneOn,
            false,
        ),
        torch_box(
            (MINUS_NINE_SIXTEENTHS, SEVEN_SIXTEENTHS, ZERO),
            (MINUS_SEVEN_SIXTEENTHS, NINE_SIXTEENTHS, HALF),
            ZERO,
            5,
            None,
            false,
            GeometryBank::RedstoneOff,
            false,
        ),
        torch_box(
            (MINUS_NINE_SIXTEENTHS, SEVEN_SIXTEENTHS, HALF),
            (MINUS_SEVEN_SIXTEENTHS, NINE_SIXTEENTHS, TEN_SIXTEENTHS),
            ZERO,
            5,
            None,
            false,
            GeometryBank::RedstoneOff,
            false,
        ),
        torch_box(
            (SEVEN_SIXTEENTHS, SEVEN_SIXTEENTHS, ZERO),
            (NINE_SIXTEENTHS, NINE_SIXTEENTHS, HALF),
            ZERO,
            1,
            None,
            false,
            GeometryBank::Shared,
            false,
        ),
        torch_box(
            (SEVEN_SIXTEENTHS, SEVEN_SIXTEENTHS, HALF),
            (NINE_SIXTEENTHS, NINE_SIXTEENTHS, TEN_SIXTEENTHS),
            FOURTEEN,
            1,
            Some(COPPER_SLOT),
            true,
            GeometryBank::Shared,
            false,
        ),
        torch_box(
            (MINUS_NINE_SIXTEENTHS, MINUS_NINE_SIXTEENTHS, ZERO),
            (MINUS_SEVEN_SIXTEENTHS, MINUS_SEVEN_SIXTEENTHS, HALF),
            ZERO,
            2,
            None,
            false,
            GeometryBank::Shared,
            false,
        ),
        torch_box(
            (MINUS_NINE_SIXTEENTHS, MINUS_NINE_SIXTEENTHS, HALF),
            (MINUS_SEVEN_SIXTEENTHS, MINUS_SEVEN_SIXTEENTHS, TEN_SIXTEENTHS),
            TEN,
            2,
            Some(SOUL_SLOT),
            true,
            GeometryBank::Shared,
            false,
        ),
        torch_box(
            (SEVEN_SIXTEENTHS, MINUS_NINE_SIXTEENTHS, ZERO),
            (NINE_SIXTEENTHS, MINUS_SEVEN_SIXTEENTHS, HALF),
            ZERO,
            3,
            None,
            false,
            GeometryBank::Shared,
            false,
        ),
        torch_box(
            (SEVEN_SIXTEENTHS, MINUS_NINE_SIXTEENTHS, HALF),
            (NINE_SIXTEENTHS, MINUS_SEVEN_SIXTEENTHS, TEN_SIXTEENTHS),
            FOURTEEN,
            3,
            Some(TORCH_SLOT),
            true,
            GeometryBank::Shared,
            false,
        ),
        ground((ZERO, ZERO, ZERO), (ONE, ONE, ZERO)),
        ground((MINUS_ONE, ZERO, ZERO), (ZERO, ONE, ZERO)),
        ground((MINUS_ONE, MINUS_ONE, ZERO), (ZERO, ZERO, ZERO)),
        ground((ZERO, MINUS_ONE, ZERO), (ONE, ZERO, ZERO)),
    ];
    assert(boxes@ == scene());
    boxes
}

/// The four lights stand where the shader looks for them, and the unlit redstone torch gives none.
pub proof fn lemma_lights_stand_where_they_are_sought()
    ensures
        scene().len() == BOX_COUNT,
        scene()[5].light_owner == Some(REDSTONE_SLOT) && scene()[5].direct_light,
        scene()[9].light_owner == Some(COPPER_SLOT) && scene()[9].direct_light,
        scene()[11].light_owner == Some(SOUL_SLOT) && scene()[11].direct_light,
        scene()[13].light_owner == Some(TORCH_SLOT) && scene()[13].direct_light,
        forall|i: int|
            0 <= i < BOX_COUNT && (#[trigger] scene()[i]).direct_light ==> i == 5 || i == 9 || i == 11
                || i == 13,
        forall|i: int|
            0 <= i < BOX_COUNT && (#[trigger] scene()[i]).geometry_bank is RedstoneOff
                ==> scene()[i].light_level == ZERO && scene()[i].light_owner is None
                && scene()[i].texture_index == 5,
{
}

/// The words of the scene buffer.
pub open spec fn scene_words() -> Seq<u32> {
    Seq::new(360, |place: int| scene()[place / 20].words()[place % 20])
}

/// Lays out the scene buffer.
pub fn encoded_boxes() -> (encoded: Vec<u8>)
    ensures
        encoded@.len() == BOX_COUNT * BOX_STRIDE,
        bytes::holds_words(encoded@, scene_words()),
{
    let boxes = scene_boxes();
    let mut words: Vec<u32> = Vec::new();
    let mut index: usize = 0;
    while index < BOX_COUNT
        invariant
            index <= BOX_COUNT,
            boxes@ == scene(),
            boxes@.len() == BOX_COUNT,
            words@ == scene_words().take(20 * index),
        decreases BOX_COUNT - index,
    {
        let data = boxes[index];
        let ghost before = words@;
        words.push(data.min.0);
        words.push(data.min.1);
        words.push(data.min.2);
        words.push(0);
        words.push(data.max.0);
        words.push(data.max.1);
        words.push(data.max.2);
        words.push(0);
        words.push(data.light_level);
        words.push(data.smoothness);
        words.push(data.texture_index);
        words.push(data.flags());
        words.push(data.texture_offset_positive.0);
        words.push(data.texture_offset_positive.1);
        words.push(data.texture_offset_positive.2);
        words.push(0);
        words.push(data.texture_offset_negative.0);
        words.push(data.texture_offset_negative.1);
        words.push(data.texture_offset_negative.2);
        words.push(0);
        proof {
            assert(words@ == before + data.words());
            let longer = scene_words().take(20 * index + 20);
            assert forall|i: int| 0 <= i < longer.len() implies longer[i] == (before
                + data.words())[i] by {
                if i >= 20 * index {
                    assert(i / 20 == index && i % 20 == i - 20 * index);
                }
            }
            assert(longer == before + data.words());
        }
        index = index + 1;
    }
    assert(scene_words().take(360) == scene_words());
    bytes::encode_words(words.as_slice())
}

/// The words of the camera uniforms: the axis to the right, the axis up, the field of view, the eye,
/// the size of the output and the index of the sample.
pub open spec fn trace_words(width: u32, height: u32, sample_index: u32) -> Seq<u32> {
    seq![
        ONE,
        ZERO,
        ZERO,
        0,
        ZERO,
        ZERO,
        ONE,
        0,
        FIELD_OF_VIEW,
        0,
        0,
        0,
        ZERO,
        MINUS_THREE,
        ONE,
        0,
        width,
        height,
        sample_index,
        0,
    ]
}

/// Lays out the camera uniforms. The width and the height are passed by their bits as scalars.
pub fn encoded_trace_uniforms(width: u32, height: u32, sample_index: u32) -> (encoded: Vec<u8>)
    ensures
        encoded@.len() == UNIFORM_BYTES,
        bytes::holds_words(encoded@, trace_words(width, height, sample_index)),
{
    let words: [u32; 20] = [
        ONE,
        ZERO,
        ZERO,
        0,
        ZERO,
        ZERO,
        ONE,
        0,
        FIELD_OF_VIEW,
        0,
        0,
        0,
        ZERO,
        MINUS_THREE,
        ONE,
        0,
        width,
        height,
        sample_index,
        0,
    ];
    assert(words@ == trace_words(width, height, sample_index));
    bytes::encode_words(words.as_slice())
}

/// Lays out the mask of the torches that are lit.
pub fn encoded_present_uniforms(mask: u8) -> (encoded: Vec<u8>)
    ensures
        encoded@.len() == PRESENT_UNIFORM_BYTES,
        bytes::holds_words(encoded@, seq![mask as u32, 0u32, 0u32, 0u32]),
{
    let words: [u32; 4] = [mask as u32, 0, 0, 0];
    assert(words@ == seq![mask as u32, 0u32, 0u32, 0u32]);
    bytes::encode_words(words.as_slice())
}

/// Why the textures of the scene cannot be used.
#[derive(Debug)]
pub enum TextureError {
    /// There are not as many textures as the scene has layers.
    Count(usize),
    /// The texture of this layer cannot be decoded.
    Image { layer: usize, error: ResourceError },
    /// Some texture does not have the required dimensions.
    Dimensions,
}

/// Whether a texture decodes to an image of the required dimensions.
pub open spec fn fits(encoded: Seq<u8>) -> bool {
    match resources::png_image(encoded) {
        None => false,
        Some(image) => image.width == TEXTURE_DIMENSION && image.height == TEXTURE_DIMENSION,
    }
}

/// Decodes the textures, checks their dimensions and turns them upside down.
pub fn prepare_textures(encoded: &Vec<Vec<u8>>) -> (textures: Result<Vec<RgbaImage>, TextureError>)
    ensures
        match textures {
            Ok(textures) => {
                &&& encoded@.len() == TEXTURE_COUNT
                &&& textures@.len() == TEXTURE_COUNT
                &&& forall|layer: int|
                    #![trigger encoded@[layer]]
                    0 <= layer < TEXTURE_COUNT ==> fits(encoded@[layer]@) && textures@[layer]@
                        == resources::flipped(resources::png_image(encoded@[layer]@)->0)
            },
            Err(TextureError::Count(count)) => count == encoded@.len() && count != TEXTURE_COUNT,
            Err(TextureError::Image { layer, error }) => {
                &&& encoded@.len() == TEXTURE_COUNT
                &&& layer < TEXTURE_COUNT
                &&& error is Image
                &&& resources::png_image(encoded@[layer as int]@) is None
                &&& forall|before: int|
                    #![trigger encoded@[before]]
                    0 <= before < layer ==> resources::png_image(encoded@[before]@) is Some
            },
            Err(TextureError::Dimensions) => {
                &&& encoded@.len() == TEXTURE_COUNT
                &&& forall|layer: int|
                    #![trigger encoded@[layer]]
                    0 <= layer < TEXTURE_COUNT ==> resources::png_image(encoded@[layer]@) is Some
                &&& exists|layer: int|
                    #![trigger encoded@[layer]]
                    0 <= layer < TEXTURE_COUNT && !fits(encoded@[layer]@)
            },
        },
{
    if encoded.len() != TEXTURE_COUNT {
        return Err(TextureError::Count(encoded.len()));
    }
    let mut images: Vec<RgbaImage> = Vec::new();
    let mut all_fit = true;
    let mut layer: usize = 0;
    while layer < TEXTURE_COUNT
        invariant
            layer <= TEXTURE_COUNT,
            encoded@.len() == TEXTURE_COUNT,
            images@.len() == layer,
            forall|i: int|
                #![trigger encoded@[i]]
                0 <= i < layer ==> match resources::png_image(encoded@[i]@) {
                    None => false,
                    Some(image) => images@[i]@ == resources::flipped(image),
                },
            all_fit == forall|i: int| 0 <= i < layer ==> fits((#[trigger] encoded@[i])@),
        decreases TEXTURE_COUNT - layer,
    {
        let image = match resources::decode_rgba_png(encoded[layer].as_slice()) {
            Ok(image) => image,
            Err(error) => return Err(TextureError::Image { layer, error }),
        };
        if image.width != TEXTURE_DIMENSION || image.height != TEXTURE_DIMENSION {
            assert(!fits(encoded@[layer as int]@));
            all_fit = false;
        }
        images.push(resources::flip_vertical(image));
        layer = layer + 1;
    }
    if !all_fit {
        return Err(TextureError::Dimensions);
    }
    Ok(images)
}

/// The file of a texture, below the assets.
pub open spec fn texture_path(layer: int) -> Seq<char> {
    if layer == 0 {
        "lock/torch/redstone_torch.png"@
    } else if layer == 1 {
        "lock/torch/copper_torch.png"@
    } else if layer == 2 {
        "lock/torch/soul_torch.png"@
    } else if layer == 3 {
        "lock/torch/torch.png"@
    } else if layer == 4 {
        "lock/torch/smooth_stone.png"@
    } else {
        "lock/torch/redstone_torch_off.png"@
    }
}

/// Names the file of a texture.
pub fn texture_file(layer: usize) -> (path: &'static str)
    requires
        layer < TEXTURE_COUNT,
    ensures
        path@ == texture_path(layer as int),
{
    if layer == 0 {
        "lock/torch/redstone_torch.png"
    } else if layer == 1 {
        "lock/torch/copper_torch.png"
    } else if layer == 2 {
        "lock/torch/soul_torch.png"
    } else if layer == 3 {
        "lock/torch/torch.png"
    } else if layer == 4 {
        "lock/torch/smooth_stone.png"
    } else {
        "lock/torch/redstone_torch_off.png"
    }
}

} // verus!
