//! A block that bounces off the edges of the screen and changes its texture when it does.

use vstd::prelude::*;

use crate::bytes;
use crate::modules::block_list;
use crate::modules::block_list::{LayoutError, ATLAS_DIMENSION, TILE_DIMENSION};
use crate::modules::{DvdBounceVariant, RenderSize};
use crate::random;
use crate::text;

verus! {

pub const UNIFORM_BYTES: usize = 32;

pub const BLOCK_HALF_SIZE: i32 = 128;

/// The number of blocks in a row of the atlas.
pub const ATLAS_LINE_WIDTH: u32 = 32;

/// The graphics resources that a variant allocates.
#[derive(Clone, Copy, Debug, PartialEq, Eq, Structural)]
pub struct ResourceNeeds {
    pub direct_pipeline: bool,
    pub trail_pipeline: bool,
    pub trail_texture: bool,
    pub trail_copy_resources: bool,
}

/// A trail needs everything that keeps and copies it; the block itself is drawn on the surface by
/// the direct variant, and by a trail with a smooth front.
pub fn resource_needs(variant: DvdBounceVariant, smooth_trail_front: bool) -> (needs: ResourceNeeds)
    ensures
        needs.direct_pipeline == (variant is Direct || smooth_trail_front),
        needs.trail_pipeline == (variant is Trail),
        needs.trail_texture == (variant is Trail),
        needs.trail_copy_resources == (variant is Trail),
{
    match variant {
        DvdBounceVariant::Direct => ResourceNeeds {
            direct_pipeline: true,
            trail_pipeline: false,
            trail_texture: false,
            trail_copy_resources: false,
        },
        DvdBounceVariant::Trail => ResourceNeeds {
            direct_pipeline: smooth_trail_front,
            trail_pipeline: true,
            trail_texture: true,
            trail_copy_resources: true,
        },
    }
}

/// The tile that an entry of the block list names, as column and row. The entry is made up of the
/// row, the column and at least one more word.
pub open spec fn slot_of(entry: Seq<char>, index: int) -> Result<(u32, u32), LayoutError> {
    let words = text::words(entry);
    if words.len() == 0 {
        Err(LayoutError::MissingRow(index as usize))
    } else {
        match text::number_read(words[0], u32::MAX as nat) {
            Err(error) => Err(LayoutError::Row(index as usize, error)),
            Ok(row) => if words.len() == 1 {
                Err(LayoutError::MissingColumn(index as usize))
            } else {
                match text::number_read(words[1], u32::MAX as nat) {
                    Err(error) => Err(LayoutError::Column(index as usize, error)),
                    Ok(column) => if words.len() == 2 || row >= ATLAS_LINE_WIDTH || column
                        >= ATLAS_LINE_WIDTH {
                        Err(LayoutError::InvalidEntry(index as usize))
                    } else {
                        Ok((column as u32, row as u32))
                    },
                }
            },
        }
    }
}

/// The tiles of the first `count` entries, or the first fault among them.
pub open spec fn slots_of(entries: Seq<Seq<char>>, count: int) -> Result<
    Seq<(u32, u32)>,
    LayoutError,
>
    decreases count,
{
    if count <= 0 {
        Ok(Seq::empty())
    } else {
        match slots_of(entries, count - 1) {
            Err(error) => Err(error),
            Ok(slots) => match slot_of(entries[count - 1], count - 1) {
                Err(error) => Err(error),
                Ok(slot) => Ok(slots.push(slot)),
            },
        }
    }
}

/// The tiles that a block list names.
pub open spec fn listed_slots(list: Seq<char>) -> Result<Seq<(u32, u32)>, LayoutError> {
    let entries = block_list::entries(text::lines(list));
    match block_list::declared(text::lines(list), true) {
        Err(error) => Err(error),
        Ok((width, count)) => if width != ATLAS_LINE_WIDTH {
            Err(LayoutError::AtlasWidth(width))
        } else {
            match slots_of(entries, entries.len() as int) {
                Err(error) => Err(error),
                Ok(slots) => if slots.len() != count {
                    Err(LayoutError::Listed { declared: count, listed: slots.len() as usize })
                } else {
                    Ok(slots)
                },
            }
        },
    }
}

fn read_slot(entry: &Vec<char>, index: usize) -> (slot: Result<(u32, u32), LayoutError>)
    ensures
        slot == slot_of(entry@, index as int),
{
    let words = text::split_words(entry);
    assert(text::texts(words@).len() == words@.len());
    if words.len() == 0 {
        return Err(LayoutError::MissingRow(index));
    }
    assert(text::texts(words@)[0] == words@[0]@);
    proof {
        text::lemma_a_read_number_fits(words@[0]@, u32::MAX as nat);
    }
    let row = match text::read_unsigned(&words[0], u32::MAX as u64) {
        Ok(row) => row as u32,
        Err(error) => return Err(LayoutError::Row(index, error)),
    };
    if words.len() == 1 {
        return Err(LayoutError::MissingColumn(index));
    }
    assert(text::texts(words@)[1] == words@[1]@);
    proof {
        text::lemma_a_read_number_fits(words@[1]@, u32::MAX as nat);
    }
    let column = match text::read_unsigned(&words[1], u32::MAX as u64) {
        Ok(column) => column as u32,
        Err(error) => return Err(LayoutError::Column(index, error)),
    };
    if words.len() == 2 || row >= ATLAS_LINE_WIDTH || column >= ATLAS_LINE_WIDTH {
        return Err(LayoutError::InvalidEntry(index));
    }
    Ok((column, row))
}

proof fn lemma_first_fault_decides(entries: Seq<Seq<char>>, upto: int, count: int)
    requires
        0 <= upto <= count,
        slots_of(entries, upto) is Err,
    ensures
        slots_of(entries, count) == slots_of(entries, upto),
    decreases count - upto,
{
    if upto < count {
        lemma_first_fault_decides(entries, upto, count - 1);
    }
}

/// Reads the tiles of a block list, as columns and rows.
pub fn load_slots(list: &str) -> (slots: Result<Vec<(u32, u32)>, LayoutError>)
    ensures
        match slots {
            Ok(slots) => listed_slots(list@) == Ok::<Seq<(u32, u32)>, LayoutError>(slots@),
            Err(error) => listed_slots(list@) == Err::<Seq<(u32, u32)>, LayoutError>(error),
        },
{
    let lines = text::split_lines(list);
    let (width, count) = block_list::read_declaration(&lines, true)?;
    if width != ATLAS_LINE_WIDTH {
        return Err(LayoutError::AtlasWidth(width));
    }
    let entries = block_list::list_entries(&lines);
    let ghost texts = text::texts(entries@);
    assert(texts.len() == entries@.len());
    let mut slots: Vec<(u32, u32)> = Vec::new();
    let mut index: usize = 0;
    while index < entries.len()
        invariant
            index <= entries@.len(),
            texts == text::texts(entries@),
            texts.len() == entries@.len(),
            texts == block_list::entries(text::lines(list@)),
            block_list::declared(text::lines(list@), true) == Ok::<(u32, u32), LayoutError>(
                (width, count),
            ),
            width == ATLAS_LINE_WIDTH,
            slots@.len() == index,
            slots_of(texts, index as int) == Ok::<Seq<(u32, u32)>, LayoutError>(slots@),
        decreases entries@.len() - index,
    {
        assert(texts[index as int] == entries@[index as int]@);
        match read_slot(&entries[index], index) {
            Ok(slot) => slots.push(slot),
            Err(error) => {
                proof {
                    lemma_first_fault_decides(texts, index + 1, texts.len() as int);
                }
                return Err(error);
            },
        }
        index = index + 1;
    }
    let found: usize = slots.len();
    if found as u64 != count as u64 {
        return Err(LayoutError::Listed { declared: count, listed: found });
    }
    Ok(slots)
}

/// Whether a drawn velocity moves the block along both axes and fast enough.
pub fn valid_initial_velocity(velocity: (i32, i32)) -> (valid: bool)
    ensures
        valid == (velocity.0 != 0 && velocity.1 != 0 && velocity.0 * velocity.0 + velocity.1
            * velocity.1 > 24),
{
    let (x, y) = velocity;
    assert(-0x8000_0000 <= x <= 0x7fff_ffff && -0x8000_0000 <= y <= 0x7fff_ffff);
    assert(0 <= x * x <= 0x4000_0000_0000_0000) by (nonlinear_arith)
        requires
            -0x8000_0000 <= x <= 0x7fff_ffff,
    ;
    assert(0 <= y * y <= 0x4000_0000_0000_0000) by (nonlinear_arith)
        requires
            -0x8000_0000 <= y <= 0x7fff_ffff,
    ;
    let x_squared: i128 = x as i128 * x as i128;
    let y_squared: i128 = y as i128 * y as i128;
    x != 0 && y != 0 && x_squared + y_squared > 24
}

/// The tile that an id stands for, as column and row.
pub fn slot_offset(id: usize) -> (offset: (usize, usize))
    ensures
        offset.0 == id % 32,
        offset.1 == id / 32,
{
    (id % ATLAS_LINE_WIDTH as usize, id / ATLAS_LINE_WIDTH as usize)
}

/// Half of a screen length that is at least one pixel, as a signed 32-bit number. A length from
/// two to the thirty-first on counts as negative, and halves are rounded towards zero.
pub open spec fn half_extent(length: u32) -> int {
    if length == 0 {
        0
    } else if length <= i32::MAX {
        length as int / 2
    } else {
        -((0x1_0000_0000 - length) / 2)
    }
}

fn half(length: u32) -> (extent: i32)
    ensures
        extent == half_extent(length),
{
    if length <= 0x7fff_ffff {
        (length / 2) as i32
    } else {
        -(((0xffff_ffff - length + 1) / 2) as i32)
    }
}

/// The position and velocity of the block, when it last moved, and its texture.
#[derive(Clone, Copy, Debug, PartialEq, Eq)]
pub struct BounceState {
    pub position: (i32, i32),
    pub velocity: (i32, i32),
    pub last_tick: u64,
    pub changed_this_tick: bool,
    pub slot_offset: (usize, usize),
}

/// Whether the block reaches over an edge.
pub open spec fn beyond(position: int, half: int) -> bool {
    position - BLOCK_HALF_SIZE < -half || position + BLOCK_HALF_SIZE > half
}

/// The velocity after a move.
pub open spec fn after_edge(velocity: int, position: int, half: int) -> int {
    if beyond(position, half) {
        -velocity
    } else {
        velocity
    }
}

impl BounceState {
    pub fn new(velocity: (i32, i32)) -> (state: Self)
        ensures
            state == (BounceState {
                position: (0, 0),
                velocity,
                last_tick: 0,
                changed_this_tick: false,
                slot_offset: (0, 0),
            }),
    {
        BounceState {
            position: (0, 0),
            velocity,
            last_tick: 0,
            changed_this_tick: false,
            slot_offset: (0, 0),
        }
    }

    /// Whether one more move stays within 32-bit coordinates.
    pub open spec fn can_move(self) -> bool {
        &&& i32::MIN + BLOCK_HALF_SIZE <= self.position.0 + self.velocity.0 <= i32::MAX
            - BLOCK_HALF_SIZE
        &&& i32::MIN + BLOCK_HALF_SIZE <= self.position.1 + self.velocity.1 <= i32::MAX
            - BLOCK_HALF_SIZE
        &&& self.velocity.0 != i32::MIN
        &&& self.velocity.1 != i32::MIN
    }

    /// Whether a move takes the block over an edge.
    pub open spec fn bounces(self, tick: u64, size: RenderSize) -> bool {
        tick != self.last_tick && (beyond(
            self.position.0 + self.velocity.0,
            half_extent(size.width),
        ) || beyond(self.position.1 + self.velocity.1, half_extent(size.height)))
    }

    /// The state after a tick. A tick that was seen already moves nothing; any other moves the
    /// block once, however many ticks were missed. The texture is not part of this.
    pub open spec fn moved(self, tick: u64, size: RenderSize) -> Self {
        if tick == self.last_tick {
            BounceState { changed_this_tick: false, ..self }
        } else {
            let x = self.position.0 + self.velocity.0;
            let y = self.position.1 + self.velocity.1;
            BounceState {
                position: (x as i32, y as i32),
                velocity: (
                    after_edge(self.velocity.0 as int, x, half_extent(size.width)) as i32,
                    after_edge(self.velocity.1 as int, y, half_extent(size.height)) as i32,
                ),
                last_tick: tick,
                changed_this_tick: true,
                slot_offset: self.slot_offset,
            }
        }
    }

    /// Moves the block and tells whether it went over an edge.
    pub fn advance(&mut self, tick: u64, size: RenderSize) -> (bounced: bool)
        requires
            tick != old(self).last_tick ==> old(self).can_move(),
        ensures
            *final(self) == old(self).moved(tick, size),
            bounced == old(self).bounces(tick, size),
    {
        self.changed_this_tick = tick != self.last_tick;
        if !self.changed_this_tick {
            return false;
        }
        self.last_tick = tick;
        let x: i32 = self.position.0 + self.velocity.0;
        let y: i32 = self.position.1 + self.velocity.1;
        self.position = (x, y);
        let half_width = half(size.width);
        let half_height = half(size.height);
        let bounced_x = x - BLOCK_HALF_SIZE < -half_width || x + BLOCK_HALF_SIZE > half_width;
        let bounced_y = y - BLOCK_HALF_SIZE < -half_height || y + BLOCK_HALF_SIZE > half_height;
        let velocity_x: i32 = if bounced_x {
            -self.velocity.0
        } else {
            self.velocity.0
        };
        let velocity_y: i32 = if bounced_y {
            -self.velocity.1
        } else {
            self.velocity.1
        };
        self.velocity = (velocity_x, velocity_y);
        bounced_x || bounced_y
    }

    /// The state with the texture of an id.
    pub open spec fn showing(self, id: usize) -> Self {
        BounceState { slot_offset: (id % 32, id / 32), ..self }
    }

    /// Gives the block the texture of an id.
    pub fn select(&mut self, id: usize)
        ensures
            *final(self) == old(self).showing(id),
    {
        self.slot_offset = slot_offset(id);
    }

    /// Gives the block one of so many textures, drawn at random.
    pub fn select_any(&mut self, slot_count: usize)
        requires
            slot_count > 0,
        ensures
            exists|id: usize|
                id < slot_count && *final(self) == #[trigger] old(self).showing(id),
    {
        let drawn = random::below(slot_count);
        self.select(drawn);
        assert(*self == old(self).showing(drawn));
    }

    /// The state after a tick, with the texture of `id` where the block bounced.
    pub open spec fn updated(self, tick: u64, size: RenderSize, id: usize) -> Self {
        if self.bounces(tick, size) {
            self.moved(tick, size).showing(id)
        } else {
            self.moved(tick, size)
        }
    }

    /// Moves the block and draws one new texture where it bounced, at a corner as at an edge.
    pub fn update(&mut self, tick: u64, size: RenderSize, slot_count: usize)
        requires
            tick != old(self).last_tick ==> old(self).can_move(),
            old(self).bounces(tick, size) ==> slot_count > 0,
        ensures
            if old(self).bounces(tick, size) {
                exists|id: usize|
                    id < slot_count && *final(self) == #[trigger] old(self).updated(tick, size, id)
            } else {
                *final(self) == old(self).moved(tick, size)
            },
    {
        let bounced = self.advance(tick, size);
        if bounced {
            let drawn = random::below(slot_count);
            self.select(drawn);
            assert(*self == old(self).updated(tick, size, drawn));
        }
    }
}

/// The uniform block: the centre of the block, the size of the screen, the tile and two words of
/// padding. Each scalar is passed by its bits.
pub fn uniform_bytes(center: (u32, u32), size: (u32, u32), slot: (u32, u32)) -> (encoded: Vec<u8>)
    ensures
        encoded@.len() == UNIFORM_BYTES,
        bytes::holds_words(
            encoded@,
            seq![center.0, center.1, size.0, size.1, slot.0, slot.1, 0u32, 0u32],
        ),
{
    let words: [u32; 8] = [center.0, center.1, size.0, size.1, slot.0, slot.1, 0, 0];
    assert(words@ == seq![center.0, center.1, size.0, size.1, slot.0, slot.1, 0u32, 0u32]);
    bytes::encode_words(words.as_slice())
}

/// How far the centre of the block may be from that of the screen, along one axis.
pub open spec fn keeps_near(position: int, velocity: int, half: int) -> bool {
    let limit = half - BLOCK_HALF_SIZE;
    let speed = if velocity < 0 {
        -velocity
    } else {
        velocity
    };
    &&& -limit - speed <= position <= limit + speed
    &&& position > limit ==> velocity <= 0
    &&& position < -limit ==> velocity >= 0
}

/// On a screen of an unchanging size, at least as large as the block, the block reaches over an
/// edge by no more than one move and then turns back. A block that starts in the centre keeps to
/// that whatever its velocity is.
pub proof fn lemma_the_block_turns_back(state: BounceState, tick: u64, size: RenderSize)
    requires
        state.can_move(),
        half_extent(size.width) >= BLOCK_HALF_SIZE,
        half_extent(size.height) >= BLOCK_HALF_SIZE,
        keeps_near(state.position.0 as int, state.velocity.0 as int, half_extent(size.width)),
        keeps_near(state.position.1 as int, state.velocity.1 as int, half_extent(size.height)),
    ensures
        keeps_near(
            state.moved(tick, size).position.0 as int,
            state.moved(tick, size).velocity.0 as int,
            half_extent(size.width),
        ),
        keeps_near(
            state.moved(tick, size).position.1 as int,
            state.moved(tick, size).velocity.1 as int,
            half_extent(size.height),
        ),
        keeps_near(0, state.velocity.0 as int, half_extent(size.width)),
        keeps_near(0, state.velocity.1 as int, half_extent(size.height)),
{
}

/// Bouncing keeps the speed along each axis, so a velocity that was accepted stays acceptable.
pub proof fn lemma_bouncing_keeps_the_speed(state: BounceState, tick: u64, size: RenderSize)
    requires
        state.can_move(),
    ensures
        ({
            let velocity = state.moved(tick, size).velocity;
            &&& velocity.0 == state.velocity.0 || velocity.0 == -state.velocity.0
            &&& velocity.1 == state.velocity.1 || velocity.1 == -state.velocity.1
        }),
{
}

/// Every tile of an accepted block list lies in the atlas.
pub proof fn lemma_listed_tiles_lie_in_the_atlas(list: Seq<char>, index: int)
    requires
        listed_slots(list) is Ok,
        0 <= index < listed_slots(list)->Ok_0.len(),
    ensures
        ({
            let (column, row) = listed_slots(list)->Ok_0[index];
            &&& column * TILE_DIMENSION + TILE_DIMENSION <= ATLAS_DIMENSION
            &&& row * TILE_DIMENSION + TILE_DIMENSION <= ATLAS_DIMENSION
        }),
{
    let entries = block_list::entries(text::lines(list));
    lemma_tiles(entries, entries.len() as int, index);
}

proof fn lemma_tiles(entries: Seq<Seq<char>>, count: int, index: int)
    requires
        0 <= count,
        slots_of(entries, count) is Ok,
        0 <= index < slots_of(entries, count)->Ok_0.len(),
    ensures
        ({
            let (column, row) = slots_of(entries, count)->Ok_0[index];
            column < ATLAS_LINE_WIDTH && row < ATLAS_LINE_WIDTH
        }),
    decreases count,
{
    if count > 0 {
        let before = slots_of(entries, count - 1)->Ok_0;
        if index < before.len() {
            lemma_tiles(entries, count - 1, index);
        }
    }
}

/// What the GPU draws, after [`crate::modules::SRGB_TO_LINEAR`].
pub const SHADER: &'static str = r#"
struct DvdUniforms {
    center: vec2<f32>,
    viewport: vec2<f32>,
    slot_offset: vec2<f32>,
    _padding: vec2<f32>,
};

struct VertexOutput {
    @builtin(position) position: vec4<f32>,
    @location(0) uv: vec2<f32>,
};

@group(0) @binding(0) var<uniform> uniforms: DvdUniforms;
@group(0) @binding(1) var blocks_texture: texture_2d<f32>;
@group(0) @binding(2) var blocks_sampler: sampler;

fn corner(index: u32) -> vec2<f32> {
    let positions = array<vec2<f32>, 6>(
        vec2<f32>(-1.0, -1.0), vec2<f32>(1.0, -1.0), vec2<f32>(-1.0, 1.0),
        vec2<f32>(1.0, -1.0), vec2<f32>(1.0, 1.0), vec2<f32>(-1.0, 1.0),
    );
    return positions[index];
}

fn corner_uv(position: vec2<f32>) -> vec2<f32> {
    return vec2<f32>(0.5 + 0.5 * position.x, 0.5 - 0.5 * position.y);
}

@vertex
fn vs_block(@builtin(vertex_index) index: u32) -> VertexOutput {
    let position = corner(index);
    let pixel = uniforms.center + 128.0 * position;
    var output: VertexOutput;
    output.position = vec4<f32>(pixel * 2.0 / uniforms.viewport, 0.0, 1.0);
    output.uv = (uniforms.slot_offset + corner_uv(position) * 0.999) / 32.0;
    return output;
}

@fragment
fn fs_direct_srgb(input: VertexOutput) -> @location(0) vec4<f32> {
    let color = textureSample(blocks_texture, blocks_sampler, input.uv);
    return vec4<f32>(to_linear(color.rgb), 1.0);
}

@fragment
fn fs_direct_unorm(input: VertexOutput) -> @location(0) vec4<f32> {
    return vec4<f32>(textureSample(blocks_texture, blocks_sampler, input.uv).rgb, 1.0);
}

// The trail keeps the numeric colors; the copy to the surface converts them.
@fragment
fn fs_trail(input: VertexOutput) -> @location(0) vec4<f32> {
    return textureSample(blocks_texture, blocks_sampler, input.uv);
}

@group(0) @binding(3) var trail_texture: texture_2d<f32>;
@group(0) @binding(4) var trail_sampler: sampler;

@vertex
fn vs_copy(@builtin(vertex_index) index: u32) -> VertexOutput {
    let position = corner(index);
    var output: VertexOutput;
    output.position = vec4<f32>(position, 0.0, 1.0);
    output.uv = corner_uv(position);
    return output;
}

@fragment
fn fs_copy_srgb(input: VertexOutput) -> @location(0) vec4<f32> {
    let color = textureSample(trail_texture, trail_sampler, input.uv);
    return vec4<f32>(to_linear(color.rgb), 1.0);
}

@fragment
fn fs_copy_unorm(input: VertexOutput) -> @location(0) vec4<f32> {
    return vec4<f32>(textureSample(trail_texture, trail_sampler, input.uv).rgb, 1.0);
}
"#;

} // verus!
