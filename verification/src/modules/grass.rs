//! A field of tiles on which grass spreads, column by column, and scrolls along.

use vstd::prelude::*;

use crate::bytes;
use crate::modules::RenderSize;
use crate::random;

verus! {

pub const TILE_PIXELS: u32 = 120;

pub const UNIFORM_BYTES: usize = 32;

/// Columns beyond this one are the work area: grass that comes up there scrolls the field.
pub const LAST_FIXED_COLUMN: u32 = 9;

/// The bits of the scalar one.
pub const ONE: u32 = 0x3f80_0000;

/// The bits of the scalar minus one.
pub const MINUS_ONE: u32 = 0xbf80_0000;

/// The bits of the double-precision scalar minus one.
pub const MINUS_ONE_DOUBLE: u64 = 0xbff0_0000_0000_0000;

#[derive(Clone, Copy, Debug, PartialEq, Eq, Structural)]
pub struct GridDimensions {
    pub allocated_columns: u32,
    pub visible_columns: u32,
    pub rows: u32,
}

/// How many tiles cover a length, at least one.
pub open spec fn tiles_across(length: u32) -> int {
    if length == 0 {
        1
    } else {
        (length + TILE_PIXELS - 1) / TILE_PIXELS as int
    }
}

fn count_tiles(length: u32) -> (tiles: u32)
    ensures
        tiles == tiles_across(length),
        1 <= tiles <= 35_791_395,
{
    if length == 0 {
        return 1;
    }
    (length - 1) / TILE_PIXELS + 1
}

/// The grid for a screen: the tiles that cover it, and twice the columns but at least twenty in
/// store.
pub fn grid_dimensions(size: RenderSize) -> (dimensions: GridDimensions)
    ensures
        dimensions.rows == tiles_across(size.height),
        dimensions.visible_columns == tiles_across(size.width),
        dimensions.allocated_columns == if 2 * tiles_across(size.width) > 20 {
            2 * tiles_across(size.width)
        } else {
            20
        },
{
    let rows = count_tiles(size.height);
    let visible_columns = count_tiles(size.width);
    let doubled: u32 = 2 * visible_columns;
    let allocated_columns: u32 = if doubled > 20 {
        doubled
    } else {
        20
    };
    GridDimensions { allocated_columns, visible_columns, rows }
}

/// The columns in which grass may come up: all but the first.
pub fn candidate_column_bounds(allocated_columns: u32) -> (bounds: (u32, u32))
    ensures
        bounds == (1u32, allocated_columns),
{
    (1, allocated_columns)
}

/// The field as contracts speak of it. A biome is a pair of scalars, by their bits.
#[verifier::ext_equal]
pub struct GrassView {
    pub allocated_columns: u32,
    pub visible_columns: u32,
    pub rows: u32,
    pub biomes: Seq<(u32, u32)>,
    pub last_bucket: Option<u64>,
    pub last_shift: u64,
    pub offset: u32,
    pub shift_start: u32,
    pub dirty: bool,
}

impl GrassView {
    pub open spec fn wf(self) -> bool {
        &&& self.allocated_columns * self.rows <= u32::MAX
        &&& self.biomes.len() == self.allocated_columns * self.rows
    }

    /// Where a tile is stored: column by column.
    pub open spec fn place(self, column: int, row: int) -> int {
        column * self.rows + row
    }

    /// The field with its columns moved to the left by one. The first leaves, and bare earth comes
    /// in as the last.
    pub open spec fn scrolled(self, elapsed: u64, shift_start: u32) -> Self {
        GrassView {
            biomes: self.biomes.skip(self.rows as int) + Seq::new(
                self.rows as nat,
                |row: int| (ONE, ONE),
            ),
            offset: ((self.offset + 1) % 0x1_0000_0000) as u32,
            last_shift: elapsed,
            shift_start,
            dirty: true,
            ..self
        }
    }

    /// The field with a biome on one of its tiles, scrolled where the tile lies in the work area.
    pub open spec fn planted(
        self,
        column: u32,
        row: u32,
        biome: (u32, u32),
        elapsed: u64,
        shift_start: u32,
    ) -> Self {
        let planted = GrassView {
            biomes: self.biomes.update(self.place(column as int, row as int), biome),
            dirty: true,
            ..self
        };
        if column > LAST_FIXED_COLUMN {
            planted.scrolled(elapsed, shift_start)
        } else {
            planted
        }
    }

    /// The places of the tiles beside, above and below a tile: left, right, up and down, as far as
    /// the field reaches.
    pub open spec fn neighbors(self, column: u32, row: u32) -> Seq<usize> {
        let left = seq![self.place(column - 1, row as int) as usize];
        let right = if column + 1 < self.allocated_columns {
            left.push(self.place(column + 1, row as int) as usize)
        } else {
            left
        };
        let up = if row > 0 {
            right.push(self.place(column as int, row - 1) as usize)
        } else {
            right
        };
        if row + 1 < self.rows {
            up.push(self.place(column as int, row + 1) as usize)
        } else {
            up
        }
    }
}

pub struct GrassState {
    pub allocated_columns: u32,
    pub visible_columns: u32,
    pub rows: u32,
    pub biomes: Vec<(u32, u32)>,
    pub last_bucket: Option<u64>,
    pub last_shift: u64,
    pub offset: u32,
    pub shift_start: u32,
    pub dirty: bool,
    pub generator: rand_hc::Hc128Rng,
}

impl View for GrassState {
    type V = GrassView;

    open spec fn view(&self) -> GrassView {
        GrassView {
            allocated_columns: self.allocated_columns,
            visible_columns: self.visible_columns,
            rows: self.rows,
            biomes: self.biomes@,
            last_bucket: self.last_bucket,
            last_shift: self.last_shift,
            offset: self.offset,
            shift_start: self.shift_start,
            dirty: self.dirty,
        }
    }
}

proof fn lemma_place(view: GrassView, column: int, row: int)
    requires
        view.wf(),
        0 <= column < view.allocated_columns,
        0 <= row < view.rows,
    ensures
        0 <= column * view.rows <= view.place(column, row) < view.allocated_columns * view.rows,
        column * view.rows + view.rows <= view.allocated_columns * view.rows,
{
    let rows = view.rows as int;
    let columns = view.allocated_columns as int;
    assert(0 <= column * rows && column * rows + rows <= columns * rows) by (nonlinear_arith)
        requires
            0 <= column < columns,
            0 <= rows,
    ;
}

impl GrassState {
    /// A bare field whose first column is grass.
    pub fn new(allocated_columns: u32, visible_columns: u32, rows: u32, seed: [u8; 32]) -> (state:
        Self)
        requires
            allocated_columns > 0 || rows == 0,
            allocated_columns * rows <= u32::MAX,
        ensures
            state@ == (GrassView {
                allocated_columns,
                visible_columns,
                rows,
                biomes: Seq::new(
                    (allocated_columns * rows) as nat,
                    |place: int|
                        if place < rows {
                            (0u32, 0u32)
                        } else {
                            (ONE, ONE)
                        },
                ),
                last_bucket: None,
                last_shift: MINUS_ONE_DOUBLE,
                offset: 0,
                shift_start: MINUS_ONE,
                dirty: true,
            }),
            state@.wf(),
            random::words_to_come(state.generator) == random::hc128_words(seed@),
    {
        assert(rows <= allocated_columns * rows) by (nonlinear_arith)
            requires
                allocated_columns > 0 || rows == 0,
                rows >= 0,
        ;
        let count: u32 = allocated_columns * rows;
        let mut biomes: Vec<(u32, u32)> = Vec::new();
        let mut place: u32 = 0;
        while place < count
            invariant
                place <= count,
                biomes@ == Seq::new(
                    place as nat,
                    |place: int|
                        if place < rows {
                            (0u32, 0u32)
                        } else {
                            (ONE, ONE)
                        },
                ),
            decreases count - place,
        {
            let biome: (u32, u32) = if place < rows {
                (0, 0)
            } else {
                (ONE, ONE)
            };
            biomes.push(biome);
            place = place + 1;
            assert(biomes@ == Seq::new(
                place as nat,
                |place: int|
                    if place < rows {
                        (0u32, 0u32)
                    } else {
                        (ONE, ONE)
                    },
            ));
        }
        GrassState {
            allocated_columns,
            visible_columns,
            rows,
            biomes,
            last_bucket: None,
            last_shift: MINUS_ONE_DOUBLE,
            offset: 0,
            shift_start: MINUS_ONE,
            dirty: true,
            generator: random::seeded(seed),
        }
    }

    /// A bare field with a seed from the thread's generator.
    pub fn with_random_seed(dimensions: GridDimensions) -> (state: Self)
        requires
            dimensions.allocated_columns > 0 || dimensions.rows == 0,
            dimensions.allocated_columns * dimensions.rows <= u32::MAX,
        ensures
            state@.wf(),
            state@.allocated_columns == dimensions.allocated_columns,
            state@.visible_columns == dimensions.visible_columns,
            state@.rows == dimensions.rows,
            forall|place: int|
                0 <= place < state@.biomes.len() ==> #[trigger] state@.biomes[place] == if place
                    < dimensions.rows {
                    (0u32, 0u32)
                } else {
                    (ONE, ONE)
                },
            state@.last_bucket is None && state@.offset == 0 && state@.dirty,
            state@.last_shift == MINUS_ONE_DOUBLE && state@.shift_start == MINUS_ONE,
            exists|seed: Seq<u8>|
                seed.len() == 32 && random::words_to_come(state.generator)
                    == #[trigger] random::hc128_words(seed),
    {
        let seed = random::seed();
        assert(seed@.len() == 32);
        GrassState::new(
            dimensions.allocated_columns,
            dimensions.visible_columns,
            dimensions.rows,
            seed,
        )
    }

    /// Whether a screen needs a field of other dimensions.
    pub fn needs_resize(&self, dimensions: GridDimensions) -> (needs: bool)
        ensures
            needs == !(self@.allocated_columns == dimensions.allocated_columns
                && self@.visible_columns == dimensions.visible_columns && self@.rows
                == dimensions.rows),
    {
        !(self.allocated_columns == dimensions.allocated_columns && self.visible_columns
            == dimensions.visible_columns && self.rows == dimensions.rows)
    }

    /// Draws the tile on which grass may come up. A bucket that was seen already draws none, and a
    /// tile of the work area is passed over unless the field may scroll again.
    pub fn choose_candidate(&mut self, bucket: u64, may_scroll: bool) -> (candidate: Option<
        (u32, u32),
    >)
        requires
            old(self).last_bucket != Some(bucket) ==> old(self).allocated_columns > 1 && old(
                self,
            ).rows > 0,
        ensures
            final(self)@ == (GrassView { last_bucket: Some(bucket), ..old(self)@ }),
            old(self).last_bucket == Some(bucket) ==> candidate is None && *final(self) == *old(
                self,
            ),
            old(self).last_bucket != Some(bucket) ==> exists|column: u32, row: u32|
                {
                    &&& 1 <= column < old(self).allocated_columns
                    &&& 0 <= row < old(self).rows
                    &&& #[trigger] tile_drawn(
                        random::words_to_come(old(self).generator),
                        old(self).allocated_columns,
                        old(self).rows,
                        column,
                        row,
                        random::words_to_come(final(self).generator),
                    )
                    &&& candidate == if column > LAST_FIXED_COLUMN && !may_scroll {
                        None
                    } else {
                        Some((column, row))
                    }
                },
    {
        if let Some(last) = self.last_bucket {
            if last == bucket {
                return None;
            }
        }
        self.last_bucket = Some(bucket);
        let (first_column, column_end) = candidate_column_bounds(self.allocated_columns);
        let column = random::between(&mut self.generator, first_column, column_end);
        let ghost middle = random::words_to_come(self.generator);
        let row = random::between(&mut self.generator, 0, self.rows);
        assert(random::draws(
            random::words_to_come(old(self).generator),
            1,
            self.allocated_columns,
            column,
            middle,
        ));
        assert(tile_drawn(
            random::words_to_come(old(self).generator),
            old(self).allocated_columns,
            old(self).rows,
            column,
            row,
            random::words_to_come(self.generator),
        ));
        if column > LAST_FIXED_COLUMN && !may_scroll {
            None
        } else {
            Some((column, row))
        }
    }

    /// The places of the tiles next to a tile.
    pub fn neighbors(&self, column: u32, row: u32) -> (places: Vec<usize>)
        requires
            self@.wf(),
            1 <= column < self.allocated_columns,
            row < self.rows,
        ensures
            places@ == self@.neighbors(column, row),
            forall|i: int|
                0 <= i < places@.len() ==> #[trigger] places@[i] < self@.biomes.len(),
    {
        let mut places: Vec<usize> = Vec::new();
        places.push(self.index(column - 1, row));
        if column + 1 < self.allocated_columns {
            places.push(self.index(column + 1, row));
        }
        if row > 0 {
            places.push(self.index(column, row - 1));
        }
        if self.rows - row > 1 {
            places.push(self.index(column, row + 1));
        }
        assert(places@ == self@.neighbors(column, row));
        places
    }

    /// Draws whether grass comes up, with three chances in four.
    pub fn draw_growth(&mut self) -> (grows: bool)
        ensures
            final(self)@ == old(self)@,
            exists|drawn: u32|
                grows == (drawn != 3) && #[trigger] random::draws(
                    random::words_to_come(old(self).generator),
                    0,
                    4,
                    drawn,
                    random::words_to_come(final(self).generator),
                ),
    {
        let drawn = random::between(&mut self.generator, 0, 4);
        assert(random::draws(
            random::words_to_come(old(self).generator),
            0,
            4,
            drawn,
            random::words_to_come(self.generator),
        ));
        drawn != 3
    }

    /// Draws the biome towards which the grass tends, one of three corners.
    pub fn draw_target(&mut self) -> (target: (u32, u32))
        ensures
            final(self)@ == old(self)@,
            exists|drawn: u32|
                {
                    &&& target == if drawn == 0 {
                        (0u32, 0u32)
                    } else if drawn == 1 {
                        (ONE, 0u32)
                    } else {
                        (0u32, ONE)
                    }
                    &&& #[trigger] random::draws(
                        random::words_to_come(old(self).generator),
                        0,
                        3,
                        drawn,
                        random::words_to_come(final(self).generator),
                    )
                },
    {
        let drawn = random::between(&mut self.generator, 0, 3);
        assert(random::draws(
            random::words_to_come(old(self).generator),
            0,
            3,
            drawn,
            random::words_to_come(self.generator),
        ));
        if drawn == 0 {
            (0, 0)
        } else if drawn == 1 {
            (ONE, 0)
        } else {
            (0, ONE)
        }
    }

    /// Lets grass come up on a tile.
    pub fn plant(
        &mut self,
        column: u32,
        row: u32,
        biome: (u32, u32),
        elapsed: u64,
        shift_start: u32,
    )
        requires
            old(self)@.wf(),
            column < old(self).allocated_columns,
            row < old(self).rows,
        ensures
            final(self)@ == old(self)@.planted(column, row, biome, elapsed, shift_start),
            final(self)@.wf(),
            final(self).generator == old(self).generator,
    {
        let place = self.index(column, row);
        self.biomes.set(place, biome);
        self.dirty = true;
        if column > LAST_FIXED_COLUMN {
            self.scroll_left(elapsed, shift_start);
        }
    }

    /// Moves every column to the left by one.
    pub fn scroll_left(&mut self, elapsed: u64, shift_start: u32)
        requires
            old(self)@.wf(),
            old(self).allocated_columns > 0,
        ensures
            final(self)@ == old(self)@.scrolled(elapsed, shift_start),
            final(self)@.wf(),
            final(self).generator == old(self).generator,
    {
        let count: usize = self.biomes.len();
        let column_len: usize = self.rows as usize;
        let ghost before = self.biomes@;
        let ghost expected = self@.scrolled(elapsed, shift_start).biomes;
        assert(column_len <= count) by (nonlinear_arith)
            requires
                count == self.allocated_columns * self.rows,
                column_len == self.rows,
                self.allocated_columns > 0,
        ;
        let mut place: usize = 0;
        let rest: usize = count - column_len;
        while place < rest
            invariant
                place <= rest,
                rest + column_len == count,
                self.biomes@.len() == count,
                before.len() == count,
                expected.len() == count,
                forall|i: int| 0 <= i < rest ==> expected[i] == before[i + column_len],
                forall|i: int| 0 <= i < place ==> self.biomes@[i] == expected[i],
                forall|i: int| place <= i < count ==> self.biomes@[i] == before[i],
                self@ == (GrassView { biomes: self.biomes@, ..old(self)@ }),
                self.generator == old(self).generator,
            decreases rest - place,
        {
            let moved = self.biomes[place + column_len];
            self.biomes.set(place, moved);
            place = place + 1;
        }
        while place < count
            invariant
                rest <= place <= count,
                rest + column_len == count,
                self.biomes@.len() == count,
                expected.len() == count,
                forall|i: int| rest <= i < count ==> expected[i] == (ONE, ONE),
                forall|i: int| 0 <= i < place ==> self.biomes@[i] == expected[i],
                self@ == (GrassView { biomes: self.biomes@, ..old(self)@ }),
                self.generator == old(self).generator,
            decreases count - place,
        {
            self.biomes.set(place, (ONE, ONE));
            place = place + 1;
        }
        assert(self.biomes@ == expected);
        self.offset = self.offset.wrapping_add(1);
        self.last_shift = elapsed;
        self.shift_start = shift_start;
        self.dirty = true;
    }

    fn index(&self, column: u32, row: u32) -> (place: usize)
        requires
            self@.wf(),
            column < self.allocated_columns,
            row < self.rows,
        ensures
            place == self@.place(column as int, row as int),
            place < self@.biomes.len(),
    {
        proof {
            lemma_place(self@, column as int, row as int);
        }
        (column * self.rows + row) as usize
    }
}

/// Whether a tile is drawn from these words, first its column and then its row.
pub open spec fn tile_drawn(
    words: Map<nat, u32>,
    allocated_columns: u32,
    rows: u32,
    column: u32,
    row: u32,
    rest: Map<nat, u32>,
) -> bool {
    exists|middle: Map<nat, u32>|
        #[trigger] random::draws(words, 1, allocated_columns, column, middle) && random::draws(
            middle,
            0,
            rows,
            row,
            rest,
        )
}

/// Scrolling keeps the place of every tile in the world, which is the sum of its column and the
/// offset of the field: each tile that stays is found one column further to the left, and the
/// offset has grown by one.
pub proof fn lemma_scrolling_keeps_the_world(
    field: GrassView,
    column: int,
    row: int,
    elapsed: u64,
    shift_start: u32,
)
    requires
        field.wf(),
        0 < column < field.allocated_columns,
        0 <= row < field.rows,
    ensures
        ({
            let after = field.scrolled(elapsed, shift_start);
            &&& after.wf()
            &&& after.biomes[after.place(column - 1, row)] == field.biomes[field.place(column, row)]
            &&& after.biomes[after.place(field.allocated_columns - 1, row)] == (ONE, ONE)
            &&& (column - 1 + after.offset) % 0x1_0000_0000 == (column + field.offset)
                % 0x1_0000_0000
        }),
{
    let after = field.scrolled(elapsed, shift_start);
    let rows = field.rows as int;
    let columns = field.allocated_columns as int;
    lemma_place(field, column, row);
    lemma_place(field, columns - 1, row);
    assert((column - 1) * rows == column * rows - rows) by (nonlinear_arith);
    assert((columns - 1) * rows == columns * rows - rows) by (nonlinear_arith);
    assert(after.biomes.len() == field.biomes.len());
    assert(field.biomes.skip(rows)[after.place(column - 1, row)] == field.biomes[field.place(
        column,
        row,
    )]);
}

/// The uniform block: the columns in store, the visible columns, the rows, the seed, the offset, the
/// time, when the field last began to scroll, and a word of padding. Each scalar is passed by its
/// bits.
pub fn uniform_bytes(
    allocated_columns: u32,
    visible_columns: u32,
    rows: u32,
    seed: u32,
    offset: u32,
    time: u32,
    shift_start: u32,
) -> (encoded: Vec<u8>)
    ensures
        encoded@.len() == UNIFORM_BYTES,
        bytes::holds_words(
            encoded@,
            seq![allocated_columns, visible_columns, rows, seed, offset, time, shift_start, 0u32],
        ),
{
    let words: [u32; 8] = [
        allocated_columns,
        visible_columns,
        rows,
        seed,
        offset,
        time,
        shift_start,
        0,
    ];
    assert(words@ == seq![
        allocated_columns,
        visible_columns,
        rows,
        seed,
        offset,
        time,
        shift_start,
        0u32,
    ]);
    bytes::encode_words(words.as_slice())
}

/// The words of the biome buffer: two for each tile.
pub open spec fn biome_words(biomes: Seq<(u32, u32)>) -> Seq<u32> {
    Seq::new(
        2 * biomes.len(),
        |i: int|
            if i % 2 == 0 {
                biomes[i / 2].0
            } else {
                biomes[i / 2].1
            },
    )
}

/// Lays out the biome buffer.
pub fn biome_bytes(biomes: &Vec<(u32, u32)>) -> (encoded: Vec<u8>)
    requires
        8 * biomes@.len() <= usize::MAX,
    ensures
        bytes::holds_words(encoded@, biome_words(biomes@)),
{
    let mut words: Vec<u32> = Vec::new();
    let mut index: usize = 0;
    while index < biomes.len()
        invariant
            index <= biomes@.len(),
            words@ == biome_words(biomes@).take(2 * index),
        decreases biomes@.len() - index,
    {
        let (first, second) = biomes[index];
        words.push(first);
        words.push(second);
        index = index + 1;
        assert(words@ == biome_words(biomes@).take(2 * index));
    }
    assert(biome_words(biomes@).take(2 * biomes@.len() as int) == biome_words(biomes@));
    bytes::encode_words(words.as_slice())
}

/// What the GPU draws, after [`crate::modules::SRGB_TO_LINEAR`].
pub const SHADER: &'static str = r#"
struct ModuleUniforms {
    allocated_columns: f32,
    visible_columns: f32,
    rows: f32,
    seed: f32,
    offset: f32,
    time: f32,
    shift_start: f32,
    _padding: f32,
};

struct VertexOutput {
    @builtin(position) position: vec4<f32>,
    @location(0) uv: vec2<f32>,
    @location(1) @interpolate(flat) biome: vec2<f32>,
};

@group(0) @binding(0) var<uniform> uniforms: ModuleUniforms;
@group(0) @binding(1) var<storage, read> biomes: array<vec2<f32>>;
@group(0) @binding(2) var grass_texture: texture_2d<f32>;
@group(0) @binding(3) var dirt_texture: texture_2d<f32>;
@group(0) @binding(4) var biome_colors: texture_2d<f32>;
@group(0) @binding(5) var nearest_sampler: sampler;

fn rand(value: f32) -> f32 {
    return fract(sin(value * 12.9898 + uniforms.seed) * 43758.5453);
}

@vertex
fn vs_main(
    @builtin(vertex_index) vertex_index: u32,
    @builtin(instance_index) instance_index: u32,
) -> VertexOutput {
    let positions = array<vec2<f32>, 6>(
        vec2<f32>(0.0, 0.0), vec2<f32>(1.0, 0.0), vec2<f32>(0.0, 1.0),
        vec2<f32>(1.0, 0.0), vec2<f32>(1.0, 1.0), vec2<f32>(0.0, 1.0),
    );
    let corner = positions[vertex_index];
    let column_height = u32(uniforms.rows);
    let column = instance_index / column_height;
    let row = instance_index - column * column_height;
    let rotation = 1.5707963267948966
        * floor(4.0 * rand(11.0 * (f32(column) + uniforms.offset)
                           + 13.0 * f32(row) + 3.0));
    let s = sin(rotation);
    let c = cos(rotation);
    let position = corner - vec2<f32>(0.5, 0.5);
    let rotated = vec2<f32>(c * position.x + s * position.y,
                            -s * position.x + c * position.y) + vec2<f32>(0.5, 0.5);

    var output: VertexOutput;
    // After a column has left, the field slides to the left for one second.
    let shift = min(uniforms.time - uniforms.shift_start, 1.0);
    let grid_position = vec2<f32>(f32(column) - shift + rotated.x, f32(row) + rotated.y);
    output.position = vec4<f32>(
        grid_position.x * 2.0 / uniforms.visible_columns - 1.0,
        grid_position.y * 2.0 / uniforms.rows - 1.0,
        0.0,
        1.0,
    );
    output.uv = vec2<f32>(corner.x, 1.0 - corner.y);
    output.biome = biomes[instance_index];
    return output;
}

fn tile_color(input: VertexOutput) -> vec4<f32> {
    var tile: vec4<f32>;
    if (input.biome.x + input.biome.y <= 1.0) {
        tile = textureSample(grass_texture, nearest_sampler, input.uv);
    } else {
        tile = textureSample(dirt_texture, nearest_sampler, input.uv);
    }
    let biome = textureSample(biome_colors, nearest_sampler, input.biome);
    return vec4<f32>(tile.rgb * biome.rgb, 1.0);
}

@fragment
fn fs_srgb(input: VertexOutput) -> @location(0) vec4<f32> {
    return vec4<f32>(to_linear(tile_color(input).rgb), 1.0);
}

@fragment
fn fs_unorm(input: VertexOutput) -> @location(0) vec4<f32> {
    return tile_color(input);
}
"#;

} // verus!
