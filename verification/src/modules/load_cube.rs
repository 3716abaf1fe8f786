//! A cube that turns by a quarter again and again. The face that turns to the front stays there,
//! and the place it came from gets another block.

use vstd::prelude::*;

use crate::bytes;
use crate::modules::block_list;
use crate::modules::block_list::LayoutError;
use crate::random;
use crate::text;

verus! {

pub const VISIBLE_FACE_COUNT: usize = 5;

pub const STORED_OFFSET_COUNT: usize = 6;

pub const UNIFORM_BYTES: usize = 160;

/// How many words a single draw may take. Every word is rejected with a chance of at most one
/// half, so no draw comes near it.
pub const DRAW_LIMIT: u64 = u64::MAX;

#[derive(Clone, Copy, Debug, PartialEq, Eq, Structural)]
pub struct AtlasSpec {
    pub line_width: u32,
    pub slot_count: u32,
}

/// The atlas that a block list describes. White space around its two numbers is not allowed.
pub open spec fn atlas_spec(list: Seq<char>) -> Result<(u32, u32), LayoutError> {
    block_list::complete(
        block_list::declared(text::lines(list), false),
        block_list::entries(text::lines(list)).len(),
    )
}

/// Reads the line width and the slot count of a block list.
pub fn read_atlas_spec(list: &str) -> (read: Result<AtlasSpec, LayoutError>)
    ensures
        match read {
            Ok(atlas) => atlas_spec(list@) == Ok::<(u32, u32), LayoutError>(
                (atlas.line_width, atlas.slot_count),
            ),
            Err(error) => atlas_spec(list@) == Err::<(u32, u32), LayoutError>(error),
        },
{
    let (line_width, slot_count) = block_list::read_layout(list, false)?;
    Ok(AtlasSpec { line_width, slot_count })
}

/// The width and height in pixels of the atlas that a specification describes.
pub fn expected_dimension(atlas: AtlasSpec) -> (dimension: Result<u32, LayoutError>)
    ensures
        dimension == if atlas.line_width * 16 <= u32::MAX {
            Ok::<u32, LayoutError>((atlas.line_width * 16) as u32)
        } else {
            Err(LayoutError::AtlasOverflow)
        },
{
    match atlas.line_width.checked_mul(16) {
        Some(dimension) => Ok(dimension),
        None => Err(LayoutError::AtlasOverflow),
    }
}

/// Whether a word picks a direction.
pub open spec fn picks_direction(word: u32) -> bool {
    (word / 0x2000_0000) % 2 == 0
}

/// The direction that a word picks, from one to four.
pub open spec fn picked_direction(word: u32) -> u8 {
    (word / 0x4000_0000 + 1) as u8
}

/// The place of the first word that `picks` accepts, among those from `from` to `limit`.
pub open spec fn first_pick(
    words: Map<nat, u32>,
    picks: spec_fn(u32) -> bool,
    from: nat,
    limit: nat,
) -> Option<nat>
    decreases limit - from,
{
    if from >= limit {
        None
    } else if picks(words[from]) {
        Some(from)
    } else {
        first_pick(words, picks, from + 1, limit)
    }
}

/// The tile that is drawn from these words, as column and row, and the words that are left.
pub open spec fn offset_drawn(words: Map<nat, u32>, line_width: u32, slot_count: u32) -> Option<
    ((u32, u32), Map<nat, u32>),
> {
    match first_pick(words, |word: u32| random::picks(slot_count, word), 0, DRAW_LIMIT as nat) {
        None => None,
        Some(place) => {
            let slot = random::picked(slot_count, words[place]);
            Some(((slot % line_width, slot / line_width), random::words_after(words, place + 1)))
        },
    }
}

/// The direction that is drawn from these words, and the words that are left.
pub open spec fn direction_drawn(words: Map<nat, u32>) -> Option<(u8, Map<nat, u32>)> {
    match first_pick(words, |word: u32| picks_direction(word), 0, DRAW_LIMIT as nat) {
        None => None,
        Some(place) => Some(
            (picked_direction(words[place]), random::words_after(words, place + 1)),
        ),
    }
}

/// The first `count` tiles that are drawn from these words, and the words that are left.
pub open spec fn offsets_drawn(
    words: Map<nat, u32>,
    line_width: u32,
    slot_count: u32,
    count: nat,
) -> Option<(Seq<(u32, u32)>, Map<nat, u32>)>
    decreases count,
{
    if count == 0 {
        Some((Seq::empty(), words))
    } else {
        match offsets_drawn(words, line_width, slot_count, (count - 1) as nat) {
            None => None,
            Some((offsets, rest)) => match offset_drawn(rest, line_width, slot_count) {
                None => None,
                Some((offset, rest)) => Some((offsets.push(offset), rest)),
            },
        }
    }
}

/// Whether `left` is what is left of `words` once some are taken.
spec fn is_left(left: Map<nat, u32>, words: Map<nat, u32>, taken: nat) -> bool {
    if taken == 0 {
        left == words
    } else {
        left == random::words_after(words, taken)
    }
}

proof fn lemma_one_more_taken(left: Map<nat, u32>, words: Map<nat, u32>, taken: nat)
    requires
        is_left(left, words, taken),
    ensures
        left[0] == words[taken],
        random::words_after(left, 1) == random::words_after(words, taken + 1),
{
    assert(random::words_after(left, 1) =~= random::words_after(words, taken + 1));
}

fn slot_zone(slot_count: u32) -> (bound: u32)
    requires
        slot_count > 0,
    ensures
        bound == random::zone(slot_count as nat),
{
    let mut bound: u32 = slot_count;
    while bound < 0x8000_0000
        invariant
            bound > 0,
            random::zone(bound as nat) == random::zone(slot_count as nat),
        decreases 0x1_0000_0000 - bound,
    {
        bound = bound * 2;
    }
    bound
}

proof fn lemma_product(slot_count: u32, word: u32)
    ensures
        0 <= slot_count * word < slot_count * 0x1_0000_0000 || slot_count == 0,
        slot_count * word <= u64::MAX,
        0 <= (slot_count * word) / 0x1_0000_0000 <= slot_count,
        slot_count > 0 ==> (slot_count * word) / 0x1_0000_0000 < slot_count,
{
    assert(0 <= slot_count * word <= slot_count * 0xffff_ffff) by (nonlinear_arith)
        requires
            0 <= word <= 0xffff_ffff,
            0 <= slot_count,
    ;
}

/// Draws a tile, as column and row. Nothing comes back where no word within the limit picks one.
pub fn random_offset(
    generator: &mut rand_hc::Hc128Rng,
    line_width: u32,
    slot_count: u32,
) -> (offset: Option<(u32, u32)>)
    requires
        line_width > 0,
        slot_count > 0,
    ensures
        match offset_drawn(random::words_to_come(*old(generator)), line_width, slot_count) {
            Some((drawn, rest)) => offset == Some(drawn) && random::words_to_come(*final(generator))
                == rest,
            None => offset is None,
        },
{
    let bound = slot_zone(slot_count);
    let ghost words = random::words_to_come(*generator);
    let ghost picks = |word: u32| random::picks(slot_count, word);
    let mut taken: u64 = 0;
    while taken < DRAW_LIMIT
        invariant
            line_width > 0,
            slot_count > 0,
            taken <= DRAW_LIMIT,
            bound == random::zone(slot_count as nat),
            words == random::words_to_come(*old(generator)),
            picks == (|word: u32| random::picks(slot_count, word)),
            is_left(random::words_to_come(*generator), words, taken as nat),
            first_pick(words, picks, 0, DRAW_LIMIT as nat) == first_pick(
                words,
                picks,
                taken as nat,
                DRAW_LIMIT as nat,
            ),
        decreases DRAW_LIMIT - taken,
    {
        proof {
            lemma_one_more_taken(random::words_to_come(*generator), words, taken as nat);
        }
        let word = random::next_word(generator);
        proof {
            lemma_product(slot_count, word);
        }
        let product: u64 = slot_count as u64 * word as u64;
        if product % 0x1_0000_0000 < bound as u64 {
            let slot: u32 = (product / 0x1_0000_0000) as u32;
            let row: u32 = slot / line_width;
            return Some((slot % line_width, row));
        }
        taken = taken + 1;
    }
    None
}

/// Draws a direction. Nothing comes back where no word within the limit picks one.
pub fn random_direction(generator: &mut rand_hc::Hc128Rng) -> (direction: Option<u8>)
    ensures
        match direction_drawn(random::words_to_come(*old(generator))) {
            Some((drawn, rest)) => direction == Some(drawn) && random::words_to_come(
                *final(generator),
            ) == rest,
            None => direction is None,
        },
        direction matches Some(drawn) ==> 1 <= drawn <= 4,
{
    let ghost words = random::words_to_come(*generator);
    let ghost picks = |word: u32| picks_direction(word);
    let mut taken: u64 = 0;
    while taken < DRAW_LIMIT
        invariant
            taken <= DRAW_LIMIT,
            words == random::words_to_come(*old(generator)),
            picks == (|word: u32| picks_direction(word)),
            is_left(random::words_to_come(*generator), words, taken as nat),
            first_pick(words, picks, 0, DRAW_LIMIT as nat) == first_pick(
                words,
                picks,
                taken as nat,
                DRAW_LIMIT as nat,
            ),
        decreases DRAW_LIMIT - taken,
    {
        proof {
            lemma_one_more_taken(random::words_to_come(*generator), words, taken as nat);
        }
        let word = random::next_word(generator);
        if (word / 0x2000_0000) % 2 == 0 {
            return Some((word / 0x4000_0000 + 1) as u8);
        }
        taken = taken + 1;
    }
    None
}

/// The cube as contracts speak of it.
#[verifier::ext_equal]
pub struct CubeView {
    pub line_width: u32,
    pub slot_count: u32,
    /// The tiles of the faces, as columns and rows: the front, the four sides and the back.
    pub offsets: Seq<(u32, u32)>,
    /// The side that turns to the front, from one to four.
    pub direction: u8,
    /// The turn that was seen last.
    pub last_run: u64,
    /// The words that are drawn next.
    pub words: Map<nat, u32>,
}

impl CubeView {
    pub open spec fn wf(self) -> bool {
        &&& self.line_width > 0
        &&& self.slot_count > 0
        &&& self.offsets.len() == STORED_OFFSET_COUNT
        &&& 1 <= self.direction <= 4
    }

    /// The cube after a turn was seen. Another turn than the last moves the side that turned to the
    /// front, gives that side another tile and draws the next direction, once, however many turns
    /// were missed.
    pub open spec fn turned(self, run: u64) -> Option<Self> {
        if run == self.last_run {
            Some(self)
        } else {
            match offset_drawn(self.words, self.line_width, self.slot_count) {
                None => None,
                Some((offset, rest)) => match direction_drawn(rest) {
                    None => None,
                    Some((direction, words)) => {
                        let side = self.direction as int;
                        Some(
                            CubeView {
                                offsets: self.offsets.update(0, self.offsets[side]).update(
                                    side,
                                    offset,
                                ),
                                direction,
                                last_run: run,
                                words,
                                ..self
                            },
                        )
                    },
                },
            }
        }
    }
}

/// The cube that a seed makes.
pub open spec fn cube_of(line_width: u32, slot_count: u32, seed: Seq<u8>) -> Option<CubeView> {
    match offsets_drawn(
        random::hc128_words(seed),
        line_width,
        slot_count,
        STORED_OFFSET_COUNT as nat,
    ) {
        None => None,
        Some((offsets, rest)) => match direction_drawn(rest) {
            None => None,
            Some((direction, words)) => Some(
                CubeView { line_width, slot_count, offsets, direction, last_run: 0, words },
            ),
        },
    }
}

proof fn lemma_failed_draws(
    words: Map<nat, u32>,
    line_width: u32,
    slot_count: u32,
    upto: nat,
    count: nat,
)
    requires
        upto <= count,
        offsets_drawn(words, line_width, slot_count, upto) is None,
    ensures
        offsets_drawn(words, line_width, slot_count, count) is None,
    decreases count - upto,
{
    if upto < count {
        lemma_failed_draws(words, line_width, slot_count, upto, (count - 1) as nat);
    }
}

pub struct CubeState {
    pub line_width: u32,
    pub slot_count: u32,
    pub offsets: Vec<(u32, u32)>,
    pub direction: u8,
    pub last_run: u64,
    generator: rand_hc::Hc128Rng,
}

impl View for CubeState {
    type V = CubeView;

    closed spec fn view(&self) -> CubeView {
        CubeView {
            line_width: self.line_width,
            slot_count: self.slot_count,
            offsets: self.offsets@,
            direction: self.direction,
            last_run: self.last_run,
            words: random::words_to_come(self.generator),
        }
    }
}

impl CubeState {
    /// Draws the six tiles and the first direction.
    pub fn new(line_width: u32, slot_count: u32, seed: [u8; 32]) -> (state: Option<Self>)
        requires
            line_width > 0,
            slot_count > 0,
        ensures
            match (state, cube_of(line_width, slot_count, seed@)) {
                (Some(state), Some(cube)) => state@ == cube && state@.wf(),
                (None, None) => true,
                _ => false,
            },
    {
        let mut generator = random::seeded(seed);
        let ghost words = random::hc128_words(seed@);
        let mut offsets: Vec<(u32, u32)> = Vec::new();
        while offsets.len() < STORED_OFFSET_COUNT
            invariant
                line_width > 0,
                slot_count > 0,
                offsets@.len() <= STORED_OFFSET_COUNT,
                words == random::hc128_words(seed@),
                offsets_drawn(words, line_width, slot_count, offsets@.len()) == Some(
                    (offsets@, random::words_to_come(generator)),
                ),
            decreases STORED_OFFSET_COUNT - offsets@.len(),
        {
            let ghost count = offsets@.len();
            match random_offset(&mut generator, line_width, slot_count) {
                Some(offset) => {
                    offsets.push(offset);
                },
                None => {
                    proof {
                        lemma_failed_draws(
                            words,
                            line_width,
                            slot_count,
                            count + 1,
                            STORED_OFFSET_COUNT as nat,
                        );
                    }
                    return None;
                },
            }
        }
        match random_direction(&mut generator) {
            Some(direction) => Some(
                CubeState { line_width, slot_count, offsets, direction, last_run: 0, generator },
            ),
            None => None,
        }
    }

    /// Draws a seed from the thread's generator and makes the cube of it.
    pub fn with_random_seed(line_width: u32, slot_count: u32) -> (state: Option<Self>)
        requires
            line_width > 0,
            slot_count > 0,
        ensures
            exists|seed: Seq<u8>|
                seed.len() == 32 && match (state, #[trigger] cube_of(line_width, slot_count, seed)) {
                    (Some(state), Some(cube)) => state@ == cube && state@.wf(),
                    (None, None) => true,
                    _ => false,
                },
    {
        let seed = random::seed();
        assert(seed@.len() == 32);
        CubeState::new(line_width, slot_count, seed)
    }

    /// Turns the cube. Where the draws fail, the cube keeps its faces and the turn is not taken.
    pub fn advance(&mut self, run: u64) -> (turned: bool)
        requires
            old(self)@.wf(),
        ensures
            match old(self)@.turned(run) {
                Some(cube) => turned && final(self)@ == cube,
                None => !turned && final(self)@ == (CubeView {
                    words: final(self)@.words,
                    ..old(self)@
                }),
            },
            final(self)@.wf(),
    {
        if run == self.last_run {
            return true;
        }
        let offset = match random_offset(&mut self.generator, self.line_width, self.slot_count) {
            Some(offset) => offset,
            None => return false,
        };
        let direction = match random_direction(&mut self.generator) {
            Some(direction) => direction,
            None => return false,
        };
        let side: usize = self.direction as usize;
        let incoming = self.offsets[side];
        self.offsets.set(0, incoming);
        self.offsets.set(side, offset);
        self.direction = direction;
        self.last_run = run;
        true
    }

    /// The tiles of the faces that can be seen.
    pub fn visible_offsets(&self) -> (visible: &[(u32, u32)])
        requires
            self@.wf(),
        ensures
            visible@ == self@.offsets.take(VISIBLE_FACE_COUNT as int),
    {
        vstd::slice::slice_subrange(self.offsets.as_slice(), 0, VISIBLE_FACE_COUNT)
    }
}

/// The words of the uniform block: the matrix, the five tiles, each in four words, and the width of
/// the atlas in four words.
pub open spec fn uniform_words(
    matrix: Seq<u32>,
    offsets: Seq<(u32, u32)>,
    atlas_width: u32,
) -> Seq<u32> {
    Seq::new(
        40,
        |i: int|
            if i < 16 {
                matrix[i]
            } else if i < 36 && i % 4 == 0 {
                offsets[i / 4 - 4].0
            } else if i < 36 && i % 4 == 1 {
                offsets[i / 4 - 4].1
            } else if i == 36 {
                atlas_width
            } else {
                0
            },
    )
}

/// Lays out the uniform block. Each scalar is passed by its bits.
pub fn uniform_bytes(matrix: &[u32; 16], offsets: &[(u32, u32)], atlas_width: u32) -> (encoded: Vec<
    u8,
>)
    requires
        offsets@.len() == VISIBLE_FACE_COUNT,
    ensures
        encoded@.len() == UNIFORM_BYTES,
        bytes::holds_words(encoded@, uniform_words(matrix@, offsets@, atlas_width)),
{
    let mut words: Vec<u32> = Vec::new();
    let ghost expected = uniform_words(matrix@, offsets@, atlas_width);
    let mut index: usize = 0;
    while index < 40
        invariant
            index <= 40,
            offsets@.len() == VISIBLE_FACE_COUNT,
            expected == uniform_words(matrix@, offsets@, atlas_width),
            words@ == expected.take(index as int),
        decreases 40 - index,
    {
        let word: u32 = if index < 16 {
            matrix[index]
        } else if index < 36 && index % 4 == 0 {
            offsets[index / 4 - 4].0
        } else if index < 36 && index % 4 == 1 {
            offsets[index / 4 - 4].1
        } else if index == 36 {
            atlas_width
        } else {
            0
        };
        words.push(word);
        index = index + 1;
        assert(words@ == expected.take(index as int));
    }
    assert(expected.take(40) == expected);
    bytes::encode_words(words.as_slice())
}

/// The slot that a word picks exists.
pub proof fn lemma_picked_slots_exist(slot_count: u32, word: u32)
    requires
        slot_count > 0,
    ensures
        random::picked(slot_count, word) < slot_count,
{
    lemma_product(slot_count, word);
}

/// How many words pick a given slot.
pub open spec fn share(slot_count: u32) -> int {
    random::zone(slot_count as nat) as int / slot_count as int
}

/// The first word that picks a given slot.
pub open spec fn first_word_of(slot_count: u32, slot: u32) -> int {
    (slot * 0x1_0000_0000 + slot_count - 1) / (slot_count as int)
}

proof fn lemma_zone(number: nat, base: nat, times: nat)
    requires
        base > 0,
        times > 0,
        number == base * times,
        number < 0x1_0000_0000,
    ensures
        random::zone(number) % base == 0,
        0x8000_0000 <= random::zone(number) < 0x1_0000_0000,
    decreases 0x1_0000_0000 - number,
{
    assert(number > 0) by (nonlinear_arith)
        requires
            number == base * times,
            base > 0,
            times > 0,
    ;
    if number < 0x8000_0000 {
        assert(2 * number == base * (2 * times)) by (nonlinear_arith)
            requires
                number == base * times,
        ;
        lemma_zone(2 * number, base, 2 * times);
    } else {
        vstd::arithmetic::div_mod::lemma_mod_multiples_basic(times as int, base as int);
        assert(base * times == times * base) by (nonlinear_arith);
    }
}

/// Every slot is equally likely: the words that pick it are as many as those that pick any other
/// and follow each other.
pub proof fn lemma_slots_are_equally_likely(slot_count: u32, slot: u32, word: u32)
    requires
        slot < slot_count,
    ensures
        random::picks(slot_count, word) && random::picked(slot_count, word) == slot <==> first_word_of(
            slot_count,
            slot,
        ) <= word < first_word_of(slot_count, slot) + share(slot_count),
{
    let n = slot_count as int;
    let w = word as int;
    let s = slot as int;
    let start = s * 0x1_0000_0000;
    let bound = random::zone(slot_count as nat) as int;
    let first = first_word_of(slot_count, slot);
    let m = share(slot_count);
    lemma_product(slot_count, word);
    assert(slot_count * 1 == slot_count);
    lemma_zone(slot_count as nat, slot_count as nat, 1);
    vstd::arithmetic::div_mod::lemma_fundamental_div_mod(bound, n);
    assert(bound == n * m);
    let product = n * w;
    vstd::arithmetic::div_mod::lemma_fundamental_div_mod(start + n - 1, n);
    let rest = (start + n - 1) % n;
    assert(start + n - 1 == n * first + rest);
    assert(product >= start <==> w >= first) by (nonlinear_arith)
        requires
            n > 0,
            product == n * w,
            start + n - 1 == n * first + rest,
            0 <= rest < n,
    ;
    assert(n * (w - m) == product - bound) by (nonlinear_arith)
        requires
            product == n * w,
            bound == n * m,
    ;
    assert(product - bound >= start <==> w - m >= first) by (nonlinear_arith)
        requires
            n > 0,
            n * (w - m) == product - bound,
            start + n - 1 == n * first + rest,
            0 <= rest < n,
    ;
}

/// Every direction is equally likely: two to the twenty-ninth words pick it.
pub proof fn lemma_directions_are_equally_likely(direction: u8, word: u32)
    requires
        1 <= direction <= 4,
    ensures
        picks_direction(word) && picked_direction(word) == direction <==> (direction - 1)
            * 0x4000_0000 <= word < (direction - 1) * 0x4000_0000 + 0x2000_0000,
{
}

/// A turn brings the side that it turns to the front and touches no other face than that side.
pub proof fn lemma_a_turn_moves_one_face(cube: CubeView, run: u64)
    requires
        cube.wf(),
        run != cube.last_run,
        cube.turned(run) is Some,
    ensures
        ({
            let next = cube.turned(run)->0;
            &&& next.offsets[0] == cube.offsets[cube.direction as int]
            &&& forall|face: int|
                0 < face < STORED_OFFSET_COUNT && face != cube.direction ==> #[trigger]
                next.offsets[face] == cube.offsets[face]
        }),
{
}

/// What the GPU draws, after [`crate::modules::SRGB_TO_LINEAR`].
pub const SHADER: &'static str = r#"
struct ModuleUniforms {
    mvp: mat4x4<f32>,
    slot_offsets: array<vec4<f32>, 5>,
    atlas_width: f32,
};

struct VertexOutput {
    @builtin(position) position: vec4<f32>,
    @location(0) tex: vec2<f32>,
    @location(1) @interpolate(flat) slot: u32,
};

@group(0) @binding(0) var<uniform> uniforms: ModuleUniforms;
@group(0) @binding(1) var block_atlas: texture_2d<f32>;
@group(0) @binding(2) var block_sampler: sampler;

@vertex
fn vs_main(@builtin(vertex_index) vertex_index: u32) -> VertexOutput {
    // Five faces of two triangles each.
    let positions = array<vec3<f32>, 30>(
        vec3<f32>(-0.5,-0.5,-0.5), vec3<f32>( 0.5,-0.5,-0.5), vec3<f32>(-0.5, 0.5,-0.5),
        vec3<f32>( 0.5,-0.5,-0.5), vec3<f32>( 0.5, 0.5,-0.5), vec3<f32>(-0.5, 0.5,-0.5),
        vec3<f32>(-0.5, 0.5,-0.5), vec3<f32>( 0.5, 0.5,-0.5), vec3<f32>(-0.5, 0.5, 0.5),
        vec3<f32>( 0.5, 0.5,-0.5), vec3<f32>( 0.5, 0.5, 0.5), vec3<f32>(-0.5, 0.5, 0.5),
        vec3<f32>(-0.5,-0.5, 0.5), vec3<f32>( 0.5,-0.5, 0.5), vec3<f32>(-0.5,-0.5,-0.5),
        vec3<f32>( 0.5,-0.5, 0.5), vec3<f32>( 0.5,-0.5,-0.5), vec3<f32>(-0.5,-0.5,-0.5),
        vec3<f32>(-0.5,-0.5, 0.5), vec3<f32>(-0.5,-0.5,-0.5), vec3<f32>(-0.5, 0.5, 0.5),
        vec3<f32>(-0.5,-0.5,-0.5), vec3<f32>(-0.5, 0.5,-0.5), vec3<f32>(-0.5, 0.5, 0.5),
        vec3<f32>( 0.5,-0.5,-0.5), vec3<f32>( 0.5,-0.5, 0.5), vec3<f32>( 0.5, 0.5,-0.5),
        vec3<f32>( 0.5,-0.5, 0.5), vec3<f32>( 0.5, 0.5, 0.5), vec3<f32>( 0.5, 0.5,-0.5),
    );
    let texcoords = array<vec2<f32>, 6>(
        vec2<f32>(0.0, 0.0), vec2<f32>(1.0, 0.0), vec2<f32>(0.0, 1.0),
        vec2<f32>(1.0, 0.0), vec2<f32>(1.0, 1.0), vec2<f32>(0.0, 1.0),
    );

    var output: VertexOutput;
    output.position = uniforms.mvp * vec4<f32>(positions[vertex_index], 1.0);
    output.tex = texcoords[vertex_index % 6u];
    output.slot = vertex_index / 6u;
    return output;
}

fn atlas_color(input: VertexOutput) -> vec4<f32> {
    let slot = uniforms.slot_offsets[input.slot].xy;
    let tex = (slot + vec2<f32>(1.0 - input.tex.x, 1.0 - input.tex.y)) / uniforms.atlas_width;
    return textureSample(block_atlas, block_sampler, tex);
}

@fragment
fn fs_srgb(input: VertexOutput) -> @location(0) vec4<f32> {
    let color = atlas_color(input);
    return vec4<f32>(to_linear(color.rgb), color.a);
}

@fragment
fn fs_unorm(input: VertexOutput) -> @location(0) vec4<f32> {
    return atlas_color(input);
}
"#;

} // verus!
