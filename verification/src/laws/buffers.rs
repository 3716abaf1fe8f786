//! What stands where in the buffers that the GPU reads.

use vstd::prelude::*;

use crate::bytes;
use crate::lock::animations::creeper as locked_creeper;
use crate::lock::animations::triangle;
use crate::modules::footprint::Footprint;
use crate::modules::item_models::Vertex;
use crate::modules::{
    blocks, creeper, dvd_bounce, footprint, grass, item_bounce, item_models, load_cube, squid,
};

verus! {

/// Whether four bytes hold a word with the least significant of them first.
pub open spec fn little(buffer: Seq<u8>, at: int, word: u32) -> bool {
    &&& 0 <= at && at + 4 <= buffer.len()
    &&& buffer[at] + 256 * buffer[at + 1] + 65_536 * buffer[at + 2] + 16_777_216 * buffer[at + 3]
        == word
}

/// Whether four bytes hold a word in either order of a machine.
pub open spec fn holds(buffer: Seq<u8>, at: int, word: u32) -> bool {
    &&& 0 <= at && at + 4 <= buffer.len()
    &&& {
        ||| buffer[at] + 256 * buffer[at + 1] + 65_536 * buffer[at + 2] + 16_777_216 * buffer[at + 3]
            == word
        ||| buffer[at + 3] + 256 * buffer[at + 2] + 65_536 * buffer[at + 1] + 16_777_216
            * buffer[at] == word
    }
}

proof fn lemma_digits(word: u32)
    ensures
        ({
            let four = bytes::le_bytes(word);
            four.len() == 4 && four[0] + 256 * four[1] + 65_536 * four[2] + 16_777_216 * four[3]
                == word
        }),
{
    let four = bytes::le_bytes(word);
    assert(four[0] == word % 256);
    assert(four[1] == word / 256 % 256);
    assert(four[2] == word / 65_536 % 256);
    assert(four[3] == word / 16_777_216);
}

proof fn lemma_holds(buffer: Seq<u8>, at: int, word: u32)
    requires
        bytes::holds_word(buffer, at, word),
    ensures
        holds(buffer, at, word),
{
    lemma_digits(word);
    let part = buffer.subrange(at, at + 4);
    assert(part[0] == buffer[at] && part[1] == buffer[at + 1] && part[2] == buffer[at + 2]
        && part[3] == buffer[at + 3]);
    if part == bytes::be_bytes(word) {
        let four = bytes::le_bytes(word);
        assert(four.reverse()[0] == four[3] && four.reverse()[1] == four[2] && four.reverse()[2]
            == four[1] && four.reverse()[3] == four[0]);
    }
}

/// Each of the words that a buffer holds stands at four times its place.
pub proof fn lemma_held(buffer: Seq<u8>, words: Seq<u32>, place: int)
    requires
        bytes::holds_words(buffer, words),
        0 <= place < words.len(),
    ensures
        holds(buffer, 4 * place, words[place]),
        buffer.len() == 4 * words.len(),
{
    lemma_holds(buffer, 4 * place, words[place]);
}

/// Words are laid out one after the other, four bytes each and in their order, each with a given end
/// first. A word that is written changes its own four bytes and no other.
pub proof fn lemma_words_follow_each_other(
    words: &[u32],
    place: int,
    native: Vec<u8>,
    ordered: Vec<u8>,
    written: &mut Vec<u8>,
    written_ordered: &mut Vec<u8>,
    offset: usize,
    value: u32,
    other: int,
)
    requires
        4 * words@.len() <= usize::MAX,
        0 <= place < words@.len(),
        call_ensures(bytes::encode_words, (words,), native),
        call_ensures(bytes::encode_le_words, (words,), ordered),
        offset + 4 <= old(written)@.len(),
        call_ensures(bytes::write_u32, (written, offset, value), ()),
        offset + 4 <= old(written_ordered)@.len(),
        call_ensures(bytes::write_le, (written_ordered, offset, value), ()),
    ensures
        native@.len() == 4 * words@.len() && ordered@.len() == 4 * words@.len(),
        holds(native@, 4 * place, words@[place]),
        little(ordered@, 4 * place, words@[place]),
        final(written)@.len() == old(written)@.len(),
        holds(final(written)@, offset as int, value),
        0 <= other < old(written)@.len() && !(offset <= other < offset + 4) ==> final(written)@[other] == old(written)@[other],
        little(final(written_ordered)@, offset as int, value),
        0 <= other < old(written_ordered)@.len() && !(offset <= other < offset + 4) ==> final(written_ordered)@[other] == old(written_ordered)@[other],
{
    lemma_held(native@, words@, place);
    lemma_little(ordered@, words@, place);
    lemma_holds(final(written)@, offset as int, value);
    lemma_digits(value);
    let part = final(written_ordered)@.subrange(offset as int, offset + 4);
    assert(part[0] == final(written_ordered)@[offset as int]);
    assert(part[1] == final(written_ordered)@[offset + 1]);
    assert(part[2] == final(written_ordered)@[offset + 2]);
    assert(part[3] == final(written_ordered)@[offset + 3]);
}

proof fn lemma_little(buffer: Seq<u8>, words: Seq<u32>, place: int)
    requires
        bytes::holds_le_words(buffer, words),
        0 <= place < words.len(),
    ensures
        little(buffer, 4 * place, words[place]),
{
    lemma_digits(words[place]);
    let part = buffer.subrange(4 * place, 4 * place + 4);
    assert(part == bytes::le_bytes(words[place]));
    assert(part[0] == buffer[4 * place] && part[1] == buffer[4 * place + 1] && part[2]
        == buffer[4 * place + 2] && part[3] == buffer[4 * place + 3]);
}

/// A matrix keeps the order of its sixteen scalars, and a colour that of its four.
pub proof fn lemma_matrices_and_colours(
    matrix: [u32; 16],
    colour: [u32; 4],
    laid_out: Vec<u8>,
    coloured: Vec<u8>,
    place: int,
)
    requires
        0 <= place < 16,
        call_ensures(bytes::matrix_bytes, (&matrix,), laid_out),
        call_ensures(triangle::rgba_bytes, (&colour,), coloured),
    ensures
        laid_out@.len() == 64 && holds(laid_out@, 4 * place, matrix@[place]),
        coloured@.len() == 16,
        place < 4 ==> holds(coloured@, 4 * place, colour@[place]),
{
    lemma_held(laid_out@, matrix@, place);
    if place < 4 {
        lemma_held(coloured@, colour@, place);
    }
}

/// What the shader of the lock's creeper reads: the screen, the two progresses and the two flags.
pub proof fn lemma_uniforms_of_the_locks_creeper(
    width: u32,
    height: u32,
    approach: u32,
    dissolve: u32,
    red: bool,
    dissolving: bool,
    block: Vec<u8>,
)
    requires
        call_ensures(
            locked_creeper::uniform_bytes,
            (width, height, approach, dissolve, red, dissolving),
            block,
        ),
    ensures
        block@.len() == 32,
        holds(block@, 0, width),
        holds(block@, 4, height),
        holds(block@, 8, approach),
        holds(block@, 12, dissolve),
        holds(block@, 16, if red { 1u32 } else { 0u32 }),
        holds(block@, 20, if dissolving { 1u32 } else { 0u32 }),
{
    let words = seq![
        width,
        height,
        approach,
        dissolve,
        if red {
            1u32
        } else {
            0u32
        },
        if dissolving {
            1u32
        } else {
            0u32
        },
        0u32,
        0u32,
    ];
    lemma_held(block@, words, 0);
    lemma_held(block@, words, 1);
    lemma_held(block@, words, 2);
    lemma_held(block@, words, 3);
    lemma_held(block@, words, 4);
    lemma_held(block@, words, 5);
}

/// What the shader of the bouncing block reads: the centre, the screen and the tile.
pub proof fn lemma_uniforms_of_the_bouncing_block(
    center: (u32, u32),
    size: (u32, u32),
    slot: (u32, u32),
    block: Vec<u8>,
)
    requires
        call_ensures(dvd_bounce::uniform_bytes, (center, size, slot), block),
    ensures
        block@.len() == 32,
        holds(block@, 0, center.0),
        holds(block@, 4, center.1),
        holds(block@, 8, size.0),
        holds(block@, 12, size.1),
        holds(block@, 16, slot.0),
        holds(block@, 20, slot.1),
{
    let words = seq![center.0, center.1, size.0, size.1, slot.0, slot.1, 0u32, 0u32];
    lemma_held(block@, words, 0);
    lemma_held(block@, words, 1);
    lemma_held(block@, words, 2);
    lemma_held(block@, words, 3);
    lemma_held(block@, words, 4);
    lemma_held(block@, words, 5);
}

/// What the shaders of the creepers and of the squids read. The greatest distance of a creeper is the
/// scalar 500 and its speed the scalar 20.
pub proof fn lemma_uniforms_of_creepers_and_squids(
    time: u32,
    seed: u32,
    scale: u32,
    width: u32,
    height: u32,
    block: Vec<u8>,
    squids: Vec<u8>,
)
    requires
        call_ensures(creeper::uniform_bytes, (time, seed, scale, width, height), block),
        call_ensures(squid::uniform_bytes, (time, width, height, seed), squids),
    ensures
        block@.len() == 32,
        holds(block@, 0, time),
        holds(block@, 4, seed),
        holds(block@, 8, scale),
        holds(block@, 12, 0x43fa_0000),
        holds(block@, 16, width),
        holds(block@, 20, height),
        holds(block@, 24, 0x41a0_0000),
        squids@.len() == 16,
        holds(squids@, 0, time),
        holds(squids@, 4, width),
        holds(squids@, 8, height),
        holds(squids@, 12, seed),
{
    let words = seq![time, seed, scale, 0x43fa_0000u32, width, height, 0x41a0_0000u32, 0u32];
    lemma_held(block@, words, 0);
    lemma_held(block@, words, 1);
    lemma_held(block@, words, 2);
    lemma_held(block@, words, 3);
    lemma_held(block@, words, 4);
    lemma_held(block@, words, 5);
    lemma_held(block@, words, 6);
    let words = seq![time, width, height, seed];
    lemma_held(squids@, words, 0);
    lemma_held(squids@, words, 1);
    lemma_held(squids@, words, 2);
    lemma_held(squids@, words, 3);
}

/// What the shader of the plane of blocks reads.
pub proof fn lemma_uniforms_of_the_plane(
    across: u32,
    down: u32,
    time: u32,
    vertex_seed: u32,
    fragment_seed: u32,
    width: u32,
    count: u32,
    block: Vec<u8>,
)
    requires
        call_ensures(
            blocks::uniform_bytes,
            (across, down, time, vertex_seed, fragment_seed, width, count),
            block,
        ),
    ensures
        block@.len() == 32,
        holds(block@, 0, across),
        holds(block@, 4, down),
        holds(block@, 8, time),
        holds(block@, 12, vertex_seed),
        holds(block@, 16, fragment_seed),
        holds(block@, 20, width),
        holds(block@, 24, count),
{
    let words = seq![across, down, time, vertex_seed, fragment_seed, width, count, 0u32];
    lemma_held(block@, words, 0);
    lemma_held(block@, words, 1);
    lemma_held(block@, words, 2);
    lemma_held(block@, words, 3);
    lemma_held(block@, words, 4);
    lemma_held(block@, words, 5);
    lemma_held(block@, words, 6);
}

/// What the shader of the field reads, and where it finds the two scalars of each tile.
pub proof fn lemma_buffers_of_the_field(
    allocated: u32,
    visible: u32,
    rows: u32,
    seed: u32,
    offset: u32,
    time: u32,
    shift_start: u32,
    block: Vec<u8>,
    biomes: Vec<(u32, u32)>,
    place: int,
    laid_out: Vec<u8>,
)
    requires
        call_ensures(
            grass::uniform_bytes,
            (allocated, visible, rows, seed, offset, time, shift_start),
            block,
        ),
        8 * biomes@.len() <= usize::MAX,
        0 <= place < biomes@.len(),
        call_ensures(grass::biome_bytes, (&biomes,), laid_out),
    ensures
        block@.len() == 32,
        holds(block@, 0, allocated),
        holds(block@, 4, visible),
        holds(block@, 8, rows),
        holds(block@, 12, seed),
        holds(block@, 16, offset),
        holds(block@, 20, time),
        holds(block@, 24, shift_start),
        laid_out@.len() == 8 * biomes@.len(),
        holds(laid_out@, 8 * place, biomes@[place].0),
        holds(laid_out@, 8 * place + 4, biomes@[place].1),
{
    let words = seq![allocated, visible, rows, seed, offset, time, shift_start, 0u32];
    lemma_held(block@, words, 0);
    lemma_held(block@, words, 1);
    lemma_held(block@, words, 2);
    lemma_held(block@, words, 3);
    lemma_held(block@, words, 4);
    lemma_held(block@, words, 5);
    lemma_held(block@, words, 6);
    lemma_held(laid_out@, grass::biome_words(biomes@), 2 * place);
    lemma_held(laid_out@, grass::biome_words(biomes@), 2 * place + 1);
}

/// What the shader of the footprints reads: the time and the scales, and 32 bytes for each of up to
/// 64 prints, with nothing but zeros behind the last.
pub proof fn lemma_buffers_of_the_footprints(
    time: u32,
    scale_x: u32,
    scale_y: u32,
    globals: Vec<u8>,
    footprints: Vec<Footprint>,
    place: int,
    laid_out: Vec<u8>,
)
    requires
        call_ensures(footprint::global_bytes, (time, scale_x, scale_y), globals),
        footprints@.len() <= 64,
        0 <= place < 64,
        call_ensures(footprint::footprint_bytes, (&footprints,), laid_out),
    ensures
        globals@.len() == 16,
        little(globals@, 0, time),
        little(globals@, 4, scale_x),
        little(globals@, 8, scale_y),
        laid_out@.len() == 2_048,
        place < footprints@.len() ==> {
            let stamp = footprints@[place].stamp;
            &&& little(laid_out@, 32 * place, stamp.center_x)
            &&& little(laid_out@, 32 * place + 4, stamp.center_y)
            &&& little(laid_out@, 32 * place + 8, stamp.turn)
            &&& little(laid_out@, 32 * place + 12, stamp.birth)
            &&& little(laid_out@, 32 * place + 16, stamp.red)
            &&& little(laid_out@, 32 * place + 20, stamp.green)
            &&& little(laid_out@, 32 * place + 24, stamp.blue)
        },
        place >= footprints@.len() ==> forall|word: int|
            0 <= word < 8 ==> #[trigger] little(laid_out@, 4 * (8 * place + word), 0),
{
    let words = seq![time, scale_x, scale_y, 0u32];
    lemma_little(globals@, words, 0);
    lemma_little(globals@, words, 1);
    lemma_little(globals@, words, 2);
    let all = Seq::new(512, |place: int| footprint::footprint_word(footprints@, place));
    assert forall|word: int| 0 <= word < 8 implies #[trigger] little(
        laid_out@,
        4 * (8 * place + word),
        all[8 * place + word],
    ) by {
        lemma_little(laid_out@, all, 8 * place + word);
    }
    assert forall|word: int| 0 <= word < 8 implies #[trigger] ((8 * place + word) / 8) == place
        && (8 * place + word) % 8 == word by {
    }
    if place < footprints@.len() {
        assert(little(laid_out@, 4 * (8 * place + 0), all[8 * place + 0]));
        assert(little(laid_out@, 4 * (8 * place + 1), all[8 * place + 1]));
        assert(little(laid_out@, 4 * (8 * place + 2), all[8 * place + 2]));
        assert(little(laid_out@, 4 * (8 * place + 3), all[8 * place + 3]));
        assert(little(laid_out@, 4 * (8 * place + 4), all[8 * place + 4]));
        assert(little(laid_out@, 4 * (8 * place + 5), all[8 * place + 5]));
        assert(little(laid_out@, 4 * (8 * place + 6), all[8 * place + 6]));
    } else {
        assert forall|word: int| 0 <= word < 8 implies #[trigger] little(
            laid_out@,
            4 * (8 * place + word),
            0,
        ) by {
            assert((8 * place + word) / 8 == place);
            assert(little(laid_out@, 4 * (8 * place + word), all[8 * place + word]));
        }
    }
}

/// What the shader of the cube reads: the matrix, sixteen bytes for the tile of each visible face,
/// its column before its row, and the width of the atlas.
pub proof fn lemma_uniforms_of_the_cube(
    matrix: [u32; 16],
    offsets: &[(u32, u32)],
    width: u32,
    block: Vec<u8>,
    place: int,
    face: int,
)
    requires
        offsets@.len() == 5,
        call_ensures(load_cube::uniform_bytes, (&matrix, offsets, width), block),
        0 <= place < 16,
        0 <= face < 5,
    ensures
        block@.len() == 160,
        holds(block@, 4 * place, matrix@[place]),
        holds(block@, 64 + 16 * face, offsets@[face].0),
        holds(block@, 64 + 16 * face + 4, offsets@[face].1),
        holds(block@, 144, width),
{
    let words = load_cube::uniform_words(matrix@, offsets@, width);
    lemma_held(block@, words, place);
    lemma_held(block@, words, 16 + 4 * face);
    lemma_held(block@, words, 16 + 4 * face + 1);
    lemma_held(block@, words, 36);
}

/// What the shader of the bouncing item reads: the scales of the two axes on the diagonal of the
/// matrix, one eighth for the depth, the corner from which pixels are counted, and the motion.
pub proof fn lemma_uniforms_of_the_bouncing_item(
    scale_x: u32,
    scale_y: u32,
    time: u32,
    amplitude: u32,
    phase: u32,
    decay: u32,
    speed: u32,
    block: Vec<u8>,
)
    requires
        call_ensures(
            item_bounce::uniform_bytes,
            (scale_x, scale_y, time, amplitude, phase, decay, speed),
            block,
        ),
    ensures
        block@.len() == 96,
        holds(block@, 0, scale_x),
        holds(block@, 20, scale_y),
        holds(block@, 40, 0x3e00_0000),
        holds(block@, 48, 0x3f80_0000),
        holds(block@, 52, 0xbf80_0000),
        holds(block@, 60, 0x3f80_0000),
        holds(block@, 64, time),
        holds(block@, 68, amplitude),
        holds(block@, 72, phase),
        holds(block@, 76, decay),
        holds(block@, 80, speed),
        forall|place: int|
            0 <= place < 16 && place != 0 && place != 5 && place != 10 && place != 12 && place != 13
                && place != 15 ==> #[trigger] holds(block@, 4 * place, 0),
{
    let words = item_bounce::uniform_words(scale_x, scale_y, time, amplitude, phase, decay, speed);
    assert forall|place: int| 0 <= place < 24 implies #[trigger] holds(
        block@,
        4 * place,
        words[place],
    ) by {
        lemma_held(block@, words, place);
    }
    assert(holds(block@, 4 * 0int, words[0]));
    assert(holds(block@, 4 * 5int, words[5]));
    assert(holds(block@, 4 * 10int, words[10]));
    assert(holds(block@, 4 * 12int, words[12]));
    assert(holds(block@, 4 * 13int, words[13]));
    assert(holds(block@, 4 * 15int, words[15]));
    assert(holds(block@, 4 * 16int, words[16]));
    assert(holds(block@, 4 * 17int, words[17]));
    assert(holds(block@, 4 * 18int, words[18]));
    assert(holds(block@, 4 * 19int, words[19]));
    assert(holds(block@, 4 * 20int, words[20]));
    assert forall|place: int|
        0 <= place < 16 && place != 0 && place != 5 && place != 10 && place != 12 && place != 13
            && place != 15 implies #[trigger] holds(block@, 4 * place, 0) by {
        assert(holds(block@, 4 * place, words[place]));
    }
}

proof fn lemma_vertex_word(vertices: Seq<Vertex>, with_normals: bool, which: int, word: int)
    requires
        0 <= which < vertices.len(),
        0 <= word < if with_normals {
            8int
        } else {
            5int
        },
    ensures
        ({
            let step = if with_normals {
                8int
            } else {
                5int
            };
            let vertex = vertices[which];
            let words = item_models::vertex_words(vertices, with_normals);
            &&& words.len() == step * vertices.len()
            &&& words[step * which + word] == seq![
                vertex.position.0,
                vertex.position.1,
                vertex.position.2,
                vertex.uv.0,
                vertex.uv.1,
                vertex.normal.0,
                vertex.normal.1,
                vertex.normal.2,
            ][word]
        }),
    decreases vertices.len(),
{
    let before = vertices.drop_last();
    let words = item_models::vertex_words(before, with_normals);
    if before.len() > 0 {
        if which < before.len() {
            lemma_vertex_word(before, with_normals, which, word);
        } else {
            lemma_vertex_word(before, with_normals, 0, 0);
        }
    } else {
        assert(words == Seq::<u32>::empty());
    }
}

/// A vertex takes twenty bytes, its position before its texture coordinates, and twelve more for its
/// normal where normals are asked for. The vertices keep their order.
pub proof fn lemma_where_a_vertex_stands(
    vertices: Vec<Vertex>,
    which: int,
    plain: Vec<u8>,
    lit: Vec<u8>,
)
    requires
        32 * vertices@.len() <= usize::MAX,
        0 <= which < vertices@.len(),
        call_ensures(item_models::vertex_bytes, (&vertices, false), plain),
        call_ensures(item_models::vertex_bytes, (&vertices, true), lit),
    ensures
        plain@.len() == 20 * vertices@.len() && lit@.len() == 32 * vertices@.len(),
        ({
            let vertex = vertices@[which];
            &&& holds(plain@, 20 * which, vertex.position.0)
            &&& holds(plain@, 20 * which + 4, vertex.position.1)
            &&& holds(plain@, 20 * which + 8, vertex.position.2)
            &&& holds(plain@, 20 * which + 12, vertex.uv.0)
            &&& holds(plain@, 20 * which + 16, vertex.uv.1)
            &&& holds(lit@, 32 * which, vertex.position.0)
            &&& holds(lit@, 32 * which + 4, vertex.position.1)
            &&& holds(lit@, 32 * which + 8, vertex.position.2)
            &&& holds(lit@, 32 * which + 12, vertex.uv.0)
            &&& holds(lit@, 32 * which + 16, vertex.uv.1)
            &&& holds(lit@, 32 * which + 20, vertex.normal.0)
            &&& holds(lit@, 32 * which + 24, vertex.normal.1)
            &&& holds(lit@, 32 * which + 28, vertex.normal.2)
        }),
{
    let words = item_models::vertex_words(vertices@, false);
    let more = item_models::vertex_words(vertices@, true);
    lemma_vertex_word(vertices@, false, which, 0);
    lemma_vertex_word(vertices@, false, which, 1);
    lemma_vertex_word(vertices@, false, which, 2);
    lemma_vertex_word(vertices@, false, which, 3);
    lemma_vertex_word(vertices@, false, which, 4);
    lemma_held(plain@, words, 5 * which);
    lemma_held(plain@, words, 5 * which + 1);
    lemma_held(plain@, words, 5 * which + 2);
    lemma_held(plain@, words, 5 * which + 3);
    lemma_held(plain@, words, 5 * which + 4);
    lemma_vertex_word(vertices@, true, which, 0);
    lemma_vertex_word(vertices@, true, which, 1);
    lemma_vertex_word(vertices@, true, which, 2);
    lemma_vertex_word(vertices@, true, which, 3);
    lemma_vertex_word(vertices@, true, which, 4);
    lemma_vertex_word(vertices@, true, which, 5);
    lemma_vertex_word(vertices@, true, which, 6);
    lemma_vertex_word(vertices@, true, which, 7);
    lemma_held(lit@, more, 8 * which);
    lemma_held(lit@, more, 8 * which + 1);
    lemma_held(lit@, more, 8 * which + 2);
    lemma_held(lit@, more, 8 * which + 3);
    lemma_held(lit@, more, 8 * which + 4);
    lemma_held(lit@, more, 8 * which + 5);
    lemma_held(lit@, more, 8 * which + 6);
    lemma_held(lit@, more, 8 * which + 7);
}

/// The seed of a swarm lies below one, in units of two to the minus twenty-fourth.
pub proof fn lemma_a_seed_lies_below_one(seed: u32)
    requires
        call_ensures(creeper::draw_seed, (), seed),
    ensures
        seed < 0x100_0000,
{
}

} // verus!
