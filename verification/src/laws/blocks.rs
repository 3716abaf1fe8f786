//! The list of blocks and the cube that shows them.

use vstd::prelude::*;

use crate::modules::block_list;
use crate::modules::block_list::LayoutError;
use crate::modules::blocks;
use crate::modules::dvd_bounce;
use crate::modules::load_cube;
use crate::modules::load_cube::{AtlasSpec, CubeState};
use crate::random;
use crate::text;
use crate::text::NumberError;

verus! {

/// The first line of a block list is the width of the atlas and the second the number of its blocks.
/// Neither may be missing, spell no number or be zero. Around them white space is allowed to the
/// plane of blocks and not to the cube.
pub proof fn lemma_the_head_of_a_block_list(
    list: &str,
    first: Vec<char>,
    second: Vec<char>,
    first_trimmed: Vec<char>,
    second_trimmed: Vec<char>,
    width: Result<u64, NumberError>,
    count: Result<u64, NumberError>,
    width_trimmed: Result<u64, NumberError>,
    count_trimmed: Result<u64, NumberError>,
    atlas: Result<AtlasSpec, LayoutError>,
    layout: Result<(u32, u32), LayoutError>,
)
    requires
        text::lines(list@).len() >= 2,
        first@ == text::lines(list@)[0],
        second@ == text::lines(list@)[1],
        call_ensures(text::trim, (&first,), first_trimmed),
        call_ensures(text::trim, (&second,), second_trimmed),
        call_ensures(text::read_unsigned, (&first, 0xffff_ffff), width),
        call_ensures(text::read_unsigned, (&second, 0xffff_ffff), count),
        call_ensures(text::read_unsigned, (&first_trimmed, 0xffff_ffff), width_trimmed),
        call_ensures(text::read_unsigned, (&second_trimmed, 0xffff_ffff), count_trimmed),
        call_ensures(load_cube::read_atlas_spec, (list,), atlas),
        call_ensures(blocks::load_block_layout, (list,), layout),
    ensures
        atlas is Ok ==> width is Ok && count is Ok && atlas->Ok_0.line_width == width->Ok_0
            && atlas->Ok_0.slot_count == count->Ok_0 && width->Ok_0 > 0 && count->Ok_0 > 0,
        width is Err ==> atlas == Err::<AtlasSpec, LayoutError>(
            LayoutError::LineWidth(width->Err_0),
        ),
        width is Ok && count is Err ==> atlas == Err::<AtlasSpec, LayoutError>(
            LayoutError::SlotCount(count->Err_0),
        ),
        width is Ok && count is Ok && (width->Ok_0 == 0 || count->Ok_0 == 0) ==> atlas == Err::<
            AtlasSpec,
            LayoutError,
        >(LayoutError::ZeroDimension),
        layout is Ok ==> width_trimmed is Ok && count_trimmed is Ok && (layout->Ok_0).0
            == width_trimmed->Ok_0 && (layout->Ok_0).1 == count_trimmed->Ok_0
            && width_trimmed->Ok_0 > 0 && count_trimmed->Ok_0 > 0,
        width_trimmed is Err ==> layout == Err::<(u32, u32), LayoutError>(
            LayoutError::LineWidth(width_trimmed->Err_0),
        ),
        width_trimmed is Ok && count_trimmed is Err ==> layout == Err::<(u32, u32), LayoutError>(
            LayoutError::SlotCount(count_trimmed->Err_0),
        ),
{
    text::lemma_a_read_number_fits(first@, 0xffff_ffff);
    text::lemma_a_read_number_fits(second@, 0xffff_ffff);
    text::lemma_a_read_number_fits(first_trimmed@, 0xffff_ffff);
    text::lemma_a_read_number_fits(second_trimmed@, 0xffff_ffff);
}

/// A list of no line lacks the width, and a list of one line lacks the count.
pub proof fn lemma_a_short_block_list(
    list: &str,
    first: Vec<char>,
    width: Result<u64, NumberError>,
    atlas: Result<AtlasSpec, LayoutError>,
)
    requires
        text::lines(list@).len() < 2,
        text::lines(list@).len() == 1 ==> first@ == text::lines(list@)[0],
        call_ensures(text::read_unsigned, (&first, 0xffff_ffff), width),
        call_ensures(load_cube::read_atlas_spec, (list,), atlas),
    ensures
        text::lines(list@).len() == 0 ==> atlas == Err::<AtlasSpec, LayoutError>(
            LayoutError::MissingLineWidth,
        ),
        text::lines(list@).len() == 1 && width is Ok ==> atlas == Err::<AtlasSpec, LayoutError>(
            LayoutError::MissingSlotCount,
        ),
{
}

/// A list with a sound head is accepted exactly if it has as many entries as it declares.
pub proof fn lemma_every_declared_block_is_listed(
    list: &str,
    lines: Vec<Vec<char>>,
    declared: Result<(u32, u32), LayoutError>,
    listed: Vec<Vec<char>>,
    layout: Result<(u32, u32), LayoutError>,
    declared_plainly: Result<(u32, u32), LayoutError>,
    atlas: Result<AtlasSpec, LayoutError>,
)
    requires
        call_ensures(text::split_lines, (list,), lines),
        call_ensures(block_list::read_declaration, (&lines, false), declared_plainly),
        call_ensures(load_cube::read_atlas_spec, (list,), atlas),
        call_ensures(block_list::read_declaration, (&lines, true), declared),
        declared is Ok,
        (declared->Ok_0).0 > 0 && (declared->Ok_0).1 > 0,
        call_ensures(block_list::list_entries, (&lines,), listed),
        call_ensures(blocks::load_block_layout, (list,), layout),
    ensures
        layout is Ok <==> listed@.len() == (declared->Ok_0).1,
        layout is Ok ==> layout == declared,
        layout is Err ==> layout == Err::<(u32, u32), LayoutError>(
            LayoutError::Listed { declared: (declared->Ok_0).1, listed: listed@.len() as usize },
        ),
        declared_plainly is Ok && (declared_plainly->Ok_0).0 > 0 && (declared_plainly->Ok_0).1 > 0
            ==> (atlas is Ok <==> listed@.len() == (declared_plainly->Ok_0).1),
{
    assert(text::texts(listed@).len() == listed@.len());
}

/// Every further line of a list is an entry, in order, unless nothing but white space stands in it.
/// The first two lines are none.
pub proof fn lemma_blank_lines_are_no_entries(
    lines: Vec<Vec<char>>,
    longer: Vec<Vec<char>>,
    extra: Vec<char>,
    blank: bool,
    listed: Vec<Vec<char>>,
    listed_longer: Vec<Vec<char>>,
)
    requires
        text::texts(longer@) == text::texts(lines@).push(extra@),
        call_ensures(text::is_blank, (&extra,), blank),
        call_ensures(block_list::list_entries, (&lines,), listed),
        call_ensures(block_list::list_entries, (&longer,), listed_longer),
    ensures
        lines@.len() <= 2 ==> listed@.len() == 0,
        lines@.len() >= 2 && blank ==> text::texts(listed_longer@) == text::texts(listed@),
        lines@.len() >= 2 && !blank ==> text::texts(listed_longer@) == text::texts(listed@).push(
            extra@,
        ),
{
    let before = text::texts(lines@);
    let after = text::texts(longer@);
    assert(before.len() == lines@.len());
    assert(text::texts(listed@).len() == listed@.len());
    if lines@.len() >= 2 {
        assert(after.skip(2).drop_last() == before.skip(2));
        assert(after.skip(2).last() == extra@);
    }
    if lines@.len() == 2 {
        assert(before.skip(2) == Seq::<Seq<char>>::empty());
    }
}

proof fn lemma_slots(entries: Seq<Seq<char>>, count: int, place: int)
    requires
        0 <= place < count,
        dvd_bounce::slots_of(entries, count) is Ok,
    ensures
        dvd_bounce::slots_of(entries, count)->Ok_0.len() == count,
        dvd_bounce::slot_of(entries[place], place) == Ok::<(u32, u32), LayoutError>(
            dvd_bounce::slots_of(entries, count)->Ok_0[place],
        ),
    decreases count,
{
    if place < count - 1 {
        lemma_slots(entries, count - 1, place);
    } else if count > 1 {
        lemma_slots(entries, count - 1, 0);
    }
}

/// The first word of an entry is the row of its tile and the second the column; both lie below 32,
/// and a third word follows. The tiles come in the order of the entries, as many as were declared, in
/// an atlas of 32 to a row.
pub proof fn lemma_an_entry_names_row_and_column(
    list: &str,
    lines: Vec<Vec<char>>,
    listed: Vec<Vec<char>>,
    declared: Result<(u32, u32), LayoutError>,
    slots: Vec<(u32, u32)>,
    place: int,
    words: Vec<Vec<char>>,
    row: Result<u64, NumberError>,
    column: Result<u64, NumberError>,
)
    requires
        call_ensures(
            dvd_bounce::load_slots,
            (list,),
            Ok::<Vec<(u32, u32)>, LayoutError>(slots),
        ),
        call_ensures(text::split_lines, (list,), lines),
        call_ensures(block_list::read_declaration, (&lines, true), declared),
        call_ensures(block_list::list_entries, (&lines,), listed),
        0 <= place < listed@.len(),
        call_ensures(text::split_words, (&listed@[place],), words),
        words@.len() > 0 ==> call_ensures(text::read_unsigned, (&words@[0], 0xffff_ffff), row),
        words@.len() > 1 ==> call_ensures(text::read_unsigned, (&words@[1], 0xffff_ffff), column),
    ensures
        declared is Ok && (declared->Ok_0).0 == 32 && (declared->Ok_0).1 == slots@.len(),
        slots@.len() == listed@.len(),
        words@.len() >= 3,
        row is Ok && slots@[place].1 == row->Ok_0 && row->Ok_0 < 32,
        column is Ok && slots@[place].0 == column->Ok_0 && column->Ok_0 < 32,
{
    let entries = text::texts(listed@);
    assert(entries.len() == listed@.len());
    assert(entries[place] == listed@[place]@);
    lemma_slots(entries, entries.len() as int, place);
    let spoken = text::texts(words@);
    assert(spoken.len() == words@.len());
    assert(words@.len() > 0 ==> spoken[0] == words@[0]@);
    assert(words@.len() > 1 ==> spoken[1] == words@[1]@);
    if words@.len() > 0 {
        text::lemma_a_read_number_fits(words@[0]@, 0xffff_ffff);
    }
    if words@.len() > 1 {
        text::lemma_a_read_number_fits(words@[1]@, 0xffff_ffff);
    }
}

/// The plane of blocks takes an atlas of 32 blocks to a row and 1024 at most; the cube takes any
/// width whose pixels, 16 to a block, can be counted with 32 bits.
pub proof fn lemma_which_atlas_fits(
    width: u32,
    count: u32,
    checked: Result<(), LayoutError>,
    atlas: AtlasSpec,
    pixels: Result<u32, LayoutError>,
)
    requires
        width > 0 && count > 0,
        call_ensures(blocks::check_atlas, (width, count), checked),
        call_ensures(load_cube::expected_dimension, (atlas,), pixels),
    ensures
        checked is Ok <==> width == 32 && count <= 1_024,
        width != 32 ==> checked == Err::<(), LayoutError>(LayoutError::AtlasWidth(width)),
        width == 32 && count > 1_024 ==> checked == Err::<(), LayoutError>(
            LayoutError::AtlasHeight(count),
        ),
        pixels is Ok <==> atlas.line_width < 0x1000_0000,
        pixels is Ok ==> pixels->Ok_0 == 16 * atlas.line_width,
        pixels is Err ==> pixels->Err_0 is AtlasOverflow,
{
    if width == 32 {
        assert(width * width == 1_024) by (nonlinear_arith)
            requires
                width == 32,
        ;
    }
}

/// A turn brings the side that it turns to the front, gives that side a tile of the atlas, and
/// touches no other face; the next side is one of the four. The same turn again changes nothing, and
/// a turn that fails leaves every face where it is.
pub proof fn lemma_a_turn_brings_one_side_to_the_front(
    turned: &mut CubeState,
    again: &mut CubeState,
    run: u64,
    done: bool,
    done_again: bool,
    face: int,
)
    requires
        old(turned)@.wf(),
        run != old(turned)@.last_run,
        call_ensures(CubeState::advance, (turned, run), done),
        *old(again) == *final(turned),
        call_ensures(CubeState::advance, (again, run), done_again),
        0 <= face < 6,
    ensures
        done ==> final(turned)@.offsets[0] == old(turned)@.offsets[old(turned)@.direction as int],
        done && face != 0 && face != old(turned)@.direction ==> final(turned)@.offsets[face]
            == old(turned)@.offsets[face],
        done ==> ({
            let tile = final(turned)@.offsets[old(turned)@.direction as int];
            tile.0 < old(turned)@.line_width && tile.1 * old(turned)@.line_width + tile.0
                < old(turned)@.slot_count
        }),
        done ==> 1 <= final(turned)@.direction <= 4 && final(turned)@.last_run == run,
        done ==> done_again && final(again)@ == final(turned)@,
        !done ==> final(turned)@.offsets == old(turned)@.offsets && final(turned)@.direction == old(turned)@.direction && final(turned)@.last_run == old(turned)@.last_run,
        final(turned)@.line_width == old(turned)@.line_width,
        final(turned)@.slot_count == old(turned)@.slot_count,
{
    let before = old(turned)@;
    if let Some((tile, rest)) = load_cube::offset_drawn(
        before.words,
        before.line_width,
        before.slot_count,
    ) {
        let place = load_cube::first_pick(
            before.words,
            |word: u32| random::picks(before.slot_count, word),
            0,
            load_cube::DRAW_LIMIT as nat,
        )->0;
        load_cube::lemma_picked_slots_exist(before.slot_count, before.words[place]);
        let slot = random::picked(before.slot_count, before.words[place]);
        lemma_tile(slot, before.line_width);
    }
}

proof fn lemma_tile(slot: u32, width: u32)
    requires
        width > 0,
    ensures
        (slot / width) * width + slot % width == slot,
        slot % width < width,
{
    vstd::arithmetic::div_mod::lemma_fundamental_div_mod(slot as int, width as int);
    vstd::arithmetic::div_mod::lemma_mod_bound(slot as int, width as int);
    assert((slot / width) * width == width * (slot / width)) by (nonlinear_arith);
}

/// Only five faces can be seen: all but the back, in order.
pub proof fn lemma_five_faces_are_seen(cube: CubeState, visible: &[(u32, u32)])
    requires
        cube@.wf(),
        call_ensures(CubeState::visible_offsets, (&cube,), visible),
    ensures
        visible@.len() == 5,
        forall|i: int| 0 <= i < 5 ==> #[trigger] visible@[i] == cube@.offsets[i],
{
}

proof fn lemma_first_word(words: Map<nat, u32>, picks: spec_fn(u32) -> bool)
    requires
        picks(words[0]),
    ensures
        load_cube::first_pick(words, picks, 0, load_cube::DRAW_LIMIT as nat) == Some(0nat),
{
}

proof fn lemma_second_word(words: Map<nat, u32>, picks: spec_fn(u32) -> bool)
    requires
        !picks(words[0]),
        picks(words[1]),
    ensures
        load_cube::first_pick(words, picks, 0, load_cube::DRAW_LIMIT as nat) == Some(1nat),
{
    reveal_with_fuel(load_cube::first_pick, 3);
}

/// The two highest bits of a word choose the direction, from one to four, unless the bit below them
/// is set: then the next word chooses.
pub proof fn lemma_a_word_chooses_the_direction(
    generator: &mut rand_hc::Hc128Rng,
    direction: Option<u8>,
)
    requires
        call_ensures(load_cube::random_direction, (generator,), direction),
    ensures
        ({
            let words = random::words_to_come(*old(generator));
            &&& (words[0] / 0x2000_0000) % 2 == 0 ==> direction is Some && direction->0 == 1
                + words[0] / 0x4000_0000
            &&& (words[0] / 0x2000_0000) % 2 == 1 && (words[1] / 0x2000_0000) % 2 == 0
                ==> direction is Some && direction->0 == 1 + words[1] / 0x4000_0000
            &&& direction is Some ==> 1 <= direction->0 <= 4
        }),
{
    let words = random::words_to_come(*old(generator));
    let picks = |word: u32| load_cube::picks_direction(word);
    if (words[0] / 0x2000_0000) % 2 == 0 {
        assert(picks(words[0]));
        lemma_first_word(words, picks);
    } else if (words[1] / 0x2000_0000) % 2 == 0 {
        assert(!picks(words[0]) && picks(words[1]));
        lemma_second_word(words, picks);
    }
}

/// A tile that is drawn lies in the atlas. The first word decides where its product with the number
/// of blocks leaves a small remainder: the product's upper half is the block.
pub proof fn lemma_a_word_chooses_the_tile(
    generator: &mut rand_hc::Hc128Rng,
    width: u32,
    count: u32,
    tile: Option<(u32, u32)>,
)
    requires
        width > 0 && count > 0,
        call_ensures(load_cube::random_offset, (generator, width, count), tile),
    ensures
        tile is Some ==> (tile->0).0 < width && (tile->0).1 * width + (tile->0).0 < count,
        ({
            let word = random::words_to_come(*old(generator))[0];
            (count * word) % 0x1_0000_0000 < 0x8000_0000 ==> tile is Some && (tile->0).1 * width
                + (tile->0).0 == (count * word) / 0x1_0000_0000
        }),
{
    let words = random::words_to_come(*old(generator));
    let picks = |word: u32| random::picks(count, word);
    lemma_zone_is_large(count as nat);
    if (count * words[0]) % 0x1_0000_0000 < 0x8000_0000 {
        assert(picks(words[0]));
        lemma_first_word(words, picks);
    }
    if load_cube::first_pick(words, picks, 0, load_cube::DRAW_LIMIT as nat) is Some {
        let place = load_cube::first_pick(words, picks, 0, load_cube::DRAW_LIMIT as nat)->0;
        load_cube::lemma_picked_slots_exist(count, words[place]);
        lemma_tile(random::picked(count, words[place]), width);
        lemma_upper_half(count, words[place]);
    }
}

proof fn lemma_upper_half(count: u32, word: u32)
    ensures
        0 <= (count * word) / 0x1_0000_0000 <= u32::MAX,
{
    assert(0 <= count * word <= 0xffff_ffff * 0xffff_ffff) by (nonlinear_arith)
        requires
            0 <= count <= 0xffff_ffff,
            0 <= word <= 0xffff_ffff,
    ;
}

proof fn lemma_zone_is_large(number: nat)
    requires
        0 < number < 0x1_0000_0000,
    ensures
        random::zone(number) >= 0x8000_0000,
    decreases 0x1_0000_0000 - number,
{
    if number < 0x8000_0000 {
        lemma_zone_is_large(2 * number);
    }
}

/// A new cube shows tiles of its atlas, begins to turn one of its four sides, and counts its turns
/// from zero. The same seed makes the same cube.
pub proof fn lemma_a_seed_makes_one_cube(
    width: u32,
    count: u32,
    seed: [u8; 32],
    cube: Option<CubeState>,
    same: Option<CubeState>,
    drawn: Option<CubeState>,
)
    requires
        width > 0 && count > 0,
        call_ensures(CubeState::new, (width, count, seed), cube),
        call_ensures(CubeState::new, (width, count, seed), same),
        call_ensures(CubeState::with_random_seed, (width, count), drawn),
    ensures
        cube is Some <==> same is Some,
        cube is Some ==> cube->0@ == same->0@,
        cube is Some ==> cube->0@.offsets.len() == 6 && cube->0@.last_run == 0 && 1
            <= cube->0@.direction <= 4 && cube->0@.line_width == width && cube->0@.slot_count
            == count,
        drawn is Some ==> drawn->0@.wf() && drawn->0@.last_run == 0 && drawn->0@.line_width == width
            && drawn->0@.slot_count == count,
{
}

/// Whether an entry names a row and a column below 32 and something more.
pub open spec fn is_sound_entry(entry: Seq<char>) -> bool {
    let words = text::words(entry);
    &&& words.len() >= 3
    &&& text::number_read(words[0], 0xffff_ffff) is Ok && text::number_read(
        words[0],
        0xffff_ffff,
    )->Ok_0 < 32
    &&& text::number_read(words[1], 0xffff_ffff) is Ok && text::number_read(
        words[1],
        0xffff_ffff,
    )->Ok_0 < 32
}

proof fn lemma_sound_entries(entries: Seq<Seq<char>>, count: int)
    requires
        0 <= count <= entries.len(),
        forall|i: int| 0 <= i < count ==> is_sound_entry(#[trigger] entries[i]),
    ensures
        dvd_bounce::slots_of(entries, count) is Ok,
        dvd_bounce::slots_of(entries, count)->Ok_0.len() == count,
    decreases count,
{
    if count > 0 {
        lemma_sound_entries(entries, count - 1);
        assert(is_sound_entry(entries[count - 1]));
    }
}

/// A list for an atlas of 32 to a row, with as many entries as it declares and every one of them
/// sound, is accepted.
pub proof fn lemma_a_sound_list_of_tiles_is_accepted(
    list: &str,
    lines: Vec<Vec<char>>,
    declared: Result<(u32, u32), LayoutError>,
    listed: Vec<Vec<char>>,
    slots: Result<Vec<(u32, u32)>, LayoutError>,
)
    requires
        call_ensures(text::split_lines, (list,), lines),
        call_ensures(block_list::read_declaration, (&lines, true), declared),
        call_ensures(block_list::list_entries, (&lines,), listed),
        declared is Ok,
        (declared->Ok_0).0 == 32,
        (declared->Ok_0).1 == listed@.len(),
        forall|i: int| 0 <= i < listed@.len() ==> is_sound_entry((#[trigger] listed@[i])@),
        call_ensures(dvd_bounce::load_slots, (list,), slots),
    ensures
        slots is Ok,
{
    let entries = text::texts(listed@);
    assert(entries.len() == listed@.len());
    assert forall|i: int| 0 <= i < entries.len() implies is_sound_entry(#[trigger] entries[i]) by {
        assert(entries[i] == listed@[i]@);
    }
    lemma_sound_entries(entries, entries.len() as int);
}

/// The place of the entry that an error speaks of.
pub open spec fn blamed(error: LayoutError) -> Option<int> {
    match error {
        LayoutError::MissingRow(place) => Some(place as int),
        LayoutError::Row(place, _) => Some(place as int),
        LayoutError::MissingColumn(place) => Some(place as int),
        LayoutError::Column(place, _) => Some(place as int),
        LayoutError::InvalidEntry(place) => Some(place as int),
        _ => None,
    }
}

proof fn lemma_first_fault(entries: Seq<Seq<char>>, count: int, place: int)
    requires
        0 <= place < count <= entries.len() <= usize::MAX,
        forall|i: int| 0 <= i < place ==> is_sound_entry(#[trigger] entries[i]),
        !is_sound_entry(entries[place]),
    ensures
        dvd_bounce::slots_of(entries, count) is Err,
        dvd_bounce::slots_of(entries, count) == Err::<Seq<(u32, u32)>, LayoutError>(
            dvd_bounce::slot_of(entries[place], place)->Err_0,
        ),
        dvd_bounce::slot_of(entries[place], place) is Err,
    decreases count,
{
    if count == place + 1 {
        lemma_sound_entries(entries, place);
    } else {
        lemma_first_fault(entries, count - 1, place);
    }
}

/// The first entry that is not sound is the one that is blamed, by its place: without a word for
/// its row, without one for its column, for a row or a column that is no number, or otherwise as
/// invalid.
pub proof fn lemma_the_first_unsound_entry_is_blamed(
    list: &str,
    lines: Vec<Vec<char>>,
    declared: Result<(u32, u32), LayoutError>,
    listed: Vec<Vec<char>>,
    place: int,
    words: Vec<Vec<char>>,
    row: Result<u64, NumberError>,
    column: Result<u64, NumberError>,
    slots: Result<Vec<(u32, u32)>, LayoutError>,
)
    requires
        call_ensures(text::split_lines, (list,), lines),
        call_ensures(block_list::read_declaration, (&lines, true), declared),
        call_ensures(block_list::list_entries, (&lines,), listed),
        declared is Ok,
        (declared->Ok_0).0 == 32,
        0 <= place < listed@.len() <= usize::MAX,
        forall|i: int| 0 <= i < place ==> is_sound_entry((#[trigger] listed@[i])@),
        !is_sound_entry(listed@[place]@),
        call_ensures(text::split_words, (&listed@[place],), words),
        words@.len() > 0 ==> call_ensures(text::read_unsigned, (&words@[0], 0xffff_ffff), row),
        words@.len() > 1 ==> call_ensures(text::read_unsigned, (&words@[1], 0xffff_ffff), column),
        call_ensures(dvd_bounce::load_slots, (list,), slots),
    ensures
        slots is Err,
        blamed(slots->Err_0) == Some(place),
        words@.len() == 0 <==> slots->Err_0 is MissingRow,
        words@.len() > 0 && row is Err <==> slots->Err_0 is Row,
        slots->Err_0 is Row ==> slots->Err_0->Row_1 == row->Err_0,
        words@.len() == 1 && row is Ok <==> slots->Err_0 is MissingColumn,
        words@.len() > 1 && row is Ok && column is Err <==> slots->Err_0 is Column,
        slots->Err_0 is Column ==> slots->Err_0->Column_1 == column->Err_0,
{
    let entries = text::texts(listed@);
    assert(entries.len() == listed@.len());
    assert forall|i: int| 0 <= i < place implies is_sound_entry(#[trigger] entries[i]) by {
        assert(entries[i] == listed@[i]@);
    }
    assert(entries[place] == listed@[place]@);
    lemma_first_fault(entries, entries.len() as int, place);
    let spoken = text::texts(words@);
    assert(spoken.len() == words@.len());
    assert(words@.len() > 0 ==> spoken[0] == words@[0]@);
    assert(words@.len() > 1 ==> spoken[1] == words@[1]@);
}

} // verus!
