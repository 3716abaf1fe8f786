//! The field of grass.

use vstd::prelude::*;
use vstd::arithmetic::div_mod;

use crate::laws::items;
use crate::modules::grass;
use crate::modules::grass::{GrassState, GridDimensions};
use crate::modules::RenderSize;
use crate::random;

verus! {

/// The tiles of 120 pixels cover the screen and none is left over; there is at least one each way.
/// Twice the visible columns are in store, at least twenty.
pub proof fn lemma_the_grid_covers_the_screen(size: RenderSize, grid: GridDimensions)
    requires
        call_ensures(grass::grid_dimensions, (size,), grid),
    ensures
        grid.rows >= 1 && grid.visible_columns >= 1,
        grid.rows * 120 >= size.height,
        grid.visible_columns * 120 >= size.width,
        grid.rows > 1 ==> (grid.rows - 1) * 120 < size.height,
        grid.visible_columns > 1 ==> (grid.visible_columns - 1) * 120 < size.width,
        grid.allocated_columns >= 20 && grid.allocated_columns >= 2 * grid.visible_columns,
        grid.allocated_columns == 20 || grid.allocated_columns == 2 * grid.visible_columns,
{
}

/// Where a tile stands among the biomes, column by column.
pub open spec fn stored_at(column: int, row: int, rows: u32) -> int {
    column * rows + row
}

proof fn lemma_stored(column: int, row: int, columns: int, rows: u32)
    requires
        0 <= column < columns,
        0 <= row < rows,
    ensures
        0 <= stored_at(column, row, rows) < columns * rows,
        stored_at(column, row, rows) / rows as int == column,
        stored_at(column, row, rows) % rows as int == row,
        column > 0 ==> stored_at(column, row, rows) >= rows,
        column + 1 < columns ==> stored_at(column, row, rows) < columns * rows - rows,
        column + 1 == columns ==> stored_at(column, row, rows) == columns * rows - rows + row,
        column > 0 ==> stored_at(column - 1, row, rows) == stored_at(column, row, rows) - rows,
{
    let r = rows as int;
    assert(0 <= column * r && column * r + r <= columns * r) by (nonlinear_arith)
        requires
            0 <= column < columns,
            0 <= r,
    ;
    div_mod::lemma_fundamental_div_mod_converse(column * r + row, r, column, row);
    assert(column > 0 ==> column * r >= r) by (nonlinear_arith)
        requires
            0 <= r,
    ;
    assert(column + 1 < columns ==> column * r + r + r <= columns * r) by (nonlinear_arith)
        requires
            0 <= r,
    ;
    assert(column + 1 == columns ==> column * r == columns * r - r) by (nonlinear_arith);
    assert((column - 1) * r == column * r - r) by (nonlinear_arith);
}

/// In a new field the first column is grass, of the biome zero, and every other tile is bare, by the
/// bits of the scalar one. It has seen no bucket and has not scrolled.
pub proof fn lemma_a_new_field_begins_with_a_column_of_grass(
    columns: u32,
    visible: u32,
    rows: u32,
    seed: [u8; 32],
    field: GrassState,
    drawn: GrassState,
    grid: GridDimensions,
    column: int,
    row: int,
)
    requires
        columns * rows <= u32::MAX,
        columns > 0 || rows == 0,
        0 <= column < columns,
        0 <= row < rows,
        call_ensures(GrassState::new, (columns, visible, rows, seed), field),
        grid.allocated_columns == columns && grid.visible_columns == visible && grid.rows == rows,
        call_ensures(GrassState::with_random_seed, (grid,), drawn),
    ensures
        field.biomes@[stored_at(column, row, rows)] == if column == 0 {
            (0u32, 0u32)
        } else {
            (0x3f80_0000u32, 0x3f80_0000u32)
        },
        field.allocated_columns == columns && field.visible_columns == visible && field.rows == rows,
        field.last_bucket is None && field.offset == 0 && field.dirty,
        field.last_shift == 0xbff0_0000_0000_0000 && field.shift_start == 0xbf80_0000,
        drawn@ == field@,
{
    lemma_stored(column, row, columns as int, rows);
    assert(drawn.biomes@.len() == field.biomes@.len());
    assert(drawn.biomes@ =~= field.biomes@);
}

/// A field is kept as long as the columns in store, the visible columns and the rows all stay.
pub proof fn lemma_any_other_dimension_needs_a_new_field(
    field: GrassState,
    grid: GridDimensions,
    needs: bool,
    bounds: (u32, u32),
)
    requires
        call_ensures(GrassState::needs_resize, (&field, grid), needs),
        call_ensures(grass::candidate_column_bounds, (field.allocated_columns,), bounds),
    ensures
        needs <==> field.allocated_columns != grid.allocated_columns || field.visible_columns
            != grid.visible_columns || field.rows != grid.rows,
        bounds.0 == 1 && bounds.1 == field.allocated_columns,
{
}

/// A bucket of time draws one tile at most, never of the first column. Beyond the tenth column a tile
/// is taken only where the field may scroll; where it may, a new bucket always gives one.
pub proof fn lemma_a_bucket_draws_one_tile(
    drawn: &mut GrassState,
    again: &mut GrassState,
    bucket: u64,
    may_scroll: bool,
    candidate: Option<(u32, u32)>,
    candidate_again: Option<(u32, u32)>,
)
    requires
        old(drawn).allocated_columns > 1 && old(drawn).rows > 0,
        old(drawn).last_bucket != Some(bucket),
        call_ensures(GrassState::choose_candidate, (drawn, bucket, may_scroll), candidate),
        *old(again) == *final(drawn),
        call_ensures(GrassState::choose_candidate, (again, bucket, may_scroll), candidate_again),
    ensures
        candidate is Some ==> 1 <= (candidate->0).0 < old(drawn).allocated_columns
            && (candidate->0).1 < old(drawn).rows,
        candidate is Some && (candidate->0).0 >= 10 ==> may_scroll,
        may_scroll ==> candidate is Some,
        old(drawn).allocated_columns <= 10 ==> candidate is Some,
        candidate_again is None,
        final(again)@ == final(drawn)@,
        final(drawn).biomes@ == old(drawn).biomes@ && final(drawn).offset == old(drawn).offset,
        final(drawn).last_bucket == Some(bucket),
{
}

/// The neighbours of a tile are exactly the tiles beside, above and below it that the field has,
/// each once, beginning with the one on its left.
pub proof fn lemma_neighbours_lie_beside_a_tile(
    field: GrassState,
    column: u32,
    row: u32,
    places: Vec<usize>,
    other_column: int,
    other_row: int,
)
    requires
        field@.wf(),
        1 <= column < field.allocated_columns,
        row < field.rows,
        call_ensures(GrassState::neighbors, (&field, column, row), places),
        0 <= other_column < field.allocated_columns,
        0 <= other_row < field.rows,
    ensures
        places@.contains(stored_at(other_column, other_row, field.rows) as usize) <==> (other_row
            == row && (other_column == column - 1 || other_column == column + 1)) || (other_column
            == column && (other_row == row - 1 || other_row == row + 1)),
        places@[0] == stored_at(column - 1, row as int, field.rows),
        places@.no_duplicates(),
{
    let rows = field.rows;
    let columns = field.allocated_columns as int;
    let here = stored_at(other_column, other_row, rows);
    lemma_stored(other_column, other_row, columns, rows);
    lemma_stored(column as int, row as int, columns, rows);
    lemma_stored(column - 1, row as int, columns, rows);
    let left = stored_at(column - 1, row as int, rows);
    let right = stored_at(column + 1, row as int, rows);
    let up = stored_at(column as int, row - 1, rows);
    let down = stored_at(column as int, row + 1, rows);
    assert(right == stored_at(column as int, row as int, rows) + rows) by (nonlinear_arith)
        requires
            right == (column + 1) * rows + row,
            stored_at(column as int, row as int, rows) == column * rows + row,
    ;
    if column + 1 < columns {
        lemma_stored(column + 1, row as int, columns, rows);
    }
    if row > 0 {
        lemma_stored(column as int, row - 1, columns, rows);
    }
    if row + 1 < rows {
        lemma_stored(column as int, row + 1, columns, rows);
    }
    let all = field@.neighbors(column, row);
    assert(places@ == all);
    assert(all[0] == left);
    let beside = (other_row == row && (other_column == column - 1 || other_column == column + 1))
        || (other_column == column && (other_row == row - 1 || other_row == row + 1));
    if beside {
        if other_column == column - 1 {
            assert(all[0] == here);
        } else if other_column == column + 1 {
            assert(all[1] == here);
        } else if other_row == row - 1 {
            let at = if column + 1 < columns {
                2
            } else {
                1int
            };
            assert(all[at] == here);
        } else {
            assert(all[all.len() - 1] == here);
        }
    } else if all.contains(here as usize) {
        let i = choose|i: int| 0 <= i < all.len() && all[i] == here as usize;
        assert(here == left || (column + 1 < columns && here == right) || (row > 0 && here == up)
            || (row + 1 < rows && here == down));
    }
}

/// Grass on one of the first ten columns changes that tile and no other.
pub proof fn lemma_planting_changes_one_tile(
    planted: &mut GrassState,
    column: u32,
    row: u32,
    biome: (u32, u32),
    elapsed: u64,
    shift_start: u32,
    other_column: int,
    other_row: int,
)
    requires
        old(planted)@.wf(),
        column < old(planted).allocated_columns,
        column <= 9,
        row < old(planted).rows,
        call_ensures(GrassState::plant, (planted, column, row, biome, elapsed, shift_start), ()),
        0 <= other_column < old(planted).allocated_columns,
        0 <= other_row < old(planted).rows,
    ensures
        ({
            let place = stored_at(other_column, other_row, old(planted).rows);
            final(planted).biomes@[place] == if other_column == column && other_row == row {
                biome
            } else {
                old(planted).biomes@[place]
            }
        }),
        final(planted).dirty,
        final(planted).offset == old(planted).offset,
        final(planted).last_shift == old(planted).last_shift,
        final(planted).shift_start == old(planted).shift_start,
        final(planted).last_bucket == old(planted).last_bucket,
{
    let rows = old(planted).rows;
    let columns = old(planted).allocated_columns as int;
    lemma_stored(column as int, row as int, columns, rows);
    lemma_stored(other_column, other_row, columns, rows);
}

/// Grass further to the right scrolls the field by one column: every tile, the new one included, is
/// found one column to the left, bare tiles come in on the right, and the offset, the time and the
/// start of the shift say so.
pub proof fn lemma_planting_in_the_work_area_scrolls(
    planted: &mut GrassState,
    column: u32,
    row: u32,
    biome: (u32, u32),
    elapsed: u64,
    shift_start: u32,
    other_column: int,
    other_row: int,
)
    requires
        old(planted)@.wf(),
        10 <= column < old(planted).allocated_columns,
        row < old(planted).rows,
        call_ensures(GrassState::plant, (planted, column, row, biome, elapsed, shift_start), ()),
        0 <= other_column < old(planted).allocated_columns,
        0 <= other_row < old(planted).rows,
    ensures
        other_column > 0 ==> final(planted).biomes@[stored_at(
            other_column - 1,
            other_row,
            old(planted).rows,
        )] == if other_column == column && other_row == row {
            biome
        } else {
            old(planted).biomes@[stored_at(other_column, other_row, old(planted).rows)]
        },
        other_column == old(planted).allocated_columns - 1 ==> final(planted).biomes@[stored_at(
            other_column,
            other_row,
            old(planted).rows,
        )] == (0x3f80_0000u32, 0x3f80_0000u32),
        final(planted).dirty,
        old(planted).offset < u32::MAX ==> final(planted).offset == old(planted).offset + 1,
        old(planted).offset == u32::MAX ==> final(planted).offset == 0,
        final(planted).last_shift == elapsed,
        final(planted).shift_start == shift_start,
{
    let rows = old(planted).rows;
    let columns = old(planted).allocated_columns as int;
    lemma_stored(column as int, row as int, columns, rows);
    lemma_stored(other_column, other_row, columns, rows);
    if other_column > 0 {
        lemma_stored(other_column - 1, other_row, columns, rows);
    }
}

/// Scrolling alone moves every tile by one column to the left.
pub proof fn lemma_scrolling_moves_every_tile(
    scrolled: &mut GrassState,
    elapsed: u64,
    shift_start: u32,
    column: int,
    row: int,
)
    requires
        old(scrolled)@.wf(),
        0 < column < old(scrolled).allocated_columns,
        0 <= row < old(scrolled).rows,
        call_ensures(GrassState::scroll_left, (scrolled, elapsed, shift_start), ()),
    ensures
        final(scrolled).biomes@[stored_at(column - 1, row, old(scrolled).rows)] == old(scrolled).biomes@[stored_at(column, row, old(scrolled).rows)],
        final(scrolled).biomes@.len() == old(scrolled).biomes@.len(),
        final(scrolled).rows == old(scrolled).rows,
        final(scrolled).allocated_columns == old(scrolled).allocated_columns,
{
    let rows = old(scrolled).rows;
    let columns = old(scrolled).allocated_columns as int;
    lemma_stored(column, row, columns, rows);
    lemma_stored(column - 1, row, columns, rows);
}

/// A draw of growth or of the biome to grow towards leaves the field as it is. Grass comes up on
/// three of the four quarters of the words. The biome is one of three corners, one for each third of
/// the words.
pub proof fn lemma_draws_leave_the_field(
    grown: &mut GrassState,
    aimed: &mut GrassState,
    grows: bool,
    target: (u32, u32),
)
    requires
        call_ensures(GrassState::draw_growth, (grown,), grows),
        call_ensures(GrassState::draw_target, (aimed,), target),
    ensures
        final(grown)@ == old(grown)@,
        final(aimed)@ == old(aimed)@,
        target == (0u32, 0u32) || target == (0x3f80_0000u32, 0u32) || target == (
            0u32,
            0x3f80_0000u32,
        ),
        ({
            let word = random::words_to_come(old(grown).generator)[0];
            (word / 0x2000_0000) % 2 == 0 ==> grows == (word < 0xc000_0000)
        }),
        ({
            let word = random::words_to_come(old(aimed).generator)[0];
            &&& word < 0x4000_0000 ==> target == (0u32, 0u32)
            &&& 0x5555_5556 <= word < 0x9555_5555 ==> target == (0x3f80_0000u32, 0u32)
            &&& 0xaaaa_aaab <= word < 0xeaaa_aaaa ==> target == (0u32, 0x3f80_0000u32)
        }),
{
    reveal_with_fuel(random::zone, 33);
    assert(random::zone(4) == 0x8000_0000);
    assert(random::zone(3) == 0xc000_0000);
    let drawn = choose|drawn: u32|
        grows == (drawn != 3) && #[trigger] random::draws(
            random::words_to_come(old(grown).generator),
            0,
            4,
            drawn,
            random::words_to_come(final(grown).generator),
        );
    items::lemma_first_draw(
        random::words_to_come(old(grown).generator),
        0,
        4,
        drawn,
        random::words_to_come(final(grown).generator),
    );
    let aim = choose|drawn: u32|
        {
            &&& target == if drawn == 0 {
                (0u32, 0u32)
            } else if drawn == 1 {
                (grass::ONE, 0u32)
            } else {
                (0u32, grass::ONE)
            }
            &&& #[trigger] random::draws(
                random::words_to_come(old(aimed).generator),
                0,
                3,
                drawn,
                random::words_to_come(final(aimed).generator),
            )
        };
    items::lemma_first_draw(
        random::words_to_come(old(aimed).generator),
        0,
        3,
        aim,
        random::words_to_come(final(aimed).generator),
    );
}

/// The first word that comes draws the column of the tile, and the next one its row.
pub proof fn lemma_the_column_is_drawn_before_the_row(
    drawn: &mut GrassState,
    bucket: u64,
    candidate: Option<(u32, u32)>,
)
    requires
        old(drawn).allocated_columns > 1 && old(drawn).rows > 0,
        old(drawn).last_bucket != Some(bucket),
        call_ensures(GrassState::choose_candidate, (drawn, bucket, true), candidate),
    ensures
        ({
            let words = random::words_to_come(old(drawn).generator);
            let others = (old(drawn).allocated_columns - 1) as u32;
            random::picks(others, words[0]) && random::picks(old(drawn).rows, words[1])
                ==> candidate is Some && (candidate->0).0 == 1 + random::picked(others, words[0])
                && (candidate->0).1 == random::picked(old(drawn).rows, words[1])
        }),
{
    let words = random::words_to_come(old(drawn).generator);
    let (column, row) = candidate->0;
    let rest = random::words_to_come(final(drawn).generator);
    assert(grass::tile_drawn(
        words,
        old(drawn).allocated_columns,
        old(drawn).rows,
        column,
        row,
        rest,
    ));
    let middle = choose|middle: Map<nat, u32>|
        #[trigger] random::draws(words, 1, old(drawn).allocated_columns, column, middle)
            && random::draws(middle, 0, old(drawn).rows, row, rest);
    items::lemma_first_draw(words, 1, old(drawn).allocated_columns, column, middle);
    items::lemma_first_draw(middle, 0, old(drawn).rows, row, rest);
}

} // verus!
