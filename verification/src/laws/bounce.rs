//! The bouncing block.

use vstd::prelude::*;

use crate::modules::dvd_bounce;
use crate::modules::dvd_bounce::{BounceState, ResourceNeeds};
use crate::modules::{DvdBounceVariant, RenderSize};

verus! {

/// Whether a block of 256 pixels with its centre at `at` lies between the two edges of an axis of
/// so many pixels, counted from the centre of the screen. A length beyond 31 bits leaves no room.
pub open spec fn lies_within(at: int, length: u32) -> bool {
    length < 0x8000_0000 && 128 - length as int / 2 <= at <= length as int / 2 - 128
}

/// The axes are independent: a tick turns the velocity along an axis around exactly if the move
/// takes the block over an edge of that axis, and leaves it as it is otherwise, whatever happens on
/// the other axis. The position moves by the velocity that the block had.
pub proof fn lemma_the_axes_are_independent(
    block: &mut BounceState,
    tick: u64,
    size: RenderSize,
    bounced: bool,
)
    requires
        tick != old(block).last_tick,
        old(block).can_move(),
        call_ensures(BounceState::advance, (block, tick, size), bounced),
    ensures
        final(block).position.0 == old(block).position.0 + old(block).velocity.0,
        final(block).position.1 == old(block).position.1 + old(block).velocity.1,
        lies_within(final(block).position.0 as int, size.width) ==> final(block).velocity.0 == old(block).velocity.0,
        !lies_within(final(block).position.0 as int, size.width) ==> final(block).velocity.0
            == -old(block).velocity.0,
        lies_within(final(block).position.1 as int, size.height) ==> final(block).velocity.1 == old(block).velocity.1,
        !lies_within(final(block).position.1 as int, size.height) ==> final(block).velocity.1
            == -old(block).velocity.1,
        bounced <==> !lies_within(final(block).position.0 as int, size.width) || !lies_within(
            final(block).position.1 as int,
            size.height,
        ),
        final(block).last_tick == tick,
        final(block).changed_this_tick,
        final(block).slot_offset == old(block).slot_offset,
{
}

/// What happens along one axis does not depend on the other: two blocks that agree along an axis,
/// on screens that agree along it, agree along it after a tick.
pub proof fn lemma_an_axis_moves_on_its_own(
    first: &mut BounceState,
    second: &mut BounceState,
    tick: u64,
    size: RenderSize,
    other: RenderSize,
    bounced: bool,
    other_bounced: bool,
)
    requires
        tick != old(first).last_tick,
        tick != old(second).last_tick,
        old(first).can_move(),
        old(second).can_move(),
        call_ensures(BounceState::advance, (first, tick, size), bounced),
        call_ensures(BounceState::advance, (second, tick, other), other_bounced),
    ensures
        old(first).position.0 == old(second).position.0 && old(first).velocity.0
            == old(second).velocity.0 && size.width == other.width ==> final(first).position.0
            == final(second).position.0 && final(first).velocity.0 == final(second).velocity.0,
        old(first).position.1 == old(second).position.1 && old(first).velocity.1
            == old(second).velocity.1 && size.height == other.height ==> final(first).position.1
            == final(second).position.1 && final(first).velocity.1 == final(second).velocity.1,
{
}

/// A tick that was seen already moves nothing, and is told apart from one that was not.
pub proof fn lemma_a_tick_moves_the_block_once(
    block: &mut BounceState,
    again: &mut BounceState,
    tick: u64,
    size: RenderSize,
    bounced: bool,
    bounced_again: bool,
)
    requires
        tick != old(block).last_tick ==> old(block).can_move(),
        call_ensures(BounceState::advance, (block, tick, size), bounced),
        *old(again) == *final(block),
        call_ensures(BounceState::advance, (again, tick, size), bounced_again),
    ensures
        !bounced_again,
        !final(again).changed_this_tick,
        final(again).position == final(block).position,
        final(again).velocity == final(block).velocity,
        final(again).last_tick == tick,
        final(again).slot_offset == final(block).slot_offset,
{
}

/// An update moves the block as an advance does, and gives it the texture of one of the listed
/// tiles where it bounced; otherwise the texture stays.
pub proof fn lemma_the_texture_changes_only_at_an_edge(
    advanced: &mut BounceState,
    updated: &mut BounceState,
    tick: u64,
    size: RenderSize,
    slot_count: usize,
    bounced: bool,
)
    requires
        tick != old(advanced).last_tick ==> old(advanced).can_move(),
        *old(updated) == *old(advanced),
        call_ensures(BounceState::advance, (advanced, tick, size), bounced),
        bounced ==> slot_count > 0,
        call_ensures(BounceState::update, (updated, tick, size, slot_count), ()),
    ensures
        final(updated).position == final(advanced).position,
        final(updated).velocity == final(advanced).velocity,
        final(updated).last_tick == tick,
        final(updated).changed_this_tick == final(advanced).changed_this_tick,
        !bounced ==> final(updated).slot_offset == old(updated).slot_offset,
        bounced ==> final(updated).slot_offset.0 < 32 && final(updated).slot_offset.1 * 32
            + final(updated).slot_offset.0 < slot_count,
{
}

/// A texture's number is told by its tile, 32 to a row, and every tile stands in a row.
pub proof fn lemma_a_tile_tells_its_number(
    id: usize,
    other: usize,
    tile: (usize, usize),
    other_tile: (usize, usize),
    selected: &mut BounceState,
    drawn: &mut BounceState,
    count: usize,
)
    requires
        call_ensures(dvd_bounce::slot_offset, (id,), tile),
        call_ensures(dvd_bounce::slot_offset, (other,), other_tile),
        call_ensures(BounceState::select, (selected, id), ()),
        count > 0,
        call_ensures(BounceState::select_any, (drawn, count), ()),
    ensures
        tile.1 * 32 + tile.0 == id,
        tile.0 < 32,
        tile == other_tile ==> id == other,
        final(selected).slot_offset == tile,
        final(selected).position == old(selected).position,
        final(selected).velocity == old(selected).velocity,
        final(selected).last_tick == old(selected).last_tick,
        final(selected).changed_this_tick == old(selected).changed_this_tick,
        final(drawn).slot_offset.0 < 32,
        final(drawn).slot_offset.1 * 32 + final(drawn).slot_offset.0 < count,
        final(drawn).position == old(drawn).position,
        final(drawn).velocity == old(drawn).velocity,
{
}

/// A new block stands in the centre with the velocity it is given. It has not moved yet.
pub proof fn lemma_a_new_block_stands_in_the_centre(velocity: (i32, i32), block: BounceState)
    requires
        call_ensures(BounceState::new, (velocity,), block),
    ensures
        block.position == (0i32, 0i32),
        block.velocity == velocity,
        block.last_tick == 0,
        !block.changed_this_tick,
        block.slot_offset == (0usize, 0usize),
{
}

/// A velocity is accepted if it moves the block along both axes by at least five pixels in all. Its
/// direction does not matter.
pub proof fn lemma_a_slow_velocity_is_refused(velocity: (i32, i32), valid: bool)
    requires
        call_ensures(dvd_bounce::valid_initial_velocity, (velocity,), valid),
    ensures
        velocity.0 == 0 || velocity.1 == 0 ==> !valid,
        velocity.0 != 0 && velocity.1 != 0 ==> (valid <==> velocity.0 * velocity.0 + velocity.1
            * velocity.1 >= 25),
{
}

/// Only a trail keeps and copies pictures. The block is drawn on the surface by the direct variant,
/// and by a trail exactly if its front is smooth.
pub proof fn lemma_only_a_trail_is_kept(
    smooth: bool,
    direct: ResourceNeeds,
    trail: ResourceNeeds,
)
    requires
        call_ensures(dvd_bounce::resource_needs, (DvdBounceVariant::Direct, smooth), direct),
        call_ensures(dvd_bounce::resource_needs, (DvdBounceVariant::Trail, smooth), trail),
    ensures
        direct.direct_pipeline,
        !direct.trail_pipeline && !direct.trail_texture && !direct.trail_copy_resources,
        trail.direct_pipeline == smooth,
        trail.trail_pipeline && trail.trail_texture && trail.trail_copy_resources,
{
}

} // verus!
