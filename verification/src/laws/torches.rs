//! The torches of a locked screen: how far their light is traced, and what their scene is made of.

use vstd::prelude::*;

use crate::laws::buffers;
use crate::lock::animations::torch;
use crate::lock::animations::torch::{
    BoxData, GeometryBank, TemporalAccumulator, TemporalUpdate, TextureError,
};
use crate::modules::RenderSize;
use crate::resources;
use crate::resources::{ResourceError, RgbaImage};

verus! {

/// Another size, or the first one, starts the light anew; the same size goes on where it was. Nothing
/// is traced without a size.
pub proof fn lemma_another_size_starts_anew(
    fresh: TemporalAccumulator,
    sized: &mut TemporalAccumulator,
    same: &mut TemporalAccumulator,
    other: &mut TemporalAccumulator,
    cleared: &mut TemporalAccumulator,
    size: RenderSize,
    second: RenderSize,
    changed: (bool, bool, bool),
    needs: (bool, bool, bool),
)
    requires
        call_ensures(TemporalAccumulator::new, (), fresh),
        call_ensures(TemporalAccumulator::needs_update, (&fresh,), needs.0),
        old(sized).wf(),
        old(sized).size is None,
        call_ensures(TemporalAccumulator::resize, (sized, size), changed.0),
        call_ensures(TemporalAccumulator::needs_update, (&*final(sized),), needs.1),
        old(same).wf(),
        old(same).size == Some(size),
        call_ensures(TemporalAccumulator::resize, (same, size), changed.1),
        old(other).wf(),
        old(other).size == Some(size),
        second.width != size.width || second.height != size.height,
        call_ensures(TemporalAccumulator::resize, (other, second), changed.2),
        call_ensures(TemporalAccumulator::clear, (cleared,), ()),
        call_ensures(TemporalAccumulator::needs_update, (&*final(cleared),), needs.2),
    ensures
        !needs.0 && needs.1 && !needs.2,
        changed.0 && !changed.1 && changed.2,
        final(sized).size == Some(size) && final(sized).updates == 0,
        final(same).updates == old(same).updates && final(same).size == Some(size),
        final(other).size == Some(second) && final(other).updates == 0,
{
}

/// The samples of an output are numbered from zero, each is weighed among those that have been taken,
/// itself included, and after 512 of them none is taken any more.
pub proof fn lemma_samples_are_numbered(
    first: &mut TemporalAccumulator,
    second: &mut TemporalAccumulator,
    update: Option<TemporalUpdate>,
    next: Option<TemporalUpdate>,
    needs: bool,
)
    requires
        old(first).wf(),
        old(first).size is Some,
        call_ensures(TemporalAccumulator::needs_update, (&*old(first),), needs),
        call_ensures(TemporalAccumulator::next_update, (first,), update),
        *old(second) == *final(first),
        call_ensures(TemporalAccumulator::next_update, (second,), next),
    ensures
        needs <==> update is Some,
        update is Some <==> old(first).updates < 512,
        update is Some ==> update->0.sample_index == old(first).updates && update->0.sample_count
            == update->0.sample_index + 1,
        update is Some && next is Some ==> next->0.sample_index == update->0.sample_index + 1,
        update is Some && update->0.sample_index == 511 ==> next is None,
        update is None ==> *final(first) == *old(first),
        final(second).size == old(first).size,
{
}

/// The flags of a box tell its owner, one more than the torch's place in the lowest three bits, and
/// with one bit each whether it lights directly, belongs to the lit or to the unlit redstone torch,
/// and is a sheet.
pub proof fn lemma_flags_are_read_back(data: BoxData, flags: u32)
    requires
        call_ensures(BoxData::flags, (data,), flags),
    ensures
        flags < 128,
        data.light_owner is None ==> flags % 8 == 0,
        data.light_owner is Some && data.light_owner->0 < 7 ==> flags % 8 == data.light_owner->0 + 1,
        (flags / 8) % 2 == 1 <==> data.direct_light,
        (flags / 16) % 2 == 1 <==> data.geometry_bank is RedstoneOn,
        (flags / 32) % 2 == 1 <==> data.geometry_bank is RedstoneOff,
        (flags / 64) % 2 == 1 <==> data.redstone_sheet,
{
    torch::lemma_flags_keep_the_roles(data);
}

/// Whether a box is the stick of a torch and another its head: the head stands on the stick and is as
/// thick, from half a block to ten sixteenths of one, and only it has an owner and lights directly.
pub open spec fn is_torch(
    stick: BoxData,
    head: BoxData,
    owner: u8,
    texture: u32,
    light: u32,
    west: u32,
    east: u32,
    south: u32,
    north: u32,
) -> bool {
    &&& stick.min == (west, south, 0u32)
    &&& stick.max == (east, north, 0x3f00_0000u32)
    &&& head.min == (west, south, 0x3f00_0000u32)
    &&& head.max == (east, north, 0x3f20_0000u32)
    &&& stick.light_level == 0 && stick.light_owner is None && !stick.direct_light
    &&& head.light_level == light && head.light_owner == Some(owner) && head.direct_light
    &&& stick.texture_index == texture && head.texture_index == texture
    &&& stick.geometry_bank is Shared && head.geometry_bank is Shared
    &&& !stick.redstone_sheet && !head.redstone_sheet
}

/// The scene has a torch in each corner. Copper, soul and plain torch stand to the north-east, the
/// south-west and the south-east with light of 14, 10 and 14; the redstone torch to the north-west has
/// a lit model with light of 7 and an unlit one without. Only the four heads light directly.
pub proof fn lemma_four_torches_stand_in_the_corners(boxes: Vec<BoxData>, place: int)
    requires
        call_ensures(torch::scene_boxes, (), boxes),
        0 <= place < 18,
    ensures
        boxes@.len() == 18,
        is_torch(
            boxes@[8],
            boxes@[9],
            1,
            1,
            0x4160_0000,
            0x3ee0_0000,
            0x3f10_0000,
            0x3ee0_0000,
            0x3f10_0000,
        ),
        is_torch(
            boxes@[10],
            boxes@[11],
            2,
            2,
            0x4120_0000,
            0xbf10_0000,
            0xbee0_0000,
            0xbf10_0000,
            0xbee0_0000,
        ),
        is_torch(
            boxes@[12],
            boxes@[13],
            3,
            3,
            0x4160_0000,
            0x3ee0_0000,
            0x3f10_0000,
            0xbf10_0000,
            0xbee0_0000,
        ),
        boxes@[5].direct_light && boxes@[5].light_owner == Some(0u8) && boxes@[5].light_level
            == 0x40e0_0000 && boxes@[5].texture_index == 0,
        boxes@[5].min == (0xbf10_0000u32, 0x3ee0_0000u32, 0x3f00_0000u32),
        boxes@[5].max == (0xbee0_0000u32, 0x3f10_0000u32, 0x3f20_0000u32),
        boxes@[place].direct_light <==> place == 5 || place == 9 || place == 11 || place == 13,
        boxes@[place].geometry_bank is RedstoneOn <==> place < 6,
        boxes@[place].geometry_bank is RedstoneOff <==> place == 6 || place == 7,
        boxes@[place].redstone_sheet <==> 1 <= place <= 4,
        place == 6 || place == 7 ==> boxes@[place].light_level == 0
            && boxes@[place].light_owner is None && boxes@[place].texture_index == 5,
        place < 6 ==> boxes@[place].texture_index == 0,
        1 <= place <= 4 ==> boxes@[place].light_owner == Some(0u8) && boxes@[place].light_level
            == 0x40e0_0000,
        place >= 14 ==> boxes@[place].texture_index == 4 && boxes@[place].light_level == 0
            && boxes@[place].light_owner is None && boxes@[place].smoothness == 0x3e4c_cccd,
        place < 14 ==> boxes@[place].smoothness == 0,
        place < 14 ==> boxes@[place].texture_offset_positive == (0u32, 0u32, 0x3d80_0000u32)
            && boxes@[place].texture_offset_negative == (0u32, 0u32, 0xbee0_0000u32),
        place >= 14 ==> boxes@[place].texture_offset_positive == (0u32, 0u32, 0u32)
            && boxes@[place].texture_offset_negative == (0u32, 0u32, 0u32),
        boxes@[0].min == (0xbf10_0000u32, 0x3ee0_0000u32, 0u32) && boxes@[0].max == (
            0xbee0_0000u32,
            0x3f10_0000u32,
            0x3ee0_0000u32,
        ),
        boxes@[6].min == boxes@[0].min && boxes@[7].min == boxes@[5].min && boxes@[7].max
            == boxes@[5].max,
{
}

/// The ground is made up of four slabs around the middle, and the sheets of the lit redstone torch
/// stand on the four sides of its stick.
pub proof fn lemma_ground_and_sheets(boxes: Vec<BoxData>)
    requires
        call_ensures(torch::scene_boxes, (), boxes),
    ensures
        boxes@[14].min == (0u32, 0u32, 0u32) && boxes@[14].max == (
            0x3f80_0000u32,
            0x3f80_0000u32,
            0u32,
        ),
        boxes@[15].min == (0xbf80_0000u32, 0u32, 0u32) && boxes@[15].max == (
            0u32,
            0x3f80_0000u32,
            0u32,
        ),
        boxes@[16].min == (0xbf80_0000u32, 0xbf80_0000u32, 0u32) && boxes@[16].max == (
            0u32,
            0u32,
            0u32,
        ),
        boxes@[17].min == (0u32, 0xbf80_0000u32, 0u32) && boxes@[17].max == (
            0x3f80_0000u32,
            0u32,
            0u32,
        ),
        boxes@[1].min == (0xbf80_0000u32, 0x3ee0_0000u32, 0u32) && boxes@[1].max == (
            0u32,
            0x3ee0_0000u32,
            0x3f80_0000u32,
        ),
        boxes@[2].min == (0xbf80_0000u32, 0x3f10_0000u32, 0u32) && boxes@[2].max == (
            0u32,
            0x3f10_0000u32,
            0x3f80_0000u32,
        ),
        boxes@[3].min == (0xbf10_0000u32, 0u32, 0u32) && boxes@[3].max == (
            0xbf10_0000u32,
            0x3f80_0000u32,
            0x3f80_0000u32,
        ),
        boxes@[4].min == (0xbee0_0000u32, 0u32, 0u32) && boxes@[4].max == (
            0xbee0_0000u32,
            0x3f80_0000u32,
            0x3f80_0000u32,
        ),
{
}

/// Each box of the scene takes 80 bytes of its buffer, in the order of the scene: its two corners, its
/// light, its smoothness, its texture, its flags and its two offsets.
pub proof fn lemma_where_a_box_stands(
    boxes: Vec<BoxData>,
    place: int,
    flags: u32,
    laid_out: Vec<u8>,
)
    requires
        call_ensures(torch::scene_boxes, (), boxes),
        0 <= place < 18,
        call_ensures(BoxData::flags, (boxes@[place],), flags),
        call_ensures(torch::encoded_boxes, (), laid_out),
    ensures
        laid_out@.len() == 1_440,
        ({
            let data = boxes@[place];
            let at = 80 * place;
            &&& buffers::holds(laid_out@, at, data.min.0)
            &&& buffers::holds(laid_out@, at + 4, data.min.1)
            &&& buffers::holds(laid_out@, at + 8, data.min.2)
            &&& buffers::holds(laid_out@, at + 16, data.max.0)
            &&& buffers::holds(laid_out@, at + 20, data.max.1)
            &&& buffers::holds(laid_out@, at + 24, data.max.2)
            &&& buffers::holds(laid_out@, at + 32, data.light_level)
            &&& buffers::holds(laid_out@, at + 36, data.smoothness)
            &&& buffers::holds(laid_out@, at + 40, data.texture_index)
            &&& buffers::holds(laid_out@, at + 44, flags)
            &&& buffers::holds(laid_out@, at + 48, data.texture_offset_positive.0)
            &&& buffers::holds(laid_out@, at + 52, data.texture_offset_positive.1)
            &&& buffers::holds(laid_out@, at + 56, data.texture_offset_positive.2)
            &&& buffers::holds(laid_out@, at + 64, data.texture_offset_negative.0)
            &&& buffers::holds(laid_out@, at + 68, data.texture_offset_negative.1)
            &&& buffers::holds(laid_out@, at + 72, data.texture_offset_negative.2)
        }),
{
    let words = torch::scene_words();
    let data = boxes@[place];
    assert forall|word: int| 0 <= word < 20 implies #[trigger] buffers::holds(
        laid_out@,
        4 * (20 * place + word),
        data.words()[word],
    ) by {
        assert((20 * place + word) / 20 == place && (20 * place + word) % 20 == word);
        buffers::lemma_held(laid_out@, words, 20 * place + word);
    }
    assert(buffers::holds(laid_out@, 4 * (20 * place + 0), data.words()[0]));
    assert(buffers::holds(laid_out@, 4 * (20 * place + 1), data.words()[1]));
    assert(buffers::holds(laid_out@, 4 * (20 * place + 2), data.words()[2]));
    assert(buffers::holds(laid_out@, 4 * (20 * place + 4), data.words()[4]));
    assert(buffers::holds(laid_out@, 4 * (20 * place + 5), data.words()[5]));
    assert(buffers::holds(laid_out@, 4 * (20 * place + 6), data.words()[6]));
    assert(buffers::holds(laid_out@, 4 * (20 * place + 8), data.words()[8]));
    assert(buffers::holds(laid_out@, 4 * (20 * place + 9), data.words()[9]));
    assert(buffers::holds(laid_out@, 4 * (20 * place + 10), data.words()[10]));
    assert(buffers::holds(laid_out@, 4 * (20 * place + 11), data.words()[11]));
    assert(buffers::holds(laid_out@, 4 * (20 * place + 12), data.words()[12]));
    assert(buffers::holds(laid_out@, 4 * (20 * place + 13), data.words()[13]));
    assert(buffers::holds(laid_out@, 4 * (20 * place + 14), data.words()[14]));
    assert(buffers::holds(laid_out@, 4 * (20 * place + 16), data.words()[16]));
    assert(buffers::holds(laid_out@, 4 * (20 * place + 17), data.words()[17]));
    assert(buffers::holds(laid_out@, 4 * (20 * place + 18), data.words()[18]));
}

/// The camera looks with a field of view of seventy degrees from three blocks to the south and one
/// above the ground; it is told the size of the output and the number of the sample. The picture is
/// told which torches are lit.
pub proof fn lemma_what_the_camera_is_told(
    width: u32,
    height: u32,
    sample: u32,
    mask: u8,
    camera: Vec<u8>,
    picture: Vec<u8>,
)
    requires
        call_ensures(torch::encoded_trace_uniforms, (width, height, sample), camera),
        call_ensures(torch::encoded_present_uniforms, (mask,), picture),
    ensures
        camera@.len() == 80,
        buffers::holds(camera@, 0, 0x3f80_0000),
        buffers::holds(camera@, 24, 0x3f80_0000),
        buffers::holds(camera@, 32, 0x3f9c_61aa),
        buffers::holds(camera@, 48, 0),
        buffers::holds(camera@, 52, 0xc040_0000),
        buffers::holds(camera@, 56, 0x3f80_0000),
        buffers::holds(camera@, 64, width),
        buffers::holds(camera@, 68, height),
        buffers::holds(camera@, 72, sample),
        picture@.len() == 16,
        buffers::holds(picture@, 0, mask as u32),
{
    let words = torch::trace_words(width, height, sample);
    buffers::lemma_held(camera@, words, 0);
    buffers::lemma_held(camera@, words, 6);
    buffers::lemma_held(camera@, words, 8);
    buffers::lemma_held(camera@, words, 12);
    buffers::lemma_held(camera@, words, 13);
    buffers::lemma_held(camera@, words, 14);
    buffers::lemma_held(camera@, words, 16);
    buffers::lemma_held(camera@, words, 17);
    buffers::lemma_held(camera@, words, 18);
    buffers::lemma_held(picture@, seq![mask as u32, 0u32, 0u32, 0u32], 0);
}

/// The scene takes six textures of 16 by 16 pixels, each decoded and turned upside down in its own
/// layer. Another number of them is refused with the number.
pub proof fn lemma_six_textures_are_turned(
    encoded: Vec<Vec<u8>>,
    layer: int,
    file: &[u8],
    image: Result<RgbaImage, ResourceError>,
    turned: RgbaImage,
    textures: Result<Vec<RgbaImage>, TextureError>,
)
    requires
        0 <= layer < encoded@.len(),
        file@ == encoded@[layer]@,
        call_ensures(resources::decode_rgba_png, (file,), image),
        image is Ok ==> call_ensures(resources::flip_vertical, (image->Ok_0,), turned),
        call_ensures(torch::prepare_textures, (&encoded,), textures),
    ensures
        encoded@.len() != 6 <==> textures is Err && textures->Err_0 is Count,
        encoded@.len() != 6 ==> textures->Err_0->Count_0 == encoded@.len(),
        textures is Ok ==> textures->Ok_0@.len() == 6 && image is Ok && image->Ok_0.width == 16
            && image->Ok_0.height == 16 && textures->Ok_0@[layer]@ == turned@,
        encoded@.len() == 6 && image is Err ==> textures is Err && textures->Err_0 is Image
            && textures->Err_0->layer <= layer,
        encoded@.len() == 6 && image is Ok && !(image->Ok_0.width == 16 && image->Ok_0.height
            == 16) ==> textures is Err,
{
    assert(encoded@[layer]@ == file@);
}

/// Each layer has its file: redstone, copper, soul and plain torch, the stone, and the unlit redstone
/// torch.
pub proof fn lemma_each_texture_has_its_file(
    names: (&'static str, &'static str, &'static str, &'static str, &'static str, &'static str),
)
    requires
        call_ensures(torch::texture_file, (0,), names.0),
        call_ensures(torch::texture_file, (1,), names.1),
        call_ensures(torch::texture_file, (2,), names.2),
        call_ensures(torch::texture_file, (3,), names.3),
        call_ensures(torch::texture_file, (4,), names.4),
        call_ensures(torch::texture_file, (5,), names.5),
    ensures
        names.0@ == "lock/torch/redstone_torch.png"@,
        names.1@ == "lock/torch/copper_torch.png"@,
        names.2@ == "lock/torch/soul_torch.png"@,
        names.3@ == "lock/torch/torch.png"@,
        names.4@ == "lock/torch/smooth_stone.png"@,
        names.5@ == "lock/torch/redstone_torch_off.png"@,
{
}

} // verus!
