//! What each module loads before it is drawn.

use vstd::prelude::*;

use crate::assets;
use crate::assets::{
    AssetError, BlockAssets, BounceAssets, CubeAssets, GrassTextures, ItemAssets,
};
use crate::modules::block_list::{LayoutError, ListReader};
use crate::modules::item_models::ItemReader;
use crate::modules::load_cube::AtlasSpec;
use crate::modules::{blocks, dvd_bounce, item_models, load_cube, panorama};
use crate::resources;
use crate::resources::{ResourceError, RgbaImage};

verus! {

/// Whether an error blames the resource of this name.
pub open spec fn blames(error: AssetError, name: Seq<char>) -> bool {
    error is Resource && error->name@ == name
}

/// Whether what was loaded is the image of an entry, or its error blames the entry.
pub open spec fn is_loaded(
    loaded: Result<RgbaImage, AssetError>,
    image: Result<RgbaImage, ResourceError>,
    name: Seq<char>,
) -> bool {
    &&& loaded is Ok <==> image is Ok
    &&& loaded is Ok ==> loaded->Ok_0@ == image->Ok_0@
    &&& loaded is Err ==> blames(loaded->Err_0, name) && has_the_wrong_size(
        loaded->Err_0,
        image->Err_0,
    )
}

/// Whether an error tells the size of a picture, and the one that was wanted, where another does.
pub open spec fn has_the_wrong_size(error: AssetError, told: ResourceError) -> bool {
    told is Dimensions ==> error is Resource && error->error == told
}

/// The squids are drawn from an atlas of 128 by 640 pixels, the creeper and the footprint from
/// pictures of 8 by 8, each of the file that bears its name.
pub proof fn lemma_single_pictures(
    archive: &[u8],
    squid_file: &str,
    creeper_file: &str,
    footprint_file: &str,
    squid_image: Result<RgbaImage, ResourceError>,
    creeper_image: Result<RgbaImage, ResourceError>,
    footprint_image: Result<RgbaImage, ResourceError>,
    squids: Result<RgbaImage, AssetError>,
    creeper: Result<RgbaImage, AssetError>,
    footprint: Result<RgbaImage, AssetError>,
)
    requires
        squid_file@ == "squids.png"@,
        creeper_file@ == "creeper.png"@,
        footprint_file@ == "footprint.png"@,
        call_ensures(resources::load_sized_png, (archive, squid_file, 128, 640), squid_image),
        call_ensures(resources::load_sized_png, (archive, creeper_file, 8, 8), creeper_image),
        call_ensures(resources::load_sized_png, (archive, footprint_file, 8, 8), footprint_image),
        call_ensures(assets::load_squids, (archive,), squids),
        call_ensures(assets::load_creeper, (archive,), creeper),
        call_ensures(assets::load_footprint, (archive,), footprint),
    ensures
        is_loaded(squids, squid_image, "squids.png"@),
        is_loaded(creeper, creeper_image, "creeper.png"@),
        is_loaded(footprint, footprint_image, "footprint.png"@),
{
}

/// The field is drawn from pictures of grass and of earth of 16 by 16 pixels and from one of colours
/// of 256 by 256, each in its own place. The first that cannot be loaded is blamed.
pub proof fn lemma_pictures_of_the_field(
    archive: &[u8],
    grass_file: &str,
    dirt_file: &str,
    colors_file: &str,
    grass: Result<RgbaImage, ResourceError>,
    dirt: Result<RgbaImage, ResourceError>,
    colors: Result<RgbaImage, ResourceError>,
    loaded: Result<GrassTextures, AssetError>,
)
    requires
        grass_file@ == "grass/grass.png"@,
        dirt_file@ == "grass/dirt.png"@,
        colors_file@ == "grass/colors.png"@,
        call_ensures(resources::load_sized_png, (archive, grass_file, 16, 16), grass),
        call_ensures(resources::load_sized_png, (archive, dirt_file, 16, 16), dirt),
        call_ensures(resources::load_sized_png, (archive, colors_file, 256, 256), colors),
        call_ensures(assets::load_grass, (archive,), loaded),
    ensures
        loaded is Ok <==> grass is Ok && dirt is Ok && colors is Ok,
        loaded is Ok ==> loaded->Ok_0.grass@ == grass->Ok_0@ && loaded->Ok_0.dirt@ == dirt->Ok_0@
            && loaded->Ok_0.colors@ == colors->Ok_0@,
        grass is Err ==> blames(loaded->Err_0, grass_file@) && has_the_wrong_size(
            loaded->Err_0,
            grass->Err_0,
        ),
        grass is Ok && dirt is Err ==> blames(loaded->Err_0, dirt_file@) && has_the_wrong_size(
            loaded->Err_0,
            dirt->Err_0,
        ),
        grass is Ok && dirt is Ok && colors is Err ==> blames(loaded->Err_0, colors_file@)
            && has_the_wrong_size(loaded->Err_0, colors->Err_0),
{
}

/// The plane of blocks needs a list that describes it, an atlas of 512 by 512 pixels, and a list that
/// belongs to that atlas. It gets the width and the count of the list, and the atlas.
pub proof fn lemma_the_plane_of_blocks(
    archive: &[u8],
    list_file: &str,
    atlas_file: &str,
    list: Result<String, ResourceError>,
    text: &str,
    layout: Result<(u32, u32), LayoutError>,
    atlas: Result<RgbaImage, ResourceError>,
    checked: Result<(), LayoutError>,
    loaded: Result<BlockAssets, AssetError>,
)
    requires
        list_file@ == "full_blocks.txt"@,
        atlas_file@ == "full_blocks.png"@,
        call_ensures(resources::load_utf8, (archive, list_file), list),
        list is Ok ==> text@ == list->Ok_0@,
        call_ensures(blocks::load_block_layout, (text,), layout),
        call_ensures(resources::load_sized_png, (archive, atlas_file, 512, 512), atlas),
        layout is Ok ==> call_ensures(
            blocks::check_atlas,
            ((layout->Ok_0).0, (layout->Ok_0).1),
            checked,
        ),
        call_ensures(assets::load_blocks, (archive,), loaded),
    ensures
        loaded is Ok <==> list is Ok && layout is Ok && atlas is Ok && checked is Ok,
        loaded is Ok ==> loaded->Ok_0.line_width == (layout->Ok_0).0 && loaded->Ok_0.slot_count == (
        layout->Ok_0).1 && loaded->Ok_0.atlas@ == atlas->Ok_0@,
        list is Err ==> blames(loaded->Err_0, list_file@),
        list is Ok && layout is Err ==> loaded == Err::<BlockAssets, AssetError>(
            AssetError::Layout { reader: ListReader::Blocks, fault: layout->Err_0 },
        ),
        list is Ok && layout is Ok && atlas is Err ==> blames(loaded->Err_0, atlas_file@),
        list is Ok && layout is Ok && atlas is Ok && checked is Err ==> loaded == Err::<
            BlockAssets,
            AssetError,
        >(AssetError::Layout { reader: ListReader::Blocks, fault: checked->Err_0 }),
{
}

/// The bouncing block needs the tiles of the list and the same atlas.
pub proof fn lemma_the_bouncing_block(
    archive: &[u8],
    list_file: &str,
    atlas_file: &str,
    list: Result<String, ResourceError>,
    text: &str,
    slots: Result<Vec<(u32, u32)>, LayoutError>,
    atlas: Result<RgbaImage, ResourceError>,
    loaded: Result<BounceAssets, AssetError>,
)
    requires
        list_file@ == "full_blocks.txt"@,
        atlas_file@ == "full_blocks.png"@,
        call_ensures(resources::load_utf8, (archive, list_file), list),
        list is Ok ==> text@ == list->Ok_0@,
        call_ensures(dvd_bounce::load_slots, (text,), slots),
        call_ensures(resources::load_sized_png, (archive, atlas_file, 512, 512), atlas),
        call_ensures(assets::load_bounce, (archive,), loaded),
    ensures
        loaded is Ok <==> list is Ok && slots is Ok && atlas is Ok,
        loaded is Ok ==> loaded->Ok_0.slots@ == slots->Ok_0@ && loaded->Ok_0.atlas@ == atlas->Ok_0@,
        list is Err ==> blames(loaded->Err_0, list_file@),
        list is Ok && slots is Err ==> loaded == Err::<BounceAssets, AssetError>(
            AssetError::Layout { reader: ListReader::Bounce, fault: slots->Err_0 },
        ),
        list is Ok && slots is Ok && atlas is Err ==> blames(loaded->Err_0, atlas_file@),
{
}

/// The cube needs an atlas, a list, and an atlas as wide and as high as the list says, 16 pixels to
/// a block. The atlas is blamed before the list.
pub proof fn lemma_the_cube(
    archive: &[u8],
    list_file: &str,
    atlas_file: &str,
    list: Result<String, ResourceError>,
    text: &str,
    spec: Result<AtlasSpec, LayoutError>,
    atlas: Result<RgbaImage, ResourceError>,
    loaded: Result<CubeAssets, AssetError>,
)
    requires
        list_file@ == "full_blocks.txt"@,
        atlas_file@ == "full_blocks.png"@,
        call_ensures(resources::load_utf8, (archive, list_file), list),
        list is Ok ==> text@ == list->Ok_0@,
        call_ensures(load_cube::read_atlas_spec, (text,), spec),
        call_ensures(resources::load_rgba_png, (archive, atlas_file), atlas),
        call_ensures(assets::load_cube_assets, (archive,), loaded),
    ensures
        loaded is Ok <==> atlas is Ok && list is Ok && spec is Ok && atlas->Ok_0.width == 16
            * spec->Ok_0.line_width && atlas->Ok_0.height == 16 * spec->Ok_0.line_width,
        loaded is Ok ==> loaded->Ok_0.spec == spec->Ok_0 && loaded->Ok_0.atlas@ == atlas->Ok_0@,
        atlas is Err ==> blames(loaded->Err_0, atlas_file@),
        atlas is Ok && list is Err ==> blames(loaded->Err_0, list_file@),
        atlas is Ok && list is Ok && spec is Err ==> loaded == Err::<CubeAssets, AssetError>(
            AssetError::Layout { reader: ListReader::Cube, fault: spec->Err_0 },
        ),
{
}

/// The items need the list of their models and an atlas of 1024 by 1024 pixels. Where both are
/// wrong, those that bounce blame the list and those that pop blame the atlas.
pub proof fn lemma_the_items(
    archive: &[u8],
    reader: ItemReader,
    list_file: &str,
    atlas_file: &str,
    list: Result<String, ResourceError>,
    text: &str,
    names: Option<Vec<String>>,
    atlas: Result<RgbaImage, ResourceError>,
    loaded: Result<ItemAssets, AssetError>,
)
    requires
        list_file@ == "pop_items.txt"@,
        atlas_file@ == "item_models/atlas.png"@,
        call_ensures(resources::load_utf8, (archive, list_file), list),
        list is Ok ==> text@ == list->Ok_0@,
        call_ensures(item_models::load_manifest, (text,), names),
        call_ensures(resources::load_sized_png, (archive, atlas_file, 1_024, 1_024), atlas),
        call_ensures(assets::load_items, (archive, reader), loaded),
    ensures
        loaded is Ok <==> list is Ok && names is Some && atlas is Ok,
        loaded is Ok ==> loaded->Ok_0.atlas@ == atlas->Ok_0@ && loaded->Ok_0.names@.map_values(
            |name: String| name@,
        ) == names->0@.map_values(|name: String| name@),
        list is Err && (reader is Bounce || atlas is Ok) ==> blames(loaded->Err_0, list_file@),
        list is Ok && names is None && (reader is Bounce || atlas is Ok) ==> loaded == Err::<
            ItemAssets,
            AssetError,
        >(AssetError::Manifest(reader)),
        atlas is Err && (reader is Pop || (list is Ok && names is Some)) ==> blames(
            loaded->Err_0,
            atlas_file@,
        ),
{
}

/// The panorama needs a list with a sound name in it and the six faces of one of the names.
pub proof fn lemma_the_panorama(
    archive: &[u8],
    list_file: &str,
    list: Result<String, ResourceError>,
    text: &str,
    names: Result<Vec<String>, panorama::PanoramaError>,
    loaded: Result<Vec<RgbaImage>, AssetError>,
)
    requires
        list_file@ == "panoramas.txt"@,
        call_ensures(resources::load_utf8, (archive, list_file), list),
        list is Ok ==> text@ == list->Ok_0@,
        call_ensures(panorama::panorama_names, (text,), names),
        call_ensures(assets::load_panorama, (archive,), loaded),
    ensures
        list is Err ==> loaded is Err && blames(loaded->Err_0, list_file@),
        list is Ok && names is Err ==> loaded == Err::<Vec<RgbaImage>, AssetError>(
            AssetError::Names(names->Err_0),
        ),
        list is Ok && names is Ok && loaded is Err ==> loaded->Err_0 is Face,
        loaded is Ok ==> list is Ok && names is Ok && loaded->Ok_0@.len() == 6,
{
}

} // verus!
