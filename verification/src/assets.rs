//! What each module loads from the resource archive before it is drawn for the first time.

use vstd::prelude::*;

use crate::modules::block_list::{LayoutError, ListReader, ATLAS_DIMENSION, TILE_DIMENSION};
use crate::modules::creeper::CREEPER_DIMENSION;
use crate::modules::footprint::FOOTPRINT_DIMENSION;
use crate::modules::item_models::{ItemReader, MODEL_ATLAS_DIMENSION};
use crate::modules::load_cube::AtlasSpec;
use crate::modules::panorama::{FaceError, PanoramaError};
use crate::modules::squid::{SQUID_ATLAS_HEIGHT, SQUID_ATLAS_WIDTH};
use crate::modules::{blocks, dvd_bounce, item_models, load_cube, panorama};
use crate::resources;
use crate::resources::{ResourceError, RgbaImage};
use crate::text;

verus! {

/// Why the assets of a module cannot be used.
#[derive(Debug)]
pub enum AssetError {
    /// The resource of this name cannot be loaded.
    Resource { name: &'static str, error: ResourceError },
    /// The block list is not valid to its reader.
    Layout { reader: ListReader, fault: LayoutError },
    /// The list of models is not valid to its reader.
    Manifest(ItemReader),
    /// The list of panoramas is not valid.
    Names(PanoramaError),
    /// A face of the panorama cannot be loaded.
    Face(FaceError),
}

/// Whether an error says that a text resource cannot be read.
pub open spec fn text_fails(archive: Seq<u8>, name: Seq<char>, error: AssetError) -> bool {
    &&& error matches AssetError::Resource { name: named, error }
    &&& named@ == name
    &&& resources::reads(resources::zip_entry(archive, name), Err(error))
}

/// Whether an error says that an image resource cannot be loaded with these dimensions.
pub open spec fn image_fails(
    archive: Seq<u8>,
    name: Seq<char>,
    width: u32,
    height: u32,
    error: AssetError,
) -> bool {
    &&& error matches AssetError::Resource { name: named, error }
    &&& named@ == name
    &&& resources::decodes_to_size(resources::zip_entry(archive, name), width, height, Err(error))
}

/// The text that a resource of the archive holds.
pub open spec fn text_of(archive: Seq<u8>, name: Seq<char>) -> Option<Seq<char>> {
    resources::text_entry(resources::zip_entry(archive, name))
}

/// Whether the archive holds an image of this name and these dimensions.
pub open spec fn has_image(archive: Seq<u8>, name: Seq<char>, width: u32, height: u32) -> bool {
    resources::sized_entry(resources::zip_entry(archive, name), width, height)
}

/// Whether an image is the one that the archive holds.
pub open spec fn is_image(archive: Seq<u8>, name: Seq<char>, image: RgbaImage) -> bool {
    &&& resources::zip_entry(archive, name) matches Some(encoded)
    &&& resources::png_image(encoded) == Some(image@)
    &&& image@.wf()
}

fn read_text(archive: &[u8], name: &'static str) -> (contents: Result<String, AssetError>)
    ensures
        match contents {
            Ok(contents) => text_of(archive@, name@) == Some(contents@),
            Err(error) => text_of(archive@, name@) is None && text_fails(archive@, name@, error),
        },
{
    match resources::load_utf8(archive, name) {
        Ok(contents) => Ok(contents),
        Err(error) => Err(AssetError::Resource { name, error }),
    }
}

fn read_image(archive: &[u8], name: &'static str, width: u32, height: u32) -> (image: Result<
    RgbaImage,
    AssetError,
>)
    ensures
        match image {
            Ok(image) => has_image(archive@, name@, width, height) && is_image(
                archive@,
                name@,
                image,
            ),
            Err(error) => !has_image(archive@, name@, width, height) && image_fails(
                archive@,
                name@,
                width,
                height,
                error,
            ),
        },
{
    match resources::load_sized_png(archive, name, width, height) {
        Ok(image) => Ok(image),
        Err(error) => Err(AssetError::Resource { name, error }),
    }
}

/// What loading a single image comes to.
pub open spec fn loads_image(
    archive: Seq<u8>,
    name: Seq<char>,
    width: u32,
    height: u32,
    loaded: Result<RgbaImage, AssetError>,
) -> bool {
    match loaded {
        Ok(image) => has_image(archive, name, width, height) && is_image(archive, name, image),
        Err(error) => !has_image(archive, name, width, height) && image_fails(
            archive,
            name,
            width,
            height,
            error,
        ),
    }
}

/// Loads the sprites of the squids.
pub fn load_squids(archive: &[u8]) -> (atlas: Result<RgbaImage, AssetError>)
    ensures
        loads_image(archive@, "squids.png"@, SQUID_ATLAS_WIDTH, SQUID_ATLAS_HEIGHT, atlas),
{
    read_image(archive, "squids.png", SQUID_ATLAS_WIDTH, SQUID_ATLAS_HEIGHT)
}

/// Loads the face of the creeper.
pub fn load_creeper(archive: &[u8]) -> (texture: Result<RgbaImage, AssetError>)
    ensures
        loads_image(archive@, "creeper.png"@, CREEPER_DIMENSION, CREEPER_DIMENSION, texture),
{
    read_image(archive, "creeper.png", CREEPER_DIMENSION, CREEPER_DIMENSION)
}

/// Loads the shape of a footprint.
pub fn load_footprint(archive: &[u8]) -> (texture: Result<RgbaImage, AssetError>)
    ensures
        loads_image(archive@, "footprint.png"@, FOOTPRINT_DIMENSION, FOOTPRINT_DIMENSION, texture),
{
    read_image(archive, "footprint.png", FOOTPRINT_DIMENSION, FOOTPRINT_DIMENSION)
}

/// The textures of the field.
pub struct GrassTextures {
    pub grass: RgbaImage,
    pub dirt: RgbaImage,
    pub colors: RgbaImage,
}

/// Loads the textures of the field: the grass, the earth and the colours of the biomes, in this
/// order.
pub fn load_grass(archive: &[u8]) -> (textures: Result<GrassTextures, AssetError>)
    ensures
        if !has_image(archive@, "grass/grass.png"@, 16, 16) {
            textures matches Err(error) && image_fails(
                archive@,
                "grass/grass.png"@,
                16,
                16,
                error,
            )
        } else if !has_image(archive@, "grass/dirt.png"@, 16, 16) {
            textures matches Err(error) && image_fails(archive@, "grass/dirt.png"@, 16, 16, error)
        } else if !has_image(archive@, "grass/colors.png"@, 256, 256) {
            textures matches Err(error) && image_fails(
                archive@,
                "grass/colors.png"@,
                256,
                256,
                error,
            )
        } else {
            &&& textures matches Ok(textures)
            &&& is_image(archive@, "grass/grass.png"@, textures.grass)
            &&& is_image(archive@, "grass/dirt.png"@, textures.dirt)
            &&& is_image(archive@, "grass/colors.png"@, textures.colors)
        },
{
    let grass = read_image(archive, "grass/grass.png", 16, 16)?;
    let dirt = read_image(archive, "grass/dirt.png", 16, 16)?;
    let colors = read_image(archive, "grass/colors.png", 256, 256)?;
    Ok(GrassTextures { grass, dirt, colors })
}

/// The block list and the atlas that it describes.
pub struct BlockAssets {
    pub line_width: u32,
    pub slot_count: u32,
    pub atlas: RgbaImage,
}

/// What loading the plane of blocks comes to: the list, the atlas, and whether they belong together.
pub open spec fn loads_blocks(archive: Seq<u8>, loaded: Result<BlockAssets, AssetError>) -> bool {
    match text_of(archive, "full_blocks.txt"@) {
        None => loaded matches Err(error) && text_fails(archive, "full_blocks.txt"@, error),
        Some(list) => match blocks::block_layout(list) {
            Err(fault) => loaded == Err::<BlockAssets, AssetError>(
                AssetError::Layout { reader: ListReader::Blocks, fault },
            ),
            Ok((width, count)) => if !has_image(
                archive,
                "full_blocks.png"@,
                ATLAS_DIMENSION,
                ATLAS_DIMENSION,
            ) {
                loaded matches Err(error) && image_fails(
                    archive,
                    "full_blocks.png"@,
                    ATLAS_DIMENSION,
                    ATLAS_DIMENSION,
                    error,
                )
            } else if width * TILE_DIMENSION != ATLAS_DIMENSION {
                loaded == Err::<BlockAssets, AssetError>(
                    AssetError::Layout {
                        reader: ListReader::Blocks,
                        fault: LayoutError::AtlasWidth(width),
                    },
                )
            } else if count > width * width {
                loaded == Err::<BlockAssets, AssetError>(
                    AssetError::Layout {
                        reader: ListReader::Blocks,
                        fault: LayoutError::AtlasHeight(count),
                    },
                )
            } else {
                &&& loaded matches Ok(assets)
                &&& assets.line_width == width
                &&& assets.slot_count == count
                &&& is_image(archive, "full_blocks.png"@, assets.atlas)
            },
        },
    }
}

/// Loads the plane of blocks.
pub fn load_blocks(archive: &[u8]) -> (loaded: Result<BlockAssets, AssetError>)
    ensures
        loads_blocks(archive@, loaded),
{
    let list = read_text(archive, "full_blocks.txt")?;
    let (line_width, slot_count) = match blocks::load_block_layout(list.as_str()) {
        Ok(layout) => layout,
        Err(fault) => return Err(AssetError::Layout { reader: ListReader::Blocks, fault }),
    };
    let atlas = read_image(archive, "full_blocks.png", ATLAS_DIMENSION, ATLAS_DIMENSION)?;
    match blocks::check_atlas(line_width, slot_count) {
        Ok(()) => Ok(BlockAssets { line_width, slot_count, atlas }),
        Err(fault) => Err(AssetError::Layout { reader: ListReader::Blocks, fault }),
    }
}

/// The tiles of the bouncing block and the atlas that holds them.
pub struct BounceAssets {
    pub slots: Vec<(u32, u32)>,
    pub atlas: RgbaImage,
}

/// Loads the tiles of the bouncing block, first their list and then the atlas.
pub fn load_bounce(archive: &[u8]) -> (loaded: Result<BounceAssets, AssetError>)
    ensures
        match text_of(archive@, "full_blocks.txt"@) {
            None => loaded matches Err(error) && text_fails(archive@, "full_blocks.txt"@, error),
            Some(list) => match dvd_bounce::listed_slots(list) {
                Err(fault) => loaded == Err::<BounceAssets, AssetError>(
                    AssetError::Layout { reader: ListReader::Bounce, fault },
                ),
                Ok(slots) => if !has_image(
                    archive@,
                    "full_blocks.png"@,
                    ATLAS_DIMENSION,
                    ATLAS_DIMENSION,
                ) {
                    loaded matches Err(error) && image_fails(
                        archive@,
                        "full_blocks.png"@,
                        ATLAS_DIMENSION,
                        ATLAS_DIMENSION,
                        error,
                    )
                } else {
                    &&& loaded matches Ok(assets)
                    &&& assets.slots@ == slots
                    &&& is_image(archive@, "full_blocks.png"@, assets.atlas)
                },
            },
        },
{
    let list = read_text(archive, "full_blocks.txt")?;
    let slots = match dvd_bounce::load_slots(list.as_str()) {
        Ok(slots) => slots,
        Err(fault) => return Err(AssetError::Layout { reader: ListReader::Bounce, fault }),
    };
    let atlas = read_image(archive, "full_blocks.png", ATLAS_DIMENSION, ATLAS_DIMENSION)?;
    Ok(BounceAssets { slots, atlas })
}

/// The atlas of the cube and what it is made of.
pub struct CubeAssets {
    pub spec: AtlasSpec,
    pub atlas: RgbaImage,
}

/// What loading the cube comes to: the atlas, the list, and an atlas as large as the list says.
pub open spec fn loads_cube(archive: Seq<u8>, loaded: Result<CubeAssets, AssetError>) -> bool {
    let entry = resources::zip_entry(archive, "full_blocks.png"@);
    match entry {
        None => {
            &&& loaded matches Err(AssetError::Resource { name, error })
            &&& name@ == "full_blocks.png"@
            &&& error is Archive
        },
        Some(encoded) => match resources::png_image(encoded) {
            None => {
                &&& loaded matches Err(AssetError::Resource { name, error })
                &&& name@ == "full_blocks.png"@
                &&& error is Image
            },
            Some(image) => match text_of(archive, "full_blocks.txt"@) {
                None => loaded matches Err(error) && text_fails(archive, "full_blocks.txt"@, error),
                Some(list) => match load_cube::atlas_spec(list) {
                    Err(fault) => loaded == Err::<CubeAssets, AssetError>(
                        AssetError::Layout { reader: ListReader::Cube, fault },
                    ),
                    Ok((width, count)) => if width * 16 > u32::MAX {
                        loaded == Err::<CubeAssets, AssetError>(
                            AssetError::Layout {
                                reader: ListReader::Cube,
                                fault: LayoutError::AtlasOverflow,
                            },
                        )
                    } else if image.width != width * 16 || image.height != width * 16 {
                        &&& loaded matches Err(AssetError::Resource { name, error })
                        &&& name@ == "full_blocks.png"@
                        &&& error == ResourceError::Dimensions {
                            width: image.width,
                            height: image.height,
                            wanted_width: (width * 16) as u32,
                            wanted_height: (width * 16) as u32,
                        }
                    } else {
                        &&& loaded matches Ok(assets)
                        &&& assets.spec == (AtlasSpec { line_width: width, slot_count: count })
                        &&& is_image(archive, "full_blocks.png"@, assets.atlas)
                    },
                },
            },
        },
    }
}

/// Loads the cube.
pub fn load_cube_assets(archive: &[u8]) -> (loaded: Result<CubeAssets, AssetError>)
    ensures
        loads_cube(archive@, loaded),
{
    let name = "full_blocks.png";
    let atlas = match resources::load_rgba_png(archive, name) {
        Ok(atlas) => atlas,
        Err(error) => return Err(AssetError::Resource { name, error }),
    };
    let list = read_text(archive, "full_blocks.txt")?;
    let spec = match load_cube::read_atlas_spec(list.as_str()) {
        Ok(spec) => spec,
        Err(fault) => return Err(AssetError::Layout { reader: ListReader::Cube, fault }),
    };
    let dimension = match load_cube::expected_dimension(spec) {
        Ok(dimension) => dimension,
        Err(fault) => return Err(AssetError::Layout { reader: ListReader::Cube, fault }),
    };
    match resources::require_dimensions(&atlas, dimension, dimension) {
        Ok(()) => Ok(CubeAssets { spec, atlas }),
        Err(error) => Err(AssetError::Resource { name, error }),
    }
}

/// The names of the item models and the atlas of their textures.
pub struct ItemAssets {
    pub names: Vec<String>,
    pub atlas: RgbaImage,
}

/// Whether names are those of a valid list.
pub open spec fn is_manifest(list: Seq<char>, names: Seq<String>) -> bool {
    let lines = item_models::nonempty(text::lines(list));
    item_models::valid_names(lines) && names.map_values(|name: String| name@) == lines
}

fn read_manifest(archive: &[u8], reader: ItemReader) -> (names: Result<Vec<String>, AssetError>)
    ensures
        match text_of(archive@, "pop_items.txt"@) {
            None => names matches Err(error) && text_fails(archive@, "pop_items.txt"@, error),
            Some(list) => match names {
                Ok(names) => is_manifest(list, names@),
                Err(error) => error == AssetError::Manifest(reader) && !item_models::valid_names(
                    item_models::nonempty(text::lines(list)),
                ),
            },
        },
{
    let list = read_text(archive, "pop_items.txt")?;
    match item_models::load_manifest(list.as_str()) {
        Some(names) => Ok(names),
        None => Err(AssetError::Manifest(reader)),
    }
}

/// Whether the archive holds a valid list of models.
pub open spec fn has_manifest(archive: Seq<u8>) -> bool {
    text_of(archive, "pop_items.txt"@) matches Some(list) && item_models::valid_names(
        item_models::nonempty(text::lines(list)),
    )
}

/// Whether an error says what is wrong with the list of models.
pub open spec fn manifest_fails(archive: Seq<u8>, reader: ItemReader, error: AssetError) -> bool {
    match text_of(archive, "pop_items.txt"@) {
        None => text_fails(archive, "pop_items.txt"@, error),
        Some(_) => error == AssetError::Manifest(reader),
    }
}

/// What loading the items comes to. Bouncing items read the list before the atlas, popping items
/// after it, and what comes first is blamed first.
pub open spec fn loads_items(
    archive: Seq<u8>,
    reader: ItemReader,
    loaded: Result<ItemAssets, AssetError>,
) -> bool {
    let name = "item_models/atlas.png"@;
    let list = has_manifest(archive);
    let atlas = has_image(archive, name, MODEL_ATLAS_DIMENSION, MODEL_ATLAS_DIMENSION);
    if !list && (reader is Bounce || atlas) {
        loaded matches Err(error) && manifest_fails(archive, reader, error)
    } else if !atlas {
        loaded matches Err(error) && image_fails(
            archive,
            name,
            MODEL_ATLAS_DIMENSION,
            MODEL_ATLAS_DIMENSION,
            error,
        )
    } else {
        &&& loaded matches Ok(assets)
        &&& is_manifest(text_of(archive, "pop_items.txt"@)->0, assets.names@)
        &&& is_image(archive, name, assets.atlas)
    }
}

/// Loads the items.
pub fn load_items(archive: &[u8], reader: ItemReader) -> (loaded: Result<ItemAssets, AssetError>)
    ensures
        loads_items(archive@, reader, loaded),
{
    let name = "item_models/atlas.png";
    match reader {
        ItemReader::Bounce => {
            let names = read_manifest(archive, reader)?;
            let atlas = read_image(archive, name, MODEL_ATLAS_DIMENSION, MODEL_ATLAS_DIMENSION)?;
            Ok(ItemAssets { names, atlas })
        },
        ItemReader::Pop => {
            let atlas = read_image(archive, name, MODEL_ATLAS_DIMENSION, MODEL_ATLAS_DIMENSION)?;
            let names = read_manifest(archive, reader)?;
            Ok(ItemAssets { names, atlas })
        },
    }
}

/// What loading a panorama comes to, once one of the listed names is chosen.
pub open spec fn loads_panorama(
    archive: Seq<u8>,
    chosen: Seq<char>,
    loaded: Result<Vec<RgbaImage>, AssetError>,
) -> bool {
    match loaded {
        Ok(faces) => {
            &&& faces@.len() == panorama::CUBEMAP_FACE_COUNT
            &&& forall|layer: int|
                0 <= layer < panorama::CUBEMAP_FACE_COUNT ==> panorama::loads_face(
                    archive,
                    chosen,
                    layer,
                    Ok(#[trigger] faces@[layer]),
                )
        },
        Err(error) => {
            &&& error matches AssetError::Face(fault)
            &&& fault.layer < panorama::CUBEMAP_FACE_COUNT
            &&& fault.resource@ == panorama::face_name(chosen, fault.layer as int)
            &&& panorama::loads_face(archive, chosen, fault.layer as int, Err(fault.error))
            &&& forall|layer: int|
                0 <= layer < fault.layer ==> #[trigger] panorama::has_face(archive, chosen, layer)
        },
    }
}

/// Loads the faces of a panorama that is drawn from the list.
pub fn load_panorama(archive: &[u8]) -> (loaded: Result<Vec<RgbaImage>, AssetError>)
    ensures
        match text_of(archive@, "panoramas.txt"@) {
            None => loaded matches Err(error) && text_fails(archive@, "panoramas.txt"@, error),
            Some(list) => match panorama::listed_names(list) {
                Err(fault) => loaded == Err::<Vec<RgbaImage>, AssetError>(AssetError::Names(fault)),
                Ok(names) => exists|chosen: int|
                    0 <= chosen < names.len() && loads_panorama(
                        archive@,
                        #[trigger] names[chosen],
                        loaded,
                    ),
            },
        },
{
    let list = read_text(archive, "panoramas.txt")?;
    let names = match panorama::panorama_names(list.as_str()) {
        Ok(names) => names,
        Err(fault) => return Err(AssetError::Names(fault)),
    };
    let ghost listed = panorama::listed_names(list@)->Ok_0;
    assert(names@.map_values(|name: String| name@) == listed);
    assert(names@.map_values(|name: String| name@).len() == names@.len());
    let name = match panorama::choose_panorama(&names) {
        Some(name) => name,
        None => return Err(AssetError::Names(PanoramaError::NoNames)),
    };
    let ghost chosen = names@.index_of(*name);
    assert(listed[chosen] == names@[chosen]@);
    let loaded = match panorama::load_faces(archive, name.as_str()) {
        Ok(faces) => Ok(faces),
        Err(fault) => Err(AssetError::Face(fault)),
    };
    assert(loads_panorama(archive@, listed[chosen], loaded));
    loaded
}

} // verus!
