use std::io::{Cursor, Write};

use minecraft_plus_wayland::assets::{
    load_blocks, load_bounce, load_creeper, load_cube_assets, load_footprint, load_grass,
    load_items, load_panorama, load_squids, AssetError,
};
use minecraft_plus_wayland::modules::block_list::{LayoutError, ListReader};
use minecraft_plus_wayland::modules::item_models::{ItemReader, MODEL_COUNT};
use minecraft_plus_wayland::modules::panorama::PanoramaError;
use minecraft_plus_wayland::resources::ResourceError;

fn archive(entries: &[(&str, Vec<u8>)]) -> Vec<u8> {
    let mut writer = zip::ZipWriter::new(Cursor::new(Vec::new()));
    for (name, contents) in entries {
        writer
            .start_file(*name, zip::write::SimpleFileOptions::default())
            .unwrap();
        writer.write_all(contents).unwrap();
    }
    writer.finish().unwrap().into_inner()
}

fn png(width: u32, height: u32, red: u8) -> Vec<u8> {
    let image = image::RgbaImage::from_fn(width, height, |_, _| image::Rgba([red, 2, 3, 255]));
    let mut encoded = Cursor::new(Vec::new());
    image.write_to(&mut encoded, image::ImageFormat::Png).unwrap();
    encoded.into_inner()
}

fn list(declared: &str, entries: usize) -> Vec<u8> {
    let mut text = String::from(declared);
    for index in 0..entries {
        text.push_str(&format!("{} {} block_{index}\n", index / 32, index % 32));
    }
    text.into_bytes()
}

fn blamed(error: &AssetError) -> &str {
    match error {
        AssetError::Resource { name, .. } => name,
        _ => "",
    }
}

#[test]
fn single_images_are_checked_for_their_size() {
    let whole = archive(&[
        ("squids.png", png(128, 640, 9)),
        ("creeper.png", png(8, 8, 10)),
        ("footprint.png", png(8, 8, 11)),
    ]);
    let squids = load_squids(&whole).unwrap();
    assert_eq!((squids.width, squids.height, squids.pixels[0]), (128, 640, 9));
    assert_eq!(load_creeper(&whole).unwrap().pixels[..4], [10, 2, 3, 255]);
    assert_eq!(load_footprint(&whole).unwrap().pixels.len(), 256);

    let wrong = archive(&[
        ("squids.png", png(640, 128, 9)),
        ("creeper.png", png(9, 8, 9)),
        ("footprint.png", vec![1, 2, 3]),
    ]);
    assert!(matches!(
        load_squids(&wrong),
        Err(AssetError::Resource {
            name: "squids.png",
            error: ResourceError::Dimensions { width: 640, height: 128, .. },
        })
    ));
    assert_eq!(blamed(&load_creeper(&wrong).unwrap_err()), "creeper.png");
    assert!(matches!(
        load_footprint(&wrong),
        Err(AssetError::Resource { name: "footprint.png", error: ResourceError::Image(_) })
    ));
    assert!(matches!(
        load_footprint(&archive(&[])),
        Err(AssetError::Resource { name: "footprint.png", error: ResourceError::Archive(_) })
    ));
}

#[test]
fn the_field_names_the_first_texture_that_fails() {
    let grass = ("grass/grass.png", png(16, 16, 1));
    let dirt = ("grass/dirt.png", png(16, 16, 2));
    let colors = ("grass/colors.png", png(256, 256, 3));
    let loaded = load_grass(&archive(&[grass.clone(), dirt.clone(), colors.clone()])).unwrap();
    assert_eq!(loaded.grass.pixels[0], 1);
    assert_eq!(loaded.dirt.pixels[0], 2);
    assert_eq!(loaded.colors.pixels[0], 3);
    let failed = |entries: &[(&str, Vec<u8>)]| match load_grass(&archive(entries)) {
        Ok(_) => panic!("the field is incomplete"),
        Err(error) => blamed(&error).to_string(),
    };
    assert_eq!(failed(&[]), "grass/grass.png");
    assert_eq!(failed(&[grass.clone(), colors.clone()]), "grass/dirt.png");
    assert_eq!(failed(&[grass, dirt, ("grass/colors.png", png(16, 16, 3))]), "grass/colors.png");
}

#[test]
fn the_plane_needs_a_list_that_fits_its_atlas() {
    let atlas = ("full_blocks.png", png(512, 512, 7));
    let load = |declared: &str, entries: usize| {
        load_blocks(&archive(&[atlas.clone(), ("full_blocks.txt", list(declared, entries))]))
    };
    let loaded = load("32\n3\n", 3).ok().unwrap();
    assert_eq!((loaded.line_width, loaded.slot_count, loaded.atlas.pixels[0]), (32, 3, 7));
    assert!(matches!(
        load("16\n3\n", 3),
        Err(AssetError::Layout { reader: ListReader::Blocks, fault: LayoutError::AtlasWidth(16) })
    ));
    assert!(matches!(
        load("32\n1025\n", 1025),
        Err(AssetError::Layout { reader: ListReader::Blocks, fault: LayoutError::AtlasHeight(1025) })
    ));
    assert!(matches!(
        load("32\n0\n", 0),
        Err(AssetError::Layout { reader: ListReader::Blocks, fault: LayoutError::ZeroDimension })
    ));
    let no_list = load_blocks(&archive(&[atlas.clone()])).err().unwrap();
    assert_eq!(blamed(&no_list), "full_blocks.txt");
    let no_atlas = load_blocks(&archive(&[("full_blocks.txt", list("32\n3\n", 3))])).err().unwrap();
    assert_eq!(blamed(&no_atlas), "full_blocks.png");
    let binary = archive(&[atlas.clone(), ("full_blocks.txt", vec![0xff])]);
    assert!(matches!(
        load_blocks(&binary),
        Err(AssetError::Resource { name: "full_blocks.txt", error: ResourceError::Text })
    ));
}

#[test]
fn the_bouncing_block_reads_its_tiles_before_the_atlas() {
    let atlas = ("full_blocks.png", png(512, 512, 7));
    let tiles = ("full_blocks.txt", list("32\n34\n", 34));
    let loaded = load_bounce(&archive(&[atlas.clone(), tiles.clone()])).ok().unwrap();
    assert_eq!(loaded.slots.len(), 34);
    assert_eq!(loaded.slots[33], (1, 1));
    assert_eq!(loaded.atlas.height, 512);
    assert!(load_bounce(&archive(&[atlas])).is_err());
    let no_atlas = load_bounce(&archive(&[tiles])).err().unwrap();
    assert_eq!(blamed(&no_atlas), "full_blocks.png");
}

#[test]
fn the_cube_takes_the_size_of_its_atlas_from_the_list() {
    let load = |side: u32, declared: &str, entries: usize| {
        load_cube_assets(&archive(&[
            ("full_blocks.png", png(side, side, 5)),
            ("full_blocks.txt", list(declared, entries)),
        ]))
    };
    let loaded = load(32, "2\n3\n", 3).ok().unwrap();
    assert_eq!((loaded.spec.line_width, loaded.spec.slot_count), (2, 3));
    assert_eq!(loaded.atlas.pixels.len(), 4 * 32 * 32);
    assert!(matches!(
        load(48, "2\n3\n", 3),
        Err(AssetError::Resource {
            name: "full_blocks.png",
            error: ResourceError::Dimensions {
                width: 48,
                height: 48,
                wanted_width: 32,
                wanted_height: 32,
            },
        })
    ));
    assert!(matches!(
        load(16, "268435456\n3\n", 3),
        Err(AssetError::Layout { reader: ListReader::Cube, fault: LayoutError::AtlasOverflow })
    ));
    let neither = load_cube_assets(&archive(&[])).err().unwrap();
    assert_eq!(blamed(&neither), "full_blocks.png");
}

#[test]
fn items_blame_what_they_read_first() {
    let names: Vec<String> = (0..MODEL_COUNT).map(|index| format!("item_models/{index}.obj")).collect();
    let manifest = ("pop_items.txt", names.join("\n").into_bytes());
    let atlas = ("item_models/atlas.png", png(1024, 1024, 4));
    for reader in [ItemReader::Bounce, ItemReader::Pop] {
        let loaded = load_items(&archive(&[manifest.clone(), atlas.clone()]), reader)
            .ok()
            .unwrap();
        assert_eq!(loaded.names, names);
        assert_eq!(loaded.atlas.width, 1024);
        assert!(matches!(
            load_items(&archive(&[("pop_items.txt", vec![b'a']), atlas.clone()]), reader),
            Err(AssetError::Manifest(blaming)) if blaming == reader
        ));
    }
    let first = load_items(&archive(&[]), ItemReader::Bounce).err().unwrap();
    assert_eq!(blamed(&first), "pop_items.txt");
    let second = load_items(&archive(&[]), ItemReader::Pop).err().unwrap();
    assert_eq!(blamed(&second), "item_models/atlas.png");
}

#[test]
fn a_panorama_is_loaded_from_the_list() {
    let face = png(1024, 1024, 6);
    let mut entries: Vec<(String, Vec<u8>)> = (0..6)
        .map(|layer| (format!("panoramas/plains/panorama_{layer}.png"), face.clone()))
        .collect();
    entries.push(("panoramas.txt".to_string(), b"plains\n".to_vec()));
    let borrowed: Vec<(&str, Vec<u8>)> = entries
        .iter()
        .map(|(name, contents)| (name.as_str(), contents.clone()))
        .collect();
    let loaded = load_panorama(&archive(&borrowed));
    assert!(matches!(loaded, Ok(ref faces) if faces.len() == 6), "{loaded:?}");
    assert!(matches!(
        load_panorama(&archive(&borrowed[1..])),
        Err(AssetError::Face(_))
    ));
    assert!(matches!(
        load_panorama(&archive(&[("panoramas.txt", b"\n".to_vec())])),
        Err(AssetError::Names(PanoramaError::NoNames))
    ));
    assert!(matches!(
        load_panorama(&archive(&[("panoramas.txt", b"a/b\n".to_vec())])),
        Err(AssetError::Names(PanoramaError::InvalidName))
    ));
    let nothing = load_panorama(&archive(&[])).err().unwrap();
    assert_eq!(blamed(&nothing), "panoramas.txt");
}
