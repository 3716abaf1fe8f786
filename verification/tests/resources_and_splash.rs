use std::io::{Cursor, Write};

use minecraft_plus_wayland::resources::{
    asset_source, decode_rgba_png, flip_vertical, join_path, load_resource, load_rgba_png,
    load_sized_png, load_utf8, require_dimensions, select_source, AssetSource, ResourceError,
    RgbaImage, RESOURCES_ARCHIVE_RELATIVE, WEB_WASM_RELATIVE,
};
use minecraft_plus_wayland::splash::{
    extract_splash_table, pick_from_wasm, splash_at, SplashError, EXPECTED_SPLASH_COUNT,
};
use minecraft_plus_wayland::text::{
    chars_of, decimal_string, is_blank, parse_unsigned, read_unsigned, same_text, split_lines,
    split_words, trim,
};
use rand::rngs::mock::StepRng;
use rand::Rng;

const START_MARKER: &[u8] = b"Full of stars!\n";
const FALLBACK_SPLASH: &str = "Splashes not included";

#[test]
fn dedicated_path_has_highest_priority() {
    let dedicated = b"configured/resources.zip".to_vec();
    let source = select_source(
        Some(dedicated.clone()),
        Some(b"root/resources.zip".to_vec()),
        Some(b"embedded"),
        RESOURCES_ARCHIVE_RELATIVE,
    );
    assert!(matches!(source, AssetSource::Path(path) if path == dedicated));
}

#[test]
fn assets_root_precedes_embedded_bytes() {
    let assets = b"root/resources.zip".to_vec();
    let source = select_source(
        None,
        Some(assets.clone()),
        Some(b"embedded"),
        RESOURCES_ARCHIVE_RELATIVE,
    );
    assert!(matches!(source, AssetSource::Path(path) if path == assets));
}

#[test]
fn embedded_bytes_precede_the_cwd_fallback() {
    let source = select_source(None, None, Some(b"embedded"), RESOURCES_ARCHIVE_RELATIVE);
    assert!(matches!(source, AssetSource::Embedded(bytes) if bytes == b"embedded"));
}

#[test]
fn default_is_relative_to_the_cwd_assets_directory() {
    let source = select_source(None, None, None, RESOURCES_ARCHIVE_RELATIVE);
    assert!(matches!(source, AssetSource::Path(path) if path == b"assets/resources.zip"));
}

#[test]
fn an_assets_root_is_joined_to_the_name() {
    let root = Some(b"/srv/assets".to_vec());
    let source = asset_source(None, &root, Some(b"embedded"), WEB_WASM_RELATIVE);
    assert!(matches!(source, AssetSource::Path(path) if path == b"/srv/assets/mcse_web_bg.wasm"));
    let source = asset_source(None, &None, Some(b"embedded"), WEB_WASM_RELATIVE);
    assert!(matches!(source, AssetSource::Embedded(b"embedded")));
    for (root, relative) in [("a", "b"), ("a/", "b"), ("", "b"), ("a", "/b"), ("a", "")] {
        let expected = std::path::Path::new(root).join(relative);
        assert_eq!(
            join_path(root.as_bytes(), relative),
            expected.to_str().unwrap().as_bytes()
        );
    }
}

fn archive(entries: &[(&str, &[u8])]) -> Vec<u8> {
    let mut writer = zip::ZipWriter::new(Cursor::new(Vec::new()));
    for (name, contents) in entries {
        writer
            .start_file(*name, zip::write::SimpleFileOptions::default())
            .unwrap();
        writer.write_all(contents).unwrap();
    }
    writer.finish().unwrap().into_inner()
}

fn png(width: u32, height: u32) -> Vec<u8> {
    let image = image::RgbaImage::from_fn(width, height, |x, y| {
        image::Rgba([x as u8, y as u8, 7, 255])
    });
    let mut encoded = Cursor::new(Vec::new());
    image.write_to(&mut encoded, image::ImageFormat::Png).unwrap();
    encoded.into_inner()
}

#[test]
fn resources_are_read_out_of_the_archive() {
    let packed = archive(&[
        ("a.txt", "gr\u{fc}n\n".as_bytes()),
        ("b.png", &png(3, 2)),
        ("c.bin", &[0xff, 0xfe]),
    ]);
    assert_eq!(load_resource(&packed, "c.bin").unwrap(), [0xff, 0xfe]);
    assert_eq!(load_utf8(&packed, "a.txt").unwrap(), "gr\u{fc}n\n");
    assert!(matches!(load_utf8(&packed, "c.bin"), Err(ResourceError::Text)));
    assert!(matches!(load_utf8(&packed, "d"), Err(ResourceError::Archive(_))));
    assert!(matches!(load_resource(b"no archive", "a.txt"), Err(ResourceError::Archive(_))));

    let image = load_rgba_png(&packed, "b.png").unwrap();
    assert_eq!((image.width, image.height), (3, 2));
    assert_eq!(&image.pixels[20..24], &[2, 1, 7, 255]);
    assert!(matches!(load_rgba_png(&packed, "a.txt"), Err(ResourceError::Image(_))));
    assert!(load_sized_png(&packed, "b.png", 3, 2).is_ok());
    assert!(matches!(
        load_sized_png(&packed, "b.png", 2, 3),
        Err(ResourceError::Dimensions {
            width: 3,
            height: 2,
            wanted_width: 2,
            wanted_height: 3,
        })
    ));
    assert!(require_dimensions(&image, 3, 2).is_ok());
}

#[test]
fn opaque_images_gain_an_alpha_channel() {
    let opaque = image::RgbImage::from_pixel(2, 1, image::Rgb([1, 2, 3]));
    let mut encoded = Cursor::new(Vec::new());
    opaque.write_to(&mut encoded, image::ImageFormat::Png).unwrap();
    let image = decode_rgba_png(&encoded.into_inner()).unwrap();
    assert_eq!(image.pixels, [1, 2, 3, 255, 1, 2, 3, 255]);
}

#[test]
fn images_are_turned_upside_down() {
    let image = RgbaImage { width: 1, height: 3, pixels: (0..12).collect() };
    let turned = flip_vertical(image.clone());
    assert_eq!(turned.pixels, [8, 9, 10, 11, 4, 5, 6, 7, 0, 1, 2, 3]);
    assert_eq!(flip_vertical(turned), image);
}

fn test_wasm(splash_count: usize) -> Vec<u8> {
    let mut wasm = b"\0asm-test-prefix".to_vec();
    wasm.extend_from_slice(START_MARKER);
    for index in 1..splash_count {
        wasm.extend_from_slice(format!("Test splash {index}!\n").as_bytes());
    }
    wasm.extend_from_slice(FALLBACK_SPLASH.as_bytes());
    wasm.extend_from_slice(b"-test-suffix");
    wasm
}

#[test]
fn extracts_the_validated_table_from_wasm_bytes() {
    let wasm = test_wasm(EXPECTED_SPLASH_COUNT);
    let table = extract_splash_table(&wasm).unwrap();

    assert!(table.starts_with("Full of stars!\n"));
    assert!(table.ends_with("Test splash 141!\n"));
    assert_eq!(table.lines().count(), EXPECTED_SPLASH_COUNT);
}

#[test]
fn selection_returns_an_extracted_splash() {
    let wasm = test_wasm(EXPECTED_SPLASH_COUNT);
    let mut random = StepRng::new(42, 17);
    let drawn = random.gen_range(0, EXPECTED_SPLASH_COUNT);
    let table = extract_splash_table(&wasm).unwrap();
    for splash in [splash_at(&wasm, drawn).unwrap(), pick_from_wasm(&wasm).unwrap()] {
        assert!(table.lines().any(|candidate| candidate == splash));
    }
    assert_eq!(splash_at(&wasm, 0).unwrap(), "Full of stars!");
    assert_eq!(splash_at(&wasm, 141).unwrap(), "Test splash 141!");
}

#[test]
fn rejects_missing_ambiguous_or_wrong_sized_tables() {
    assert!(extract_splash_table(b"\0asm").is_err());

    let mut duplicate = test_wasm(EXPECTED_SPLASH_COUNT);
    duplicate.extend_from_slice(START_MARKER);
    assert!(extract_splash_table(&duplicate).is_err());

    assert!(extract_splash_table(&test_wasm(EXPECTED_SPLASH_COUNT - 1)).is_err());
}

#[test]
fn every_fault_of_a_splash_table_has_its_name() {
    let fault = |wasm: &[u8]| extract_splash_table(wasm).unwrap_err();
    assert_eq!(fault(b""), SplashError::MissingStartMarker);
    assert_eq!(
        fault(b"Full of stars!\nFull of stars!\n"),
        SplashError::AmbiguousStartMarker
    );
    assert_eq!(fault(b"Full of stars!\n"), SplashError::MissingFallback);
    assert_eq!(
        fault(b"Full of stars!\n\xffSplashes not included"),
        SplashError::Text
    );
    assert_eq!(
        fault(b"Full of stars!\nno endSplashes not included"),
        SplashError::MissingFinalNewline
    );
    assert_eq!(
        fault(b"Full of stars!\nSplashes not included"),
        SplashError::Count(1)
    );
    let mut gap = test_wasm(EXPECTED_SPLASH_COUNT - 1);
    let at = gap.len() - FALLBACK_SPLASH.len() - b"-test-suffix".len();
    gap.insert(at, b'\n');
    assert_eq!(fault(&gap), SplashError::EmptyEntry);
    assert!(pick_from_wasm(b"").is_err());
}

#[test]
fn texts_are_taken_apart_like_strings() {
    for sample in [
        "",
        "\n",
        "a\r\nb\n\nc",
        "a\r",
        " \u{a0}x y\u{3000}z\u{85}\t",
        "one two  three\n",
        "\u{2028}\u{feff}\u{200b}",
    ] {
        let lines = split_lines(sample)
            .iter()
            .map(|line| line.iter().collect::<String>())
            .collect::<Vec<_>>();
        assert_eq!(lines, sample.lines().collect::<Vec<_>>());
        let chars = chars_of(sample);
        assert_eq!(trim(&chars).iter().collect::<String>(), sample.trim());
        assert_eq!(is_blank(&chars), sample.trim().is_empty());
        let words = split_words(&chars)
            .iter()
            .map(|word| word.iter().collect::<String>())
            .collect::<Vec<_>>();
        assert_eq!(words, sample.split_whitespace().collect::<Vec<_>>());
    }
    for sample in [
        "0", "+7", "", "+", "-1", "4294967295", "4294967296", "007", "1 ", "++1", "99999999999x",
        "9x999999999", "\u{663}", "18446744073709551616",
    ] {
        assert_eq!(
            parse_unsigned(&chars_of(sample), u64::from(u32::MAX)),
            sample.parse::<u32>().ok().map(u64::from)
        );
        assert_eq!(
            read_unsigned(&chars_of(sample), u64::from(u32::MAX))
                .map_err(|error| error.message().to_owned()),
            sample.parse::<u32>().map(u64::from).map_err(|error| error.to_string())
        );
    }
    assert_eq!(decimal_string(0), "0");
    assert_eq!(decimal_string(u64::MAX), u64::MAX.to_string());
    assert!(same_text("\u{e9}", "\u{e9}"));
    assert!(!same_text("e", "\u{e9}"));
}
