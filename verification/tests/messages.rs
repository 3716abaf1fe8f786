use minecraft_plus_wayland::lock::identity::IdentityError;
use minecraft_plus_wayland::lock::pam::error::{PamError, PamErrorKind, PamErrorStage};
use minecraft_plus_wayland::lock::pam::secret::SecretError;
use minecraft_plus_wayland::modules::block_list::{LayoutError, ListReader};
use minecraft_plus_wayland::modules::item_models::{ItemReader, MeshError};
use minecraft_plus_wayland::modules::panorama::PanoramaError;
use minecraft_plus_wayland::resources::dimensions_message;
use minecraft_plus_wayland::splash::SplashError;
use minecraft_plus_wayland::text::{signed_string, NumberError};
use minecraft_plus_wayland::wasm::{
    lava_state, HostCallError, WasmError, WaterError, LAVA_FLOWING_OFFSET, STATE_BYTES,
};

#[test]
fn numbers_are_spelled_with_their_sign() {
    assert_eq!(signed_string(0), "0");
    assert_eq!(signed_string(42), "42");
    assert_eq!(signed_string(-7), "-7");
    assert_eq!(signed_string(i64::MIN), "-9223372036854775808");
    assert_eq!(signed_string(i64::MAX), "9223372036854775807");
}

#[test]
fn identity_errors_are_explained() {
    assert_eq!(
        IdentityError::CredentialMismatch.message(),
        "real and effective process credentials differ"
    );
    assert_eq!(
        IdentityError::BufferLimit.message(),
        "NSS passwd lookup exceeded its buffer limit"
    );
    assert_eq!(
        IdentityError::Lookup(-5).message(),
        "NSS passwd lookup failed with code -5"
    );
    assert_eq!(
        IdentityError::UserNotFound.message(),
        "real UID has no passwd record"
    );
    assert_eq!(
        IdentityError::InvalidRecord.message(),
        "NSS returned an invalid passwd record"
    );
}

#[test]
fn secret_errors_quote_the_system() {
    assert_eq!(
        SecretError::Mapping(12).message("out of memory"),
        "failed to allocate secret memory: out of memory"
    );
    assert_eq!(
        SecretError::DontDump(22).message("bad advice"),
        "failed to exclude secret memory from core dumps: bad advice"
    );
    assert_eq!(
        SecretError::Lock(1).message("no"),
        "failed to lock secret memory: no"
    );
    assert_eq!(
        SecretError::PageSizeUnavailable.message("unused"),
        "system page size is unavailable"
    );
    assert_eq!(
        SecretError::TooLong.message(""),
        "password exceeds the configured byte limit"
    );
    assert_eq!(
        SecretError::ContainsNul.message(""),
        "password input contains a NUL byte"
    );
}

#[test]
fn pam_errors_name_their_stage_and_kind() {
    let with_code = PamError::new(
        PamErrorStage::Authenticate,
        PamErrorKind::BackendUnavailable,
        Some(9),
    );
    assert_eq!(
        with_code.message(),
        "PAM BackendUnavailable failure in Authenticate (code Some(9))"
    );
    let without_code = PamError::new(PamErrorStage::UserCheck, PamErrorKind::Internal, None);
    assert_eq!(
        without_code.message(),
        "PAM Internal failure in UserCheck (code None)"
    );
    for stage in [
        PamErrorStage::Start,
        PamErrorStage::Conversation,
        PamErrorStage::Authenticate,
        PamErrorStage::UserCheck,
        PamErrorStage::Account,
        PamErrorStage::End,
    ] {
        assert_eq!(stage.name(), format!("{stage:?}"));
    }
    for kind in [
        PamErrorKind::BackendUnavailable,
        PamErrorKind::ConversationProtocol,
        PamErrorKind::ResourceFailure,
        PamErrorKind::Internal,
    ] {
        assert_eq!(kind.name(), format!("{kind:?}"));
    }
}

#[test]
fn splash_errors_are_explained() {
    assert_eq!(
        SplashError::MissingStartMarker.message(),
        "Web WASM does not contain the splash-table start marker"
    );
    assert_eq!(
        SplashError::Count(141).message(),
        "Web WASM splash table contains 141 entries instead of 142"
    );
    assert_eq!(
        SplashError::EmptyEntry.message(),
        "Web WASM splash table contains an empty entry"
    );
}

#[test]
fn host_call_errors_name_the_import() {
    let received = 2;
    let wanted = 11;
    assert_eq!(
        HostCallError::ParameterCount { received, wanted }.message("tex"),
        "tex received 2 parameters, expected 11"
    );
    assert_eq!(
        HostCallError::NotI32 { index: 3 }.message("tex"),
        "tex parameter 3 is not i32"
    );
    let labels = [
        (1, "target"),
        (2, "level"),
        (3, "internalformat"),
        (4, "width"),
        (5, "height"),
        (6, "border"),
        (7, "format"),
        (8, "type"),
        (10, "length"),
    ];
    for (index, label) in labels {
        let error = HostCallError::InvalidParameter {
            index,
            actual: -1,
            expected: 16,
        };
        assert_eq!(
            error.message("tex"),
            format!("tex received invalid {label} -1, expected 16")
        );
    }
    let beyond = HostCallError::BeyondMemory {
        start: 10,
        end: 30,
        size: 20,
    };
    assert_eq!(
        beyond.message("fill"),
        "fill guest range 10..30 exceeds memory size 20"
    );
    assert_eq!(
        HostCallError::NegativePointer.message("fill"),
        "fill received negative guest pointer"
    );
    assert_eq!(
        HostCallError::NegativeLength.message("fill"),
        "fill received negative length"
    );
    assert_eq!(
        HostCallError::NoMemory.message("fill"),
        "fill could not access guest memory"
    );
}

#[test]
fn modules_that_cannot_be_patched_are_explained() {
    for (error, text) in [
        (WasmError::InvalidHeader, "original Web WASM has an invalid header"),
        (WasmError::NumberTooLarge, "ULEB128 value is too large"),
        (WasmError::SectionBeyondFile, "WASM section extends beyond file"),
        (WasmError::TooLarge, "WASM export section is too large"),
        (WasmError::NoExportSection, "original Web WASM has no export section"),
    ] {
        assert_eq!(error.message(), text);
    }
    assert_eq!(
        WaterError::NoInitialUploads.message(),
        "original Web water function produced no initial texture uploads"
    );
}

#[test]
fn lists_and_images_are_explained() {
    assert_eq!(ItemReader::Pop.manifest_message(), "invalid pop_items.txt manifest");
    assert_eq!(
        ItemReader::Bounce.manifest_message(),
        "pop_items.txt must contain 1044 unique item_models paths"
    );
    assert_eq!(
        dimensions_message("squids.png", 640, 128, 512, 64),
        "squids.png must be 512x64, got 640x128"
    );
}

#[test]
fn asset_errors_are_explained() {
    assert_eq!(
        WasmError::TruncatedNumber.message(),
        "truncated ULEB128 value"
    );
    assert_eq!(
        WaterError::UnexpectedUploads { count: 3 }.message(),
        "original Web water function produced 3 texture uploads, expected 0 or 2"
    );
    let listed = LayoutError::Listed {
        declared: 4,
        listed: 3,
    };
    assert_eq!(
        listed.message(ListReader::Blocks),
        "full_blocks.txt declares 4 slots but contains 3 entries"
    );
    assert_eq!(
        LayoutError::AtlasWidth(31).message(ListReader::Blocks),
        "full_blocks.txt line width 31 does not describe a 512px, 16px-tile atlas"
    );
    assert_eq!(
        PanoramaError::NoNames.message(),
        "panoramas.txt contains no panorama names"
    );
    assert_eq!(MeshError::NoFaces.message(), "no triangle faces");
}

#[test]
fn every_reader_of_a_block_list_has_its_own_words() {
    let says = |reader: ListReader, errors: &[(LayoutError, &str)]| {
        for (error, text) in errors {
            assert_eq!(error.message(reader), *text);
        }
    };
    let line_width = LayoutError::LineWidth(NumberError::Empty);
    let slot_count = LayoutError::SlotCount(NumberError::TooLarge);
    let listed = LayoutError::Listed {
        declared: 4,
        listed: 3,
    };
    says(
        ListReader::Cube,
        &[
            (LayoutError::MissingLineWidth, "full_blocks.txt is missing its line width"),
            (LayoutError::MissingSlotCount, "full_blocks.txt is missing its slot count"),
            (line_width, "cannot parse integer from empty string"),
            (slot_count, "number too large to fit in target type"),
            (
                LayoutError::ZeroDimension,
                "full_blocks.txt has a zero line width or slot count",
            ),
            (listed, "full_blocks.txt slot count does not match its records"),
            (LayoutError::AtlasOverflow, "atlas width overflow"),
        ],
    );
    let header = [
        (LayoutError::MissingLineWidth, "full_blocks.txt is missing line width"),
        (LayoutError::MissingSlotCount, "full_blocks.txt is missing slot count"),
        (
            line_width,
            "cannot parse line width in full_blocks.txt: cannot parse integer from empty string",
        ),
        (
            slot_count,
            "cannot parse slot count in full_blocks.txt: number too large to fit in target type",
        ),
        (listed, "full_blocks.txt declares 4 slots but contains 3 entries"),
    ];
    says(ListReader::Bounce, &header);
    says(ListReader::Blocks, &header);
    says(
        ListReader::Bounce,
        &[
            (
                LayoutError::AtlasWidth(31),
                "full_blocks.txt line width 31 does not describe the 512px atlas",
            ),
            (LayoutError::MissingRow(2), "missing row in full_blocks.txt entry 2"),
            (LayoutError::MissingColumn(2), "missing column in full_blocks.txt entry 2"),
            (
                LayoutError::Row(2, NumberError::InvalidDigit),
                "invalid digit found in string",
            ),
            (
                LayoutError::Column(2, NumberError::InvalidDigit),
                "invalid digit found in string",
            ),
            (LayoutError::InvalidEntry(2), "invalid tile entry 2 in full_blocks.txt"),
        ],
    );
    says(
        ListReader::Blocks,
        &[
            (
                LayoutError::ZeroDimension,
                "full_blocks.txt must contain non-zero dimensions",
            ),
            (
                LayoutError::AtlasHeight(1_025),
                "full_blocks.txt has 1025 slots, exceeding the 512x512 atlas",
            ),
        ],
    );
}

#[test]
fn only_flowing_lava_is_flagged() {
    let still = lava_state(false);
    assert_eq!(still, vec![0; STATE_BYTES]);
    let flowing = lava_state(true);
    assert_eq!(flowing.len(), STATE_BYTES);
    for (offset, byte) in flowing.iter().enumerate() {
        assert_eq!(*byte, u8::from(offset == LAVA_FLOWING_OFFSET));
    }
}
