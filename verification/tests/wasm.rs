use minecraft_plus_wayland::wasm::{
    advance_observed_bucket, check_entropy_request, check_texture_upload,
    export_internal_function, import_behavior, read_uleb, water_state_fields, write_uleb,
    HostCallError, ImportBehavior, WasmError, WaterCapture, WaterError, GL_RGBA, GL_TEXTURE_2D,
    GL_UNSIGNED_BYTE, GRID_SIZE, PIXEL_BYTES,
};

const STEP_EXPORT: &str = "__minecraft_plus_lava_step";

#[test]
fn observed_buckets_step_once_without_catching_up() {
    let mut last_tick = None;
    let observed = [0, 0, 1, 10_000, 10_000, 75_000];
    let steps = observed
        .into_iter()
        .filter(|tick| advance_observed_bucket(&mut last_tick, *tick))
        .count();

    assert_eq!(steps, 4);
    assert_eq!(last_tick, Some(75_000));
}

/// A module with two functions, of which only the first is exported.
fn module() -> Vec<u8> {
    let mut wasm = b"\0asm\x01\0\0\0".to_vec();
    wasm.extend_from_slice(&[1, 5, 1, 0x60, 0, 1, 0x7f]);
    wasm.extend_from_slice(&[3, 3, 2, 0, 0]);
    wasm.extend_from_slice(&[7, 5, 1, 1, b'a', 0, 0]);
    wasm.extend_from_slice(&[10, 11, 2, 4, 0, 0x41, 7, 0x0b, 4, 0, 0x41, 9, 0x0b]);
    wasm
}

#[test]
fn internal_export_patch_preserves_the_original_and_adds_one_export() {
    let wasm = module();
    let patched = export_internal_function(&wasm, STEP_EXPORT, 1).unwrap();
    assert!(patched.len() > wasm.len());
    assert!(patched
        .windows(STEP_EXPORT.len())
        .any(|window| window == STEP_EXPORT.as_bytes()));

    let engine = wasmi::Engine::default();
    let before = wasmi::Module::new(&engine, &wasm[..]).unwrap();
    let after = wasmi::Module::new(&engine, &patched[..]).unwrap();
    assert_eq!(after.exports().count(), before.exports().count() + 1);
    let mut store = wasmi::Store::new(&engine, ());
    let instance = wasmi::Linker::<()>::new(&engine)
        .instantiate_and_start(&mut store, &after)
        .unwrap();
    let known = instance.get_typed_func::<(), i32>(&store, "a").unwrap();
    assert_eq!(known.call(&mut store, ()).unwrap(), 7);
    let added = instance.get_typed_func::<(), i32>(&store, STEP_EXPORT).unwrap();
    assert_eq!(added.call(&mut store, ()).unwrap(), 9);
}

#[test]
fn only_the_export_section_changes() {
    let patched = export_internal_function(&module(), "xy", 1).unwrap();
    let mut expected = b"\0asm\x01\0\0\0".to_vec();
    expected.extend_from_slice(&[1, 5, 1, 0x60, 0, 1, 0x7f]);
    expected.extend_from_slice(&[3, 3, 2, 0, 0]);
    expected.extend_from_slice(&[7, 10, 2, 1, b'a', 0, 0, 2, b'x', b'y', 0, 1]);
    expected.extend_from_slice(&[10, 11, 2, 4, 0, 0x41, 7, 0x0b, 4, 0, 0x41, 9, 0x0b]);
    assert_eq!(patched, expected);
}

#[test]
fn malformed_modules_are_refused() {
    let fault = |wasm: &[u8]| export_internal_function(wasm, "x", 0).unwrap_err();
    assert_eq!(fault(b"\0asm"), WasmError::InvalidHeader);
    assert_eq!(fault(b"\0asm\x01\0\0\0"), WasmError::NoExportSection);
    assert_eq!(fault(b"\0asm\x01\0\0\0\x01"), WasmError::TruncatedNumber);
    assert_eq!(fault(b"\0asm\x01\0\0\0\x01\x05\0"), WasmError::SectionBeyondFile);
    assert_eq!(
        fault(b"\0asm\x01\0\0\0\x01\xff\xff\xff\xff\xff\x01"),
        WasmError::NumberTooLarge
    );
    assert_eq!(
        fault(b"\0asm\x01\0\0\0\x07\x01\x80\x01"),
        WasmError::CountBeyondSection
    );
    assert_eq!(
        fault(b"\0asm\x01\0\0\0\x07\x05\xff\xff\xff\xff\x0f"),
        WasmError::TooManyExports
    );
}

#[test]
fn numbers_are_read_back() {
    for number in [0, 1, 127, 128, 16_383, 16_384, 2_097_152, u32::MAX] {
        let mut bytes = vec![0xee];
        write_uleb(&mut bytes, number);
        assert_eq!(read_uleb(&bytes, 1), Ok((number, bytes.len())));
    }
    assert_eq!(read_uleb(&[0x80], 0), Err(WasmError::TruncatedNumber));
}

#[test]
fn imports_are_told_apart_by_name() {
    assert_eq!(
        import_behavior("__wbg_texImage2D_1c4b87cd146e7590"),
        ImportBehavior::CaptureUpload
    );
    assert_eq!(
        import_behavior("__wbg_randomFillSync_1b52c8482374c55b"),
        ImportBehavior::FillEntropy
    );
    assert_eq!(import_behavior("__wbindgen_throw"), ImportBehavior::Stub);
}

#[test]
fn uploads_are_checked_before_memory_is_read() {
    let good = [0, GL_TEXTURE_2D, 0, GL_RGBA, 16, 16, 0, GL_RGBA, GL_UNSIGNED_BYTE, 64, 1_024]
        .map(Some);
    assert_eq!(check_texture_upload(&good, Some(4_096)), Ok(64));
    assert_eq!(
        check_texture_upload(&good, Some(1_087)),
        Err(HostCallError::BeyondMemory { start: 64, end: 1_088, size: 1_087 })
    );
    assert_eq!(check_texture_upload(&good, None), Err(HostCallError::NoMemory));
    assert_eq!(
        check_texture_upload(&good[..3], Some(4_096)),
        Err(HostCallError::ParameterCount { received: 3, wanted: 11 })
    );
    let mut wide = good;
    wide[4] = Some(17);
    assert_eq!(
        check_texture_upload(&wide, Some(4_096)),
        Err(HostCallError::InvalidParameter { index: 4, actual: 17, expected: 16 })
    );
    let mut typed = good;
    typed[9] = None;
    assert_eq!(
        check_texture_upload(&typed, Some(4_096)),
        Err(HostCallError::NotI32 { index: 9 })
    );
    assert_eq!(
        check_entropy_request(&[None, Some(8), Some(16)], Some(24)),
        Ok((8, 16))
    );
    assert_eq!(
        check_entropy_request(&[None, Some(-8), Some(16)], Some(24)),
        Err(HostCallError::NegativePointer)
    );
    assert_eq!(
        check_entropy_request(&[None, Some(8), Some(-1)], Some(24)),
        Err(HostCallError::NegativeLength)
    );
}

#[test]
fn water_rasters_are_kept_until_new_ones_come() {
    let mut capture = WaterCapture::new();
    assert_eq!(capture.settle(vec![]), Err(WaterError::NoInitialUploads));
    assert_eq!(capture.settle(vec![vec![1], vec![2]]), Ok(()));
    assert_eq!(capture.settle(vec![]), Ok(()));
    assert_eq!(capture.last_uploads, Some((vec![1], vec![2])));
    assert_eq!(
        capture.settle(vec![vec![3]]),
        Err(WaterError::UnexpectedUploads { count: 1 })
    );
    assert_eq!(capture.last_uploads, Some((vec![1], vec![2])));
    let fields = water_state_fields(77);
    assert_eq!(fields[0], (92, 77));
    assert_eq!(fields[1], (100, PIXEL_BYTES as i32));
    assert_eq!(fields[4], (112, GRID_SIZE as i32));
}
