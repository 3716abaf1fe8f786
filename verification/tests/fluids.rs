use minecraft_plus_wayland::modules::alpha_fluids::{
    answer_call, bind_all, bind_import, bind_imports, entropy, lava_next, load_fluid, load_module,
    step_export, step_function, water_next, GuestAction, GuestError, GuestEvent, HostAction,
    ImportError, LavaMemory, LavaPlan, WaterPlan, WATER_STATE_BYTES,
};
use minecraft_plus_wayland::modules::AlphaFluidVariant;
use minecraft_plus_wayland::wasm::{
    lava_state, write_uleb, HostCallError, ImportBehavior, WasmError, WaterCapture, WaterError,
    GL_RGBA, GL_TEXTURE_2D, GL_UNSIGNED_BYTE, PIXEL_BYTES, STATE_BYTES,
};
use wasmi::{Caller, Engine, Linker, Memory, Module, Store, TypedFunc, Val};

const UPLOAD: &str = "__wbg_texImage2D_1c4b87cd146e7590";
const RANDOM_VALUES: &str = "__wbg_getRandomValues_1ef11e888e5228e9";

fn section(module: &mut Vec<u8>, id: u8, payload: &[u8]) {
    module.push(id);
    write_uleb(module, payload.len() as u32);
    module.extend_from_slice(payload);
}

fn name(bytes: &mut Vec<u8>, name: &str) {
    write_uleb(bytes, name.len() as u32);
    bytes.extend_from_slice(name.as_bytes());
}

fn constant(code: &mut Vec<u8>, value: i32) {
    code.push(0x41);
    let mut value = value;
    loop {
        let byte = (value & 0x7f) as u8;
        value >>= 7;
        if (value == 0 && byte & 0x40 == 0) || (value == -1 && byte & 0x40 != 0) {
            code.push(byte);
            return;
        }
        code.push(byte | 0x80);
    }
}

/// Fills the raster at local 1 with the number of steps taken, and sixteen more where the state is
/// flagged.
fn lava_step() -> Vec<u8> {
    let mut code = vec![0];
    code.extend_from_slice(&[0x20, 0, 0x20, 0, 0x2d, 0, 0, 0x41, 1, 0x6a, 0x3a, 0, 0]);
    code.extend_from_slice(&[0x20, 1, 0x20, 0, 0x2d, 0, 0]);
    code.extend_from_slice(&[0x20, 0, 0x2d, 0, 0x84, 0x20, 0x41, 4, 0x74, 0x6a]);
    code.extend_from_slice(&[0x20, 2, 0xfc, 0x0b, 0, 0x0b]);
    code
}

/// Uploads two rasters, filled with the number of the tick and with a hundred more, and asks for
/// entropy. The third tick uploads nothing.
fn water_step() -> Vec<u8> {
    let mut code = vec![1, 1, 0x7f];
    code.extend_from_slice(&[0x20, 1, 0x44]);
    code.extend_from_slice(&20.0_f64.to_le_bytes());
    code.extend_from_slice(&[0xa2, 0x44]);
    code.extend_from_slice(&0.5_f64.to_le_bytes());
    code.extend_from_slice(&[0xa0, 0xaa, 0x22, 2, 0x41, 3, 0x46, 0x04, 0x40, 0x0f, 0x0b]);
    let field = |offset: u8| [0x20, 0, 0x28, 2, offset];
    for more in [0, 100] {
        code.extend_from_slice(&field(92));
        code.extend_from_slice(&[0x20, 2]);
        constant(&mut code, more);
        code.push(0x6a);
        code.extend_from_slice(&field(100));
        code.extend_from_slice(&[0xfc, 0x0b, 0]);
        constant(&mut code, 0);
        constant(&mut code, GL_TEXTURE_2D);
        constant(&mut code, 0);
        code.extend_from_slice(&field(104));
        code.extend_from_slice(&field(108));
        code.extend_from_slice(&field(112));
        constant(&mut code, 0);
        code.extend_from_slice(&field(104));
        constant(&mut code, GL_UNSIGNED_BYTE);
        code.extend_from_slice(&field(92));
        code.extend_from_slice(&field(100));
        code.extend_from_slice(&[0x10, 0]);
    }
    constant(&mut code, 0);
    code.extend_from_slice(&field(92));
    constant(&mut code, 16);
    code.extend_from_slice(&[0x10, 1, 0x0b]);
    code
}

/// A module that simulates both fluids, with its steps where they are looked for and not exported.
fn guest() -> Vec<u8> {
    let mut module = b"\0asm\x01\0\0\0".to_vec();
    let mut types = vec![5];
    types.extend_from_slice(&[0x60, 1, 0x7f, 1, 0x7f]);
    types.extend_from_slice(&[0x60, 3, 0x7f, 0x7f, 0x7f, 0]);
    types.extend_from_slice(&[0x60, 2, 0x7f, 0x7c, 0]);
    types.extend_from_slice(&[0x60, 11]);
    types.extend_from_slice(&[0x7f; 11]);
    types.extend_from_slice(&[0, 0x60, 0, 0]);
    section(&mut module, 1, &types);
    let mut imports = vec![3];
    for (import, ty) in [(UPLOAD, 3), (RANDOM_VALUES, 1), ("__wbindgen_other", 0)] {
        name(&mut imports, "wbg");
        name(&mut imports, import);
        imports.extend_from_slice(&[0, ty]);
    }
    section(&mut module, 2, &imports);
    let function = |index: u32| match index {
        3 => (0, vec![0, 0x23, 0, 0x23, 0, 0x20, 0, 0x6a, 0x24, 0, 0x0b]),
        116 => (2, water_step()),
        143 => (1, lava_step()),
        _ => (4, vec![0, 0x0b]),
    };
    let mut functions = Vec::new();
    let mut code = Vec::new();
    write_uleb(&mut functions, 147);
    write_uleb(&mut code, 147);
    for (ty, body) in (3..150).map(function) {
        functions.push(ty);
        write_uleb(&mut code, body.len() as u32);
        code.extend_from_slice(&body);
    }
    section(&mut module, 3, &functions);
    section(&mut module, 5, &[1, 0, 2]);
    section(&mut module, 6, &[1, 0x7f, 1, 0x41, 0x80, 0x08, 0x0b]);
    let mut exports = vec![2];
    name(&mut exports, "memory");
    exports.extend_from_slice(&[2, 0]);
    name(&mut exports, "__wbindgen_malloc");
    exports.extend_from_slice(&[0, 3]);
    section(&mut module, 7, &exports);
    section(&mut module, 10, &code);
    module
}

#[derive(Default)]
struct Host {
    uploads: Vec<Vec<u8>>,
    fixed_entropy: Option<u8>,
    entropy_writes: Vec<(usize, Vec<u8>)>,
}

fn answer(caller: &mut Caller<'_, Host>, params: &[Val], behavior: ImportBehavior) {
    let params = params.iter().map(Val::i32).collect::<Vec<_>>();
    let memory = caller.get_export("memory").and_then(|export| export.into_memory()).unwrap();
    let size = memory.data_size(&*caller);
    match answer_call(behavior, &params, Some(size)).unwrap() {
        HostAction::Nothing => {}
        HostAction::Capture { pointer } => {
            let mut upload = vec![0; PIXEL_BYTES];
            memory.read(&*caller, pointer, &mut upload).unwrap();
            caller.data_mut().uploads.push(upload);
        }
        HostAction::Fill { pointer, length } => {
            let bytes = match caller.data().fixed_entropy {
                Some(byte) => vec![byte; length],
                None => entropy(length),
            };
            memory.write(&mut *caller, pointer, &bytes).unwrap();
            caller.data_mut().entropy_writes.push((pointer, bytes));
        }
    }
}

struct Running {
    store: Store<Host>,
    memory: Memory,
    malloc: TypedFunc<i32, i32>,
    instance: wasmi::Instance,
}

impl Running {
    fn new(variant: AlphaFluidVariant, host: Host) -> Self {
        let engine = Engine::default();
        let module = load_fluid(&engine, &guest(), variant).unwrap();
        let mut linker = Linker::<Host>::new(&engine);
        for (import, behavior) in module.imports().zip(bind_imports(&module).unwrap()) {
            let ty = import.ty().func().unwrap().clone();
            let results = ty.results().to_vec();
            linker
                .func_new(import.module(), import.name(), ty, move |mut caller, params, filled| {
                    answer(&mut caller, params, behavior);
                    for (result, value_type) in filled.iter_mut().zip(&results) {
                        *result = Val::default(*value_type);
                    }
                    Ok(())
                })
                .unwrap();
        }
        let mut store = Store::new(&engine, host);
        let instance = linker.instantiate_and_start(&mut store, &module).unwrap();
        let memory = instance.get_memory(&store, "memory").unwrap();
        let malloc = instance.get_typed_func(&store, "__wbindgen_malloc").unwrap();
        Running { store, memory, malloc, instance }
    }

    /// Performs one action and says what came of it, or `None` where there is nothing to do.
    fn perform(&mut self, action: &GuestAction) -> Option<GuestEvent> {
        Some(match action {
            GuestAction::Allocate { size } => {
                GuestEvent::Allocated(self.malloc.call(&mut self.store, *size as i32).unwrap())
            }
            GuestAction::Write { pointer, offset, bytes } => {
                let start = *pointer as usize + offset;
                self.memory.write(&mut self.store, start, bytes).unwrap();
                GuestEvent::Done
            }
            GuestAction::Read { pointer, size } => {
                let mut bytes = vec![0; *size];
                self.memory.read(&self.store, *pointer as usize, &mut bytes).unwrap();
                GuestEvent::Bytes(bytes)
            }
            GuestAction::StepLava { state, pixels, length } => {
                let step = self
                    .instance
                    .get_typed_func::<(i32, i32, i32), ()>(
                        &self.store,
                        step_export(AlphaFluidVariant::Lava),
                    )
                    .unwrap();
                step.call(&mut self.store, (*state, *pixels, *length)).unwrap();
                GuestEvent::Done
            }
            GuestAction::ForgetUploads => {
                self.store.data_mut().uploads.clear();
                GuestEvent::Done
            }
            GuestAction::StepWater { state, tick } => {
                let step = self
                    .instance
                    .get_typed_func::<(i32, f64), ()>(
                        &self.store,
                        step_export(AlphaFluidVariant::Water),
                    )
                    .unwrap();
                step.call(&mut self.store, (*state, *tick as f64 * 0.05)).unwrap();
                GuestEvent::Uploads(self.store.data().uploads.clone())
            }
            GuestAction::Show { .. } | GuestAction::Wait | GuestAction::Fail(_) => return None,
        })
    }

    fn lava(&mut self, plan: LavaPlan, event: GuestEvent) -> (LavaPlan, GuestAction) {
        let (mut plan, mut action) = lava_next(plan, event);
        while let Some(event) = self.perform(&action) {
            (plan, action) = lava_next(plan, event);
        }
        (plan, action)
    }

    fn water(&mut self, plan: WaterPlan, event: GuestEvent) -> (WaterPlan, GuestAction) {
        let (mut plan, mut action) = water_next(plan, event);
        while let Some(event) = self.perform(&action) {
            (plan, action) = water_next(plan, event);
        }
        (plan, action)
    }
}

fn started_water(host: Host) -> (Running, WaterPlan) {
    let mut running = Running::new(AlphaFluidVariant::Water, host);
    let first = running.perform(&WaterPlan::AllocatingState.asks()).unwrap();
    let (plan, action) = running.water(WaterPlan::AllocatingState, first);
    assert_eq!(action, GuestAction::Wait);
    (running, plan)
}

#[test]
fn lava_rasters_come_from_a_running_module() {
    let mut running = Running::new(AlphaFluidVariant::Lava, Host::default());
    let first = running.perform(&LavaPlan::AllocatingStill.asks()).unwrap();
    let (plan, action) = running.lava(LavaPlan::AllocatingStill, first);
    assert_eq!(action, GuestAction::Wait);
    let memory = LavaMemory {
        still_state: 1_024,
        flowing_state: 1_024 + 4_104,
        still_pixels: 1_024 + 2 * 4_104,
        flowing_pixels: 2 * 1_024 + 2 * 4_104,
    };
    assert_eq!(plan, LavaPlan::Resting(memory));
    let mut state = vec![0; STATE_BYTES];
    running.memory.read(&running.store, 1_024 + 4_104, &mut state).unwrap();
    assert_eq!(state, lava_state(true));

    let (plan, action) = running.lava(plan, GuestEvent::Tick);
    let still = vec![1; PIXEL_BYTES];
    let flowing = vec![17; PIXEL_BYTES];
    assert_eq!(action, GuestAction::Show { still, flowing });
    let (_, action) = running.lava(plan, GuestEvent::Tick);
    let still = vec![2; PIXEL_BYTES];
    let flowing = vec![18; PIXEL_BYTES];
    assert_eq!(action, GuestAction::Show { still, flowing });
}

#[test]
fn water_rasters_are_captured_from_a_running_module() {
    let (mut running, mut plan) = started_water(Host::default());
    // The third tick uploads nothing, so the rasters of the second are shown again.
    for (still, flowing) in [(1, 101), (2, 102), (2, 102), (4, 104)] {
        let (next, action) = running.water(plan, GuestEvent::Tick);
        plan = next;
        let still = vec![still; PIXEL_BYTES];
        let flowing = vec![flowing; PIXEL_BYTES];
        assert_eq!(action, GuestAction::Show { still, flowing });
    }
    assert!(matches!(plan, WaterPlan::Resting { ticks: 4, .. }));
}

#[test]
fn wasm_entropy_import_writes_injected_nonzero_bytes() {
    let host = Host {
        fixed_entropy: Some(0xa5),
        ..Host::default()
    };
    let (mut running, plan) = started_water(host);
    running.water(plan, GuestEvent::Tick);

    let writes = &running.store.data().entropy_writes;
    assert!(!writes.is_empty());
    assert!(writes
        .iter()
        .all(|(_, bytes)| !bytes.is_empty() && bytes.iter().all(|byte| *byte == 0xa5)));
}

#[test]
fn entropy_has_the_length_that_was_asked_for() {
    assert_eq!(entropy(0), vec![]);
    assert_eq!(entropy(64).len(), 64);
    assert_ne!(entropy(64), vec![0; 64]);
}

#[test]
fn a_loaded_module_has_one_more_export() {
    let engine = Engine::default();
    let before = Module::new(&engine, &guest()[..]).unwrap();
    let after = load_module(&engine, &guest(), "step", 143).unwrap();
    let names = |module: &Module| {
        module.exports().map(|export| export.name().to_owned()).collect::<Vec<_>>()
    };
    let mut expected = names(&before);
    expected.push("step".to_owned());
    assert_eq!(names(&after), expected);
    assert_eq!(step_export(AlphaFluidVariant::Water), "__minecraft_plus_water_step");
    assert_eq!(step_export(AlphaFluidVariant::Lava), "__minecraft_plus_lava_step");
    assert_eq!(step_function(AlphaFluidVariant::Water), 116);
    assert_eq!(step_function(AlphaFluidVariant::Lava), 143);
}

#[test]
fn modules_that_cannot_run_are_refused() {
    let engine = Engine::default();
    assert!(matches!(
        load_module(&engine, b"\0asm\x01\0\0\0", "step", 0),
        Err(GuestError::Patch(WasmError::NoExportSection))
    ));
    assert!(matches!(
        load_module(&engine, &guest(), "step", 150),
        Err(GuestError::Refused(_))
    ));
    assert!(matches!(
        load_module(&engine, &guest(), "memory", 143),
        Err(GuestError::Refused(_))
    ));
}

#[test]
fn only_functions_are_bound() {
    assert_eq!(bind_import(UPLOAD, true), Ok(ImportBehavior::CaptureUpload));
    assert_eq!(bind_import(UPLOAD, false), Err(ImportError::NotAFunction));
    let engine = Engine::default();
    let module = Module::new(&engine, &guest()[..]).unwrap();
    let behaviors = vec![
        ImportBehavior::CaptureUpload,
        ImportBehavior::FillEntropy,
        ImportBehavior::Stub,
    ];
    assert_eq!(bind_imports(&module), Ok(behaviors));

    let mut with_memory = b"\0asm\x01\0\0\0".to_vec();
    section(&mut with_memory, 1, &[1, 0x60, 0, 0]);
    let mut imports = vec![2];
    for (import, description) in [("f", &[0, 0][..]), ("m", &[2, 0, 1][..])] {
        name(&mut imports, "env");
        name(&mut imports, import);
        imports.extend_from_slice(description);
    }
    section(&mut with_memory, 2, &imports);
    let module = Module::new(&engine, &with_memory[..]).unwrap();
    assert_eq!(bind_imports(&module), Err((1, ImportError::NotAFunction)));
    assert_eq!(
        ImportError::NotAFunction.message("env", "m"),
        "unexpected non-function Web import env::m"
    );
    assert_eq!(bind_all(&vec![]), Ok(vec![]));
}

#[test]
fn calls_are_answered_within_the_memory() {
    let upload = [0, GL_TEXTURE_2D, 0, GL_RGBA, 16, 16, 0, GL_RGBA, GL_UNSIGNED_BYTE, 64, 1_024]
        .map(Some);
    assert_eq!(
        answer_call(ImportBehavior::CaptureUpload, &upload, Some(4_096)),
        Ok(HostAction::Capture { pointer: 64 })
    );
    assert_eq!(
        answer_call(ImportBehavior::CaptureUpload, &upload, None),
        Err(HostCallError::NoMemory)
    );
    let request = [None, Some(8), Some(16)];
    assert_eq!(
        answer_call(ImportBehavior::FillEntropy, &request, Some(24)),
        Ok(HostAction::Fill { pointer: 8, length: 16 })
    );
    assert_eq!(
        answer_call(ImportBehavior::FillEntropy, &request, Some(23)),
        Err(HostCallError::BeyondMemory { start: 8, end: 24, size: 23 })
    );
    assert_eq!(
        answer_call(ImportBehavior::Stub, &request, None),
        Ok(HostAction::Nothing)
    );
}

#[test]
fn the_lava_is_set_up_and_stepped_in_order() {
    let mut plan = LavaPlan::AllocatingStill;
    let mut asked = vec![plan.asks()];
    let events = [
        GuestEvent::Allocated(1),
        GuestEvent::Allocated(2),
        GuestEvent::Allocated(3),
        GuestEvent::Allocated(4),
        GuestEvent::Done,
        GuestEvent::Done,
        GuestEvent::Tick,
        GuestEvent::Done,
        GuestEvent::Done,
        GuestEvent::Bytes(vec![5]),
        GuestEvent::Bytes(vec![6]),
    ];
    for event in events {
        let (next, action) = lava_next(plan, event);
        plan = next;
        asked.push(action);
    }
    let write = |pointer: i32, bytes: Vec<u8>| GuestAction::Write { pointer, offset: 0, bytes };
    let step = |state: i32, pixels: i32| GuestAction::StepLava { state, pixels, length: 1_024 };
    assert_eq!(
        asked,
        vec![
            GuestAction::Allocate { size: 4_104 },
            GuestAction::Allocate { size: 4_104 },
            GuestAction::Allocate { size: 1_024 },
            GuestAction::Allocate { size: 1_024 },
            write(1, lava_state(false)),
            write(2, lava_state(true)),
            GuestAction::Wait,
            step(1, 3),
            step(2, 4),
            GuestAction::Read { pointer: 3, size: 1_024 },
            GuestAction::Read { pointer: 4, size: 1_024 },
            GuestAction::Show { still: vec![5], flowing: vec![6] },
        ]
    );
    let (unmoved, action) = lava_next(LavaPlan::AllocatingStill, GuestEvent::Done);
    assert_eq!(unmoved, LavaPlan::AllocatingStill);
    assert_eq!(action, GuestAction::Allocate { size: 4_104 });
}

#[test]
fn the_water_is_set_up_and_stepped_in_order() {
    let mut plan = WaterPlan::AllocatingState;
    let mut asked = vec![plan.asks()];
    let events = [
        GuestEvent::Allocated(1_000),
        GuestEvent::Allocated(2_000),
        GuestEvent::Done,
        GuestEvent::Done,
        GuestEvent::Done,
        GuestEvent::Done,
        GuestEvent::Done,
        GuestEvent::Done,
        GuestEvent::Tick,
        GuestEvent::Done,
        GuestEvent::Uploads(vec![vec![1], vec![2]]),
        GuestEvent::Tick,
        GuestEvent::Done,
        GuestEvent::Uploads(vec![]),
        GuestEvent::Tick,
        GuestEvent::Done,
        GuestEvent::Uploads(vec![vec![3]]),
    ];
    for event in events {
        let (next, action) = water_next(plan, event);
        plan = next;
        asked.push(action);
    }
    let field = |offset: usize, value: i32| GuestAction::Write {
        pointer: 1_000,
        offset,
        bytes: value.to_le_bytes().to_vec(),
    };
    let step = |tick: u64| GuestAction::StepWater { state: 1_000, tick };
    let show = || GuestAction::Show { still: vec![1], flowing: vec![2] };
    assert_eq!(
        asked,
        vec![
            GuestAction::Allocate { size: 8_400 },
            GuestAction::Allocate { size: 1_024 },
            GuestAction::Write { pointer: 1_000, offset: 0, bytes: vec![0; WATER_STATE_BYTES] },
            field(92, 2_000),
            field(100, 1_024),
            field(104, 6_408),
            field(108, 16),
            field(112, 16),
            GuestAction::Wait,
            GuestAction::ForgetUploads,
            step(1),
            show(),
            GuestAction::ForgetUploads,
            step(2),
            show(),
            GuestAction::ForgetUploads,
            step(3),
            GuestAction::Fail(WaterError::UnexpectedUploads { count: 1 }),
        ]
    );
    let fresh = WaterPlan::Stepping { state: 1, ticks: 1, capture: WaterCapture::new() };
    let (_, action) = water_next(fresh, GuestEvent::Uploads(vec![]));
    assert_eq!(action, GuestAction::Fail(WaterError::NoInitialUploads));
}
