//! The fluids: the WebAssembly module that simulates them, what it may import, and the order in
//! which it is set up and stepped.

use vstd::prelude::*;
use vstd::slice::slice_to_vec;
use vstd::string::StringExecFns;
use vstd::utf8;

use crate::bytes;
use crate::modules::AlphaFluidVariant;
use crate::random;
use crate::wasm;
use crate::wasm::{
    check_entropy_request, check_texture_upload, export_internal_function, import_behavior,
    lava_state, water_state_fields, HostCallError, ImportBehavior, WasmError, WaterCapture,
    WaterError, PIXEL_BYTES, STATE_BYTES,
};

verus! {

/// How many bytes the state of the water simulation takes.
pub const WATER_STATE_BYTES: usize = 8_400;

#[verifier::external_type_specification]
#[verifier::external_body]
pub struct ExEngine(wasmi::Engine);

#[verifier::external_type_specification]
#[verifier::external_body]
pub struct ExModule(wasmi::Module);

#[verifier::external_type_specification]
#[verifier::external_body]
pub struct ExWasmiError(wasmi::Error);

/// Whether an engine, by its settings, makes a module of these bytes.
pub uninterp spec fn is_module(engine: wasmi::Engine, code: Seq<u8>) -> bool;

/// The bytes that a module was made of.
pub uninterp spec fn module_code(module: wasmi::Module) -> Seq<u8>;

/// The imports of a module that was made of these bytes, in their order: the name of each, and
/// whether it is a function.
pub uninterp spec fn imports_in(code: Seq<u8>) -> Seq<(Seq<char>, bool)>;

/// Calls `wasmi::Module::new`, which parses, validates and translates the bytes. Whether it
/// succeeds depends on the settings of the engine and on the bytes alone.
#[verifier::external_body]
fn compile(engine: &wasmi::Engine, code: &[u8]) -> (module: Result<wasmi::Module, wasmi::Error>)
    ensures
        module is Ok == is_module(*engine, code@),
        module matches Ok(module) ==> module_code(module) == code@,
{
    wasmi::Module::new(engine, code)
}

/// Calls `wasmi::Module::imports` and reads `name` and `ty` of every import. They stand in the
/// order and with the names that the bytes of the module give them.
#[verifier::external_body]
fn list_imports(module: &wasmi::Module) -> (imports: Vec<(String, bool)>)
    ensures
        imports@.map_values(|import: (String, bool)| (import.0@, import.1)) == imports_in(
            module_code(*module),
        ),
{
    module.imports().map(|i| (i.name().to_owned(), i.ty().func().is_some())).collect()
}

/// Why there is no module to run.
#[derive(Debug)]
pub enum GuestError {
    /// The export cannot be added.
    Patch(WasmError),
    /// The engine refuses the module.
    Refused(wasmi::Error),
}

/// What making a module of these bytes, with an export added, comes to.
pub open spec fn loads(
    engine: wasmi::Engine,
    code: Seq<u8>,
    export: Seq<u8>,
    function: u32,
    module: Result<wasmi::Module, GuestError>,
) -> bool {
    let patched = wasm::with_export(code, export, function);
    match module {
        Ok(module) => {
            &&& patched == Ok::<Seq<u8>, WasmError>(module_code(module))
            &&& is_module(engine, module_code(module))
        },
        Err(GuestError::Patch(error)) => patched == Err::<Seq<u8>, WasmError>(error),
        Err(GuestError::Refused(_)) => {
            patched matches Ok(patched) && !is_module(engine, patched)
        },
    }
}

/// Makes a module of the bytes, with an export added for one of its own functions. What runs is
/// the module as it stands in the bytes, with that one export and nothing else changed.
pub fn load_module(engine: &wasmi::Engine, code: &[u8], export: &str, function: u32) -> (module:
    Result<wasmi::Module, GuestError>)
    ensures
        loads(*engine, code@, utf8::encode_utf8(export@), function, module),
{
    match export_internal_function(code, export, function) {
        Err(error) => Err(GuestError::Patch(error)),
        Ok(patched) => match compile(engine, patched.as_slice()) {
            Ok(module) => Ok(module),
            Err(error) => Err(GuestError::Refused(error)),
        },
    }
}

/// The export under which a fluid's step is called.
pub fn step_export(variant: AlphaFluidVariant) -> (export: &'static str)
    ensures
        export@ == match variant {
            AlphaFluidVariant::Water => "__minecraft_plus_water_step"@,
            AlphaFluidVariant::Lava => "__minecraft_plus_lava_step"@,
        },
{
    match variant {
        AlphaFluidVariant::Water => "__minecraft_plus_water_step",
        AlphaFluidVariant::Lava => "__minecraft_plus_lava_step",
    }
}

/// The number of the function that steps a fluid.
pub fn step_function(variant: AlphaFluidVariant) -> (function: u32)
    ensures
        function == match variant {
            AlphaFluidVariant::Water => 116u32,
            AlphaFluidVariant::Lava => 143u32,
        },
{
    match variant {
        AlphaFluidVariant::Water => 116,
        AlphaFluidVariant::Lava => 143,
    }
}

/// Makes the module that steps a fluid.
pub fn load_fluid(engine: &wasmi::Engine, code: &[u8], variant: AlphaFluidVariant) -> (module:
    Result<wasmi::Module, GuestError>)
    ensures
        match variant {
            AlphaFluidVariant::Water => loads(
                *engine,
                code@,
                utf8::encode_utf8("__minecraft_plus_water_step"@),
                116,
                module,
            ),
            AlphaFluidVariant::Lava => loads(
                *engine,
                code@,
                utf8::encode_utf8("__minecraft_plus_lava_step"@),
                143,
                module,
            ),
        },
{
    load_module(engine, code, step_export(variant), step_function(variant))
}

/// Why an import cannot be bound.
#[derive(Clone, Copy, Debug, PartialEq, Eq, Structural)]
pub enum ImportError {
    NotAFunction,
}

/// What is said of an import of a module that cannot be bound.
pub open spec fn import_text(module: Seq<char>, name: Seq<char>) -> Seq<char> {
    "unexpected non-function Web import "@ + module + "::"@ + name
}

impl ImportError {
    /// What is said of the error.
    pub fn message(self, module: &str, name: &str) -> (message: String)
        ensures
            message@ == import_text(module@, name@),
    {
        let mut message = "unexpected non-function Web import ".to_owned();
        message.append(module);
        message.append("::");
        message.append(name);
        message
    }
}

/// Decides what an import is bound to. Only functions can be bound.
pub fn bind_import(name: &str, is_function: bool) -> (bound: Result<ImportBehavior, ImportError>)
    ensures
        bound == if is_function {
            Ok(wasm::behavior_of(name@))
        } else {
            Err(ImportError::NotAFunction)
        },
{
    if is_function {
        Ok(import_behavior(name))
    } else {
        Err(ImportError::NotAFunction)
    }
}

/// What binding these imports comes to: what each is bound to, in their order, or the first that
/// cannot be bound.
pub open spec fn binds(
    imports: Seq<(Seq<char>, bool)>,
    bound: Result<Seq<ImportBehavior>, (usize, ImportError)>,
) -> bool {
    match bound {
        Ok(behaviors) => {
            &&& forall|i: int| 0 <= i < imports.len() ==> (#[trigger] imports[i]).1
            &&& behaviors == imports.map_values(
                |import: (Seq<char>, bool)| wasm::behavior_of(import.0),
            )
        },
        Err((index, error)) => {
            &&& index < imports.len()
            &&& !imports[index as int].1
            &&& forall|i: int| 0 <= i < index ==> (#[trigger] imports[i]).1
            &&& error == ImportError::NotAFunction
        },
    }
}

/// Decides what every import is bound to, in their order. The first one that is no function is
/// refused, by its place.
pub fn bind_all(imports: &Vec<(String, bool)>) -> (bound: Result<
    Vec<ImportBehavior>,
    (usize, ImportError),
>)
    ensures
        binds(
            imports@.map_values(|import: (String, bool)| (import.0@, import.1)),
            match bound {
                Ok(behaviors) => Ok(behaviors@),
                Err(fault) => Err(fault),
            },
        ),
{
    let ghost named = imports@.map_values(|import: (String, bool)| (import.0@, import.1));
    assert(named.len() == imports@.len());
    let mut behaviors: Vec<ImportBehavior> = Vec::new();
    let mut index: usize = 0;
    while index < imports.len()
        invariant
            index <= imports@.len() == named.len(),
            named == imports@.map_values(|import: (String, bool)| (import.0@, import.1)),
            behaviors@.len() == index,
            forall|i: int| 0 <= i < index ==> (#[trigger] named[i]).1,
            forall|i: int|
                0 <= i < index ==> #[trigger] behaviors@[i] == wasm::behavior_of(named[i].0),
        decreases imports@.len() - index,
    {
        let (name, is_function) = &imports[index];
        assert(named[index as int] == (name@, *is_function));
        match bind_import(name.as_str(), *is_function) {
            Ok(behavior) => behaviors.push(behavior),
            Err(error) => return Err((index, error)),
        }
        index = index + 1;
    }
    assert(behaviors@ == named.map_values(
        |import: (Seq<char>, bool)| wasm::behavior_of(import.0),
    ));
    Ok(behaviors)
}

/// Decides what the imports of a module are bound to.
pub fn bind_imports(module: &wasmi::Module) -> (bound: Result<
    Vec<ImportBehavior>,
    (usize, ImportError),
>)
    ensures
        binds(
            imports_in(module_code(*module)),
            match bound {
                Ok(behaviors) => Ok(behaviors@),
                Err(fault) => Err(fault),
            },
        ),
{
    bind_all(&list_imports(module))
}

/// What the host owes a call of the module.
#[derive(Clone, Copy, Debug, PartialEq, Eq, Structural)]
pub enum HostAction {
    Nothing,
    /// Keep the raster that stands here as the next upload.
    Capture { pointer: usize },
    /// Fill this memory with entropy.
    Fill { pointer: usize, length: usize },
}

/// What a call of an import comes to.
pub open spec fn host_answer(
    behavior: ImportBehavior,
    params: Seq<Option<i32>>,
    memory_size: Option<usize>,
) -> Result<HostAction, HostCallError> {
    match behavior {
        ImportBehavior::Stub => Ok(HostAction::Nothing),
        ImportBehavior::CaptureUpload => match wasm::texture_upload(params, memory_size) {
            Ok(pointer) => Ok(HostAction::Capture { pointer }),
            Err(error) => Err(error),
        },
        ImportBehavior::FillEntropy => match wasm::entropy_request(params, memory_size) {
            Ok((pointer, length)) => Ok(HostAction::Fill { pointer, length }),
            Err(error) => Err(error),
        },
    }
}

/// Decides what the host does for a call of an import. What it does lies within the memory.
pub fn answer_call(
    behavior: ImportBehavior,
    params: &[Option<i32>],
    memory_size: Option<usize>,
) -> (answer: Result<HostAction, HostCallError>)
    ensures
        answer == host_answer(behavior, params@, memory_size),
        answer matches Ok(HostAction::Capture { pointer }) ==> memory_size is Some && pointer
            + PIXEL_BYTES <= memory_size->0,
        answer matches Ok(HostAction::Fill { pointer, length }) ==> memory_size is Some && pointer
            + length <= memory_size->0,
{
    match behavior {
        ImportBehavior::Stub => Ok(HostAction::Nothing),
        ImportBehavior::CaptureUpload => match check_texture_upload(params, memory_size) {
            Ok(pointer) => Ok(HostAction::Capture { pointer }),
            Err(error) => Err(error),
        },
        ImportBehavior::FillEntropy => match check_entropy_request(params, memory_size) {
            Ok((pointer, length)) => Ok(HostAction::Fill { pointer, length }),
            Err(error) => Err(error),
        },
    }
}

/// As many random bytes as a module asks for.
pub fn entropy(length: usize) -> (bytes: Vec<u8>)
    ensures
        bytes@.len() == length,
{
    let mut bytes: Vec<u8> = vec![0u8; length];
    random::fill(&mut bytes);
    bytes
}

/// What a plan asks to be done with the module. Pointers are the module's own.
#[derive(Debug, PartialEq, Eq)]
pub enum GuestAction {
    /// Ask the module's allocator for memory.
    Allocate { size: usize },
    /// Write at an offset from a pointer.
    Write { pointer: i32, offset: usize, bytes: Vec<u8> },
    /// Call the lava step.
    StepLava { state: i32, pixels: i32, length: i32 },
    /// Forget every upload that was captured so far.
    ForgetUploads,
    /// Call the water step at the time of a tick.
    StepWater { state: i32, tick: u64 },
    /// Read memory.
    Read { pointer: i32, size: usize },
    /// Show the two rasters.
    Show { still: Vec<u8>, flowing: Vec<u8> },
    /// Do nothing before the next tick.
    Wait,
    /// Give up.
    Fail(WaterError),
}

/// What came of the last action, or that a tick has come.
#[derive(Debug, PartialEq, Eq)]
pub enum GuestEvent {
    Tick,
    Allocated(i32),
    /// A write, a step of the lava or a forgetting is done.
    Done,
    /// The bytes that were read.
    Bytes(Vec<u8>),
    /// The uploads that a step of the water made, in their order.
    Uploads(Vec<Vec<u8>>),
}

pub enum ActionView {
    Allocate { size: usize },
    Write { pointer: i32, offset: usize, bytes: Seq<u8> },
    StepLava { state: i32, pixels: i32, length: i32 },
    ForgetUploads,
    StepWater { state: i32, tick: u64 },
    Read { pointer: i32, size: usize },
    Show { still: Seq<u8>, flowing: Seq<u8> },
    Wait,
    Fail(WaterError),
}

pub enum EventView {
    Tick,
    Allocated(i32),
    Done,
    Bytes(Seq<u8>),
    Uploads(Seq<Seq<u8>>),
}

impl View for GuestAction {
    type V = ActionView;

    open spec fn view(&self) -> ActionView {
        match self {
            GuestAction::Allocate { size } => ActionView::Allocate { size: *size },
            GuestAction::Write { pointer, offset, bytes } => ActionView::Write {
                pointer: *pointer,
                offset: *offset,
                bytes: bytes@,
            },
            GuestAction::StepLava { state, pixels, length } => ActionView::StepLava {
                state: *state,
                pixels: *pixels,
                length: *length,
            },
            GuestAction::ForgetUploads => ActionView::ForgetUploads,
            GuestAction::StepWater { state, tick } => ActionView::StepWater {
                state: *state,
                tick: *tick,
            },
            GuestAction::Read { pointer, size } => ActionView::Read {
                pointer: *pointer,
                size: *size,
            },
            GuestAction::Show { still, flowing } => ActionView::Show {
                still: still@,
                flowing: flowing@,
            },
            GuestAction::Wait => ActionView::Wait,
            GuestAction::Fail(error) => ActionView::Fail(*error),
        }
    }
}

impl View for GuestEvent {
    type V = EventView;

    open spec fn view(&self) -> EventView {
        match self {
            GuestEvent::Tick => EventView::Tick,
            GuestEvent::Allocated(pointer) => EventView::Allocated(*pointer),
            GuestEvent::Done => EventView::Done,
            GuestEvent::Bytes(bytes) => EventView::Bytes(bytes@),
            GuestEvent::Uploads(uploads) => EventView::Uploads(
                uploads@.map_values(|upload: Vec<u8>| upload@),
            ),
        }
    }
}

/// Where the lava simulation keeps its two states and its two rasters.
#[derive(Clone, Copy, Debug, PartialEq, Eq, Structural)]
pub struct LavaMemory {
    pub still_state: i32,
    pub flowing_state: i32,
    pub still_pixels: i32,
    pub flowing_pixels: i32,
}

/// How far the lava has come.
#[derive(Debug, PartialEq, Eq)]
pub enum LavaPlan {
    AllocatingStill,
    AllocatingFlowing { still_state: i32 },
    AllocatingStillPixels { still_state: i32, flowing_state: i32 },
    AllocatingFlowingPixels { still_state: i32, flowing_state: i32, still_pixels: i32 },
    WritingStill(LavaMemory),
    WritingFlowing(LavaMemory),
    Resting(LavaMemory),
    SteppingStill(LavaMemory),
    SteppingFlowing(LavaMemory),
    ReadingStill(LavaMemory),
    ReadingFlowing { memory: LavaMemory, still: Vec<u8> },
}

pub enum LavaView {
    AllocatingStill,
    AllocatingFlowing { still_state: i32 },
    AllocatingStillPixels { still_state: i32, flowing_state: i32 },
    AllocatingFlowingPixels { still_state: i32, flowing_state: i32, still_pixels: i32 },
    WritingStill(LavaMemory),
    WritingFlowing(LavaMemory),
    Resting(LavaMemory),
    SteppingStill(LavaMemory),
    SteppingFlowing(LavaMemory),
    ReadingStill(LavaMemory),
    ReadingFlowing { memory: LavaMemory, still: Seq<u8> },
}

impl View for LavaPlan {
    type V = LavaView;

    open spec fn view(&self) -> LavaView {
        match self {
            LavaPlan::AllocatingStill => LavaView::AllocatingStill,
            LavaPlan::AllocatingFlowing { still_state } => LavaView::AllocatingFlowing {
                still_state: *still_state,
            },
            LavaPlan::AllocatingStillPixels { still_state, flowing_state } => {
                LavaView::AllocatingStillPixels {
                    still_state: *still_state,
                    flowing_state: *flowing_state,
                }
            },
            LavaPlan::AllocatingFlowingPixels { still_state, flowing_state, still_pixels } => {
                LavaView::AllocatingFlowingPixels {
                    still_state: *still_state,
                    flowing_state: *flowing_state,
                    still_pixels: *still_pixels,
                }
            },
            LavaPlan::WritingStill(memory) => LavaView::WritingStill(*memory),
            LavaPlan::WritingFlowing(memory) => LavaView::WritingFlowing(*memory),
            LavaPlan::Resting(memory) => LavaView::Resting(*memory),
            LavaPlan::SteppingStill(memory) => LavaView::SteppingStill(*memory),
            LavaPlan::SteppingFlowing(memory) => LavaView::SteppingFlowing(*memory),
            LavaPlan::ReadingStill(memory) => LavaView::ReadingStill(*memory),
            LavaPlan::ReadingFlowing { memory, still } => LavaView::ReadingFlowing {
                memory: *memory,
                still: still@,
            },
        }
    }
}

/// What a plan of the lava waits for to be done.
pub open spec fn lava_asks(plan: LavaView) -> ActionView {
    match plan {
        LavaView::AllocatingStill | LavaView::AllocatingFlowing { .. } => ActionView::Allocate {
            size: STATE_BYTES,
        },
        LavaView::AllocatingStillPixels { .. } | LavaView::AllocatingFlowingPixels { .. } => {
            ActionView::Allocate { size: PIXEL_BYTES }
        },
        LavaView::WritingStill(memory) => ActionView::Write {
            pointer: memory.still_state,
            offset: 0,
            bytes: wasm::first_lava_state(false),
        },
        LavaView::WritingFlowing(memory) => ActionView::Write {
            pointer: memory.flowing_state,
            offset: 0,
            bytes: wasm::first_lava_state(true),
        },
        LavaView::Resting(_) => ActionView::Wait,
        LavaView::SteppingStill(memory) => ActionView::StepLava {
            state: memory.still_state,
            pixels: memory.still_pixels,
            length: PIXEL_BYTES as i32,
        },
        LavaView::SteppingFlowing(memory) => ActionView::StepLava {
            state: memory.flowing_state,
            pixels: memory.flowing_pixels,
            length: PIXEL_BYTES as i32,
        },
        LavaView::ReadingStill(memory) => ActionView::Read {
            pointer: memory.still_pixels,
            size: PIXEL_BYTES,
        },
        LavaView::ReadingFlowing { memory, .. } => ActionView::Read {
            pointer: memory.flowing_pixels,
            size: PIXEL_BYTES,
        },
    }
}

/// Where an event takes a plan of the lava. An event that is no answer to what the plan asked for
/// changes nothing.
pub open spec fn lava_moves(plan: LavaView, event: EventView) -> LavaView {
    match (plan, event) {
        (LavaView::AllocatingStill, EventView::Allocated(still_state)) => {
            LavaView::AllocatingFlowing { still_state }
        },
        (LavaView::AllocatingFlowing { still_state }, EventView::Allocated(flowing_state)) => {
            LavaView::AllocatingStillPixels { still_state, flowing_state }
        },
        (
            LavaView::AllocatingStillPixels { still_state, flowing_state },
            EventView::Allocated(still_pixels),
        ) => LavaView::AllocatingFlowingPixels { still_state, flowing_state, still_pixels },
        (
            LavaView::AllocatingFlowingPixels { still_state, flowing_state, still_pixels },
            EventView::Allocated(flowing_pixels),
        ) => LavaView::WritingStill(
            LavaMemory { still_state, flowing_state, still_pixels, flowing_pixels },
        ),
        (LavaView::WritingStill(memory), EventView::Done) => LavaView::WritingFlowing(memory),
        (LavaView::WritingFlowing(memory), EventView::Done) => LavaView::Resting(memory),
        (LavaView::Resting(memory), EventView::Tick) => LavaView::SteppingStill(memory),
        (LavaView::SteppingStill(memory), EventView::Done) => LavaView::SteppingFlowing(memory),
        (LavaView::SteppingFlowing(memory), EventView::Done) => LavaView::ReadingStill(memory),
        (LavaView::ReadingStill(memory), EventView::Bytes(still)) => LavaView::ReadingFlowing {
            memory,
            still,
        },
        (LavaView::ReadingFlowing { memory, .. }, EventView::Bytes(_)) => LavaView::Resting(memory),
        _ => plan,
    }
}

/// The plan of the lava after an event, and what it asks for then. Two rasters that have been read
/// are shown; otherwise the plan asks for what it waits for.
pub open spec fn lava_after(plan: LavaView, event: EventView) -> (LavaView, ActionView) {
    match (plan, event) {
        (LavaView::ReadingFlowing { memory, still }, EventView::Bytes(flowing)) => (
            LavaView::Resting(memory),
            ActionView::Show { still, flowing },
        ),
        _ => (lava_moves(plan, event), lava_asks(lava_moves(plan, event))),
    }
}

impl LavaPlan {
    /// What the plan waits for to be done.
    pub fn asks(&self) -> (action: GuestAction)
        ensures
            action@ == lava_asks(self@),
    {
        match self {
            LavaPlan::AllocatingStill => GuestAction::Allocate { size: STATE_BYTES },
            LavaPlan::AllocatingFlowing { .. } => GuestAction::Allocate { size: STATE_BYTES },
            LavaPlan::AllocatingStillPixels { .. } => GuestAction::Allocate { size: PIXEL_BYTES },
            LavaPlan::AllocatingFlowingPixels { .. } => GuestAction::Allocate {
                size: PIXEL_BYTES,
            },
            LavaPlan::WritingStill(memory) => GuestAction::Write {
                pointer: memory.still_state,
                offset: 0,
                bytes: lava_state(false),
            },
            LavaPlan::WritingFlowing(memory) => GuestAction::Write {
                pointer: memory.flowing_state,
                offset: 0,
                bytes: lava_state(true),
            },
            LavaPlan::Resting(_) => GuestAction::Wait,
            LavaPlan::SteppingStill(memory) => GuestAction::StepLava {
                state: memory.still_state,
                pixels: memory.still_pixels,
                length: PIXEL_BYTES as i32,
            },
            LavaPlan::SteppingFlowing(memory) => GuestAction::StepLava {
                state: memory.flowing_state,
                pixels: memory.flowing_pixels,
                length: PIXEL_BYTES as i32,
            },
            LavaPlan::ReadingStill(memory) => GuestAction::Read {
                pointer: memory.still_pixels,
                size: PIXEL_BYTES,
            },
            LavaPlan::ReadingFlowing { memory, .. } => GuestAction::Read {
                pointer: memory.flowing_pixels,
                size: PIXEL_BYTES,
            },
        }
    }
}

/// Takes an event and says what is to be done next for the lava.
pub fn lava_next(plan: LavaPlan, event: GuestEvent) -> (next: (LavaPlan, GuestAction))
    ensures
        (next.0@, next.1@) == lava_after(plan@, event@),
{
    let moved = match (plan, event) {
        (LavaPlan::ReadingFlowing { memory, still }, GuestEvent::Bytes(flowing)) => {
            return (LavaPlan::Resting(memory), GuestAction::Show { still, flowing });
        },
        (LavaPlan::AllocatingStill, GuestEvent::Allocated(still_state)) => {
            LavaPlan::AllocatingFlowing { still_state }
        },
        (LavaPlan::AllocatingFlowing { still_state }, GuestEvent::Allocated(flowing_state)) => {
            LavaPlan::AllocatingStillPixels { still_state, flowing_state }
        },
        (
            LavaPlan::AllocatingStillPixels { still_state, flowing_state },
            GuestEvent::Allocated(still_pixels),
        ) => LavaPlan::AllocatingFlowingPixels { still_state, flowing_state, still_pixels },
        (
            LavaPlan::AllocatingFlowingPixels { still_state, flowing_state, still_pixels },
            GuestEvent::Allocated(flowing_pixels),
        ) => LavaPlan::WritingStill(
            LavaMemory { still_state, flowing_state, still_pixels, flowing_pixels },
        ),
        (LavaPlan::WritingStill(memory), GuestEvent::Done) => LavaPlan::WritingFlowing(memory),
        (LavaPlan::WritingFlowing(memory), GuestEvent::Done) => LavaPlan::Resting(memory),
        (LavaPlan::Resting(memory), GuestEvent::Tick) => LavaPlan::SteppingStill(memory),
        (LavaPlan::SteppingStill(memory), GuestEvent::Done) => LavaPlan::SteppingFlowing(memory),
        (LavaPlan::SteppingFlowing(memory), GuestEvent::Done) => LavaPlan::ReadingStill(memory),
        (LavaPlan::ReadingStill(memory), GuestEvent::Bytes(still)) => LavaPlan::ReadingFlowing {
            memory,
            still,
        },
        (plan, _) => plan,
    };
    let action = moved.asks();
    (moved, action)
}

/// The rasters that the water has shown last.
pub type Rasters = Option<(Seq<u8>, Seq<u8>)>;

/// How far the water has come.
pub enum WaterPlan {
    AllocatingState,
    AllocatingPixels { state: i32 },
    Clearing { state: i32, pixels: i32 },
    WritingField { state: i32, pixels: i32, field: usize },
    Resting { state: i32, ticks: u64, capture: WaterCapture },
    Forgetting { state: i32, ticks: u64, capture: WaterCapture },
    Stepping { state: i32, ticks: u64, capture: WaterCapture },
}

pub enum WaterView {
    AllocatingState,
    AllocatingPixels { state: i32 },
    Clearing { state: i32, pixels: i32 },
    WritingField { state: i32, pixels: i32, field: usize },
    Resting { state: i32, ticks: u64, capture: Rasters },
    Forgetting { state: i32, ticks: u64, capture: Rasters },
    Stepping { state: i32, ticks: u64, capture: Rasters },
}

impl View for WaterPlan {
    type V = WaterView;

    open spec fn view(&self) -> WaterView {
        match self {
            WaterPlan::AllocatingState => WaterView::AllocatingState,
            WaterPlan::AllocatingPixels { state } => WaterView::AllocatingPixels { state: *state },
            WaterPlan::Clearing { state, pixels } => WaterView::Clearing {
                state: *state,
                pixels: *pixels,
            },
            WaterPlan::WritingField { state, pixels, field } => WaterView::WritingField {
                state: *state,
                pixels: *pixels,
                field: *field,
            },
            WaterPlan::Resting { state, ticks, capture } => WaterView::Resting {
                state: *state,
                ticks: *ticks,
                capture: capture.rasters(),
            },
            WaterPlan::Forgetting { state, ticks, capture } => WaterView::Forgetting {
                state: *state,
                ticks: *ticks,
                capture: capture.rasters(),
            },
            WaterPlan::Stepping { state, ticks, capture } => WaterView::Stepping {
                state: *state,
                ticks: *ticks,
                capture: capture.rasters(),
            },
        }
    }
}

impl WaterView {
    /// The field that is written is one of the fields.
    pub open spec fn wf(self) -> bool {
        self matches WaterView::WritingField { field, .. } ==> field < wasm::WATER_FIELD_COUNT
    }

    /// One more tick can be counted.
    pub open spec fn can_tick(self) -> bool {
        self matches WaterView::Resting { ticks, .. } ==> ticks < u64::MAX
    }
}

/// The write of a field of the water's state.
pub open spec fn field_write(state: i32, pixels: i32, field: int) -> ActionView {
    ActionView::Write {
        pointer: state,
        offset: wasm::water_fields(pixels)[field].0,
        bytes: bytes::le_bytes(wasm::water_fields(pixels)[field].1 as u32),
    }
}

/// What a plan of the water waits for to be done.
pub open spec fn water_asks(plan: WaterView) -> ActionView {
    match plan {
        WaterView::AllocatingState => ActionView::Allocate { size: WATER_STATE_BYTES },
        WaterView::AllocatingPixels { .. } => ActionView::Allocate { size: PIXEL_BYTES },
        WaterView::Clearing { state, .. } => ActionView::Write {
            pointer: state,
            offset: 0,
            bytes: Seq::new(WATER_STATE_BYTES as nat, |i: int| 0u8),
        },
        WaterView::WritingField { state, pixels, field } => field_write(
            state,
            pixels,
            field as int,
        ),
        WaterView::Resting { .. } => ActionView::Wait,
        WaterView::Forgetting { .. } => ActionView::ForgetUploads,
        WaterView::Stepping { state, ticks, .. } => ActionView::StepWater { state, tick: ticks },
    }
}

/// Where an event takes a plan of the water. An event that is no answer to what the plan asked for
/// changes nothing.
pub open spec fn water_moves(plan: WaterView, event: EventView) -> WaterView {
    match (plan, event) {
        (WaterView::AllocatingState, EventView::Allocated(state)) => WaterView::AllocatingPixels {
            state,
        },
        (WaterView::AllocatingPixels { state }, EventView::Allocated(pixels)) => {
            WaterView::Clearing { state, pixels }
        },
        (WaterView::Clearing { state, pixels }, EventView::Done) => WaterView::WritingField {
            state,
            pixels,
            field: 0,
        },
        (WaterView::WritingField { state, pixels, field }, EventView::Done) => {
            if field + 1 < wasm::WATER_FIELD_COUNT {
                WaterView::WritingField { state, pixels, field: (field + 1) as usize }
            } else {
                WaterView::Resting { state, ticks: 0, capture: None }
            }
        },
        (WaterView::Resting { state, ticks, capture }, EventView::Tick) => WaterView::Forgetting {
            state,
            ticks: (ticks + 1) as u64,
            capture,
        },
        (WaterView::Forgetting { state, ticks, capture }, EventView::Done) => WaterView::Stepping {
            state,
            ticks,
            capture,
        },
        (WaterView::Stepping { state, ticks, capture }, EventView::Uploads(uploads)) => {
            WaterView::Resting { state, ticks, capture: wasm::settled(capture, uploads) }
        },
        _ => plan,
    }
}

/// The plan of the water after an event, and what it asks for then. After a step the last two
/// rasters are shown, unless the step made uploads that it should not make.
pub open spec fn water_after(plan: WaterView, event: EventView) -> (WaterView, ActionView) {
    let moved = water_moves(plan, event);
    match (plan, event) {
        (WaterView::Stepping { capture, .. }, EventView::Uploads(uploads)) => (
            moved,
            match wasm::settling_fault(capture, uploads) {
                Some(error) => ActionView::Fail(error),
                None => ActionView::Show {
                    still: (wasm::settled(capture, uploads)->0).0,
                    flowing: (wasm::settled(capture, uploads)->0).1,
                },
            },
        ),
        _ => (moved, water_asks(moved)),
    }
}

impl WaterPlan {
    /// What the plan waits for to be done.
    pub fn asks(&self) -> (action: GuestAction)
        requires
            self@.wf(),
        ensures
            action@ == water_asks(self@),
    {
        match self {
            WaterPlan::AllocatingState => GuestAction::Allocate { size: WATER_STATE_BYTES },
            WaterPlan::AllocatingPixels { .. } => GuestAction::Allocate { size: PIXEL_BYTES },
            WaterPlan::Clearing { state, .. } => {
                let zeros: Vec<u8> = vec![0u8; WATER_STATE_BYTES];
                assert(zeros@ == Seq::new(WATER_STATE_BYTES as nat, |i: int| 0u8));
                GuestAction::Write { pointer: *state, offset: 0, bytes: zeros }
            },
            WaterPlan::WritingField { state, pixels, field } => {
                let fields = water_state_fields(*pixels);
                let (offset, value) = fields[*field];
                let mut written: Vec<u8> = vec![0u8; 4];
                bytes::write_le(&mut written, 0, value as u32);
                assert(written@ == written@.subrange(0, 4));
                GuestAction::Write { pointer: *state, offset, bytes: written }
            },
            WaterPlan::Resting { .. } => GuestAction::Wait,
            WaterPlan::Forgetting { .. } => GuestAction::ForgetUploads,
            WaterPlan::Stepping { state, ticks, .. } => GuestAction::StepWater {
                state: *state,
                tick: *ticks,
            },
        }
    }
}

/// Takes an event and says what is to be done next for the water.
pub fn water_next(plan: WaterPlan, event: GuestEvent) -> (next: (WaterPlan, GuestAction))
    requires
        plan@.wf(),
        event@ is Tick ==> plan@.can_tick(),
    ensures
        (next.0@, next.1@) == water_after(plan@, event@),
        next.0@.wf(),
{
    let moved = match (plan, event) {
        (WaterPlan::Stepping { state, ticks, capture }, GuestEvent::Uploads(uploads)) => {
            let ghost seen = uploads@.map_values(|upload: Vec<u8>| upload@);
            assert(seen.len() == uploads@.len());
            let mut capture = capture;
            let settled = capture.settle(uploads);
            let action = match settled {
                Err(error) => GuestAction::Fail(error),
                Ok(()) => match &capture.last_uploads {
                    Some((still, flowing)) => GuestAction::Show {
                        still: slice_to_vec(still.as_slice()),
                        flowing: slice_to_vec(flowing.as_slice()),
                    },
                    None => GuestAction::Wait,
                },
            };
            return (WaterPlan::Resting { state, ticks, capture }, action);
        },
        (WaterPlan::AllocatingState, GuestEvent::Allocated(state)) => WaterPlan::AllocatingPixels {
            state,
        },
        (WaterPlan::AllocatingPixels { state }, GuestEvent::Allocated(pixels)) => {
            WaterPlan::Clearing { state, pixels }
        },
        (WaterPlan::Clearing { state, pixels }, GuestEvent::Done) => WaterPlan::WritingField {
            state,
            pixels,
            field: 0,
        },
        (WaterPlan::WritingField { state, pixels, field }, GuestEvent::Done) => {
            if field < wasm::WATER_FIELD_COUNT - 1 {
                WaterPlan::WritingField { state, pixels, field: field + 1 }
            } else {
                WaterPlan::Resting { state, ticks: 0, capture: WaterCapture::new() }
            }
        },
        (WaterPlan::Resting { state, ticks, capture }, GuestEvent::Tick) => WaterPlan::Forgetting {
            state,
            ticks: ticks + 1,
            capture,
        },
        (WaterPlan::Forgetting { state, ticks, capture }, GuestEvent::Done) => {
            WaterPlan::Stepping { state, ticks, capture }
        },
        (plan, _) => plan,
    };
    let action = moved.asks();
    (moved, action)
}

/// The plan of the lava after several events, and what it asked for after each.
pub open spec fn lava_run(plan: LavaView, events: Seq<EventView>) -> (LavaView, Seq<ActionView>)
    decreases events.len(),
{
    if events.len() == 0 {
        (plan, Seq::empty())
    } else {
        let (before, asked) = lava_run(plan, events.drop_last());
        let (after, action) = lava_after(before, events.last());
        (after, asked.push(action))
    }
}

/// The plan of the water after several events, and what it asked for after each.
pub open spec fn water_run(plan: WaterView, events: Seq<EventView>) -> (WaterView, Seq<ActionView>)
    decreases events.len(),
{
    if events.len() == 0 {
        (plan, Seq::empty())
    } else {
        let (before, asked) = water_run(plan, events.drop_last());
        let (after, action) = water_after(before, events.last());
        (after, asked.push(action))
    }
}

proof fn lemma_lava_run_step(plan: LavaView, events: Seq<EventView>, event: EventView)
    ensures
        lava_run(plan, events.push(event)) == ({
            let (before, asked) = lava_run(plan, events);
            let (after, action) = lava_after(before, event);
            (after, asked.push(action))
        }),
{
    assert(events.push(event).drop_last() == events);
}

proof fn lemma_water_run_step(plan: WaterView, events: Seq<EventView>, event: EventView)
    ensures
        water_run(plan, events.push(event)) == ({
            let (before, asked) = water_run(plan, events);
            let (after, action) = water_after(before, event);
            (after, asked.push(action))
        }),
{
    assert(events.push(event).drop_last() == events);
}

/// The lava is set up in two states of its own, of which only the second flows, and rests then.
pub proof fn lemma_lava_is_set_up(
    still_state: i32,
    flowing_state: i32,
    still_pixels: i32,
    flowing_pixels: i32,
)
    ensures
        ({
            let memory = LavaMemory { still_state, flowing_state, still_pixels, flowing_pixels };
            let (plan, asked) = lava_run(
                LavaView::AllocatingStill,
                seq![
                    EventView::Allocated(still_state),
                    EventView::Allocated(flowing_state),
                    EventView::Allocated(still_pixels),
                    EventView::Allocated(flowing_pixels),
                    EventView::Done,
                    EventView::Done,
                ],
            );
            &&& plan == LavaView::Resting(memory)
            &&& asked == seq![
                ActionView::Allocate { size: STATE_BYTES },
                ActionView::Allocate { size: PIXEL_BYTES },
                ActionView::Allocate { size: PIXEL_BYTES },
                ActionView::Write {
                    pointer: still_state,
                    offset: 0,
                    bytes: wasm::first_lava_state(false),
                },
                ActionView::Write {
                    pointer: flowing_state,
                    offset: 0,
                    bytes: wasm::first_lava_state(true),
                },
                ActionView::Wait,
            ]
        }),
{
    let start = LavaView::AllocatingStill;
    let e0 = Seq::<EventView>::empty();
    let e1 = e0.push(EventView::Allocated(still_state));
    let e2 = e1.push(EventView::Allocated(flowing_state));
    let e3 = e2.push(EventView::Allocated(still_pixels));
    let e4 = e3.push(EventView::Allocated(flowing_pixels));
    let e5 = e4.push(EventView::Done);
    lemma_lava_run_step(start, e0, EventView::Allocated(still_state));
    lemma_lava_run_step(start, e1, EventView::Allocated(flowing_state));
    lemma_lava_run_step(start, e2, EventView::Allocated(still_pixels));
    lemma_lava_run_step(start, e3, EventView::Allocated(flowing_pixels));
    lemma_lava_run_step(start, e4, EventView::Done);
    lemma_lava_run_step(start, e5, EventView::Done);
    assert(e5.push(EventView::Done) =~= seq![
        EventView::Allocated(still_state),
        EventView::Allocated(flowing_state),
        EventView::Allocated(still_pixels),
        EventView::Allocated(flowing_pixels),
        EventView::Done,
        EventView::Done,
    ]);
}

/// A tick of the lava steps the still state before the flowing one, reads the raster of each after
/// both, shows them as still and flowing, and rests again.
pub proof fn lemma_a_lava_tick_shows_both_rasters(
    memory: LavaMemory,
    still: Seq<u8>,
    flowing: Seq<u8>,
)
    ensures
        lava_run(
            LavaView::Resting(memory),
            seq![
                EventView::Tick,
                EventView::Done,
                EventView::Done,
                EventView::Bytes(still),
                EventView::Bytes(flowing),
            ],
        ) == (
            LavaView::Resting(memory),
            seq![
                ActionView::StepLava {
                    state: memory.still_state,
                    pixels: memory.still_pixels,
                    length: PIXEL_BYTES as i32,
                },
                ActionView::StepLava {
                    state: memory.flowing_state,
                    pixels: memory.flowing_pixels,
                    length: PIXEL_BYTES as i32,
                },
                ActionView::Read { pointer: memory.still_pixels, size: PIXEL_BYTES },
                ActionView::Read { pointer: memory.flowing_pixels, size: PIXEL_BYTES },
                ActionView::Show { still, flowing },
            ],
        ),
{
    let start = LavaView::Resting(memory);
    let e0 = Seq::<EventView>::empty();
    let e1 = e0.push(EventView::Tick);
    let e2 = e1.push(EventView::Done);
    let e3 = e2.push(EventView::Done);
    let e4 = e3.push(EventView::Bytes(still));
    lemma_lava_run_step(start, e0, EventView::Tick);
    lemma_lava_run_step(start, e1, EventView::Done);
    lemma_lava_run_step(start, e2, EventView::Done);
    lemma_lava_run_step(start, e3, EventView::Bytes(still));
    lemma_lava_run_step(start, e4, EventView::Bytes(flowing));
    assert(e4.push(EventView::Bytes(flowing)) =~= seq![
        EventView::Tick,
        EventView::Done,
        EventView::Done,
        EventView::Bytes(still),
        EventView::Bytes(flowing),
    ]);
    let asked = lava_run(start, e4.push(EventView::Bytes(flowing))).1;
    assert(asked =~= seq![
        ActionView::StepLava {
            state: memory.still_state,
            pixels: memory.still_pixels,
            length: PIXEL_BYTES as i32,
        },
        ActionView::StepLava {
            state: memory.flowing_state,
            pixels: memory.flowing_pixels,
            length: PIXEL_BYTES as i32,
        },
        ActionView::Read { pointer: memory.still_pixels, size: PIXEL_BYTES },
        ActionView::Read { pointer: memory.flowing_pixels, size: PIXEL_BYTES },
        ActionView::Show { still, flowing },
    ]);
}

/// The water is set up in a state that is cleared before each of its fields is written, in their
/// order, and rests then with no tick counted and nothing shown.
pub proof fn lemma_water_is_set_up(state: i32, pixels: i32)
    ensures
        ({
            let (plan, asked) = water_run(
                WaterView::AllocatingState,
                seq![
                    EventView::Allocated(state),
                    EventView::Allocated(pixels),
                    EventView::Done,
                    EventView::Done,
                    EventView::Done,
                    EventView::Done,
                    EventView::Done,
                    EventView::Done,
                ],
            );
            &&& plan == WaterView::Resting { state, ticks: 0, capture: None }
            &&& asked == seq![
                ActionView::Allocate { size: PIXEL_BYTES },
                ActionView::Write {
                    pointer: state,
                    offset: 0,
                    bytes: Seq::new(WATER_STATE_BYTES as nat, |i: int| 0u8),
                },
                field_write(state, pixels, 0),
                field_write(state, pixels, 1),
                field_write(state, pixels, 2),
                field_write(state, pixels, 3),
                field_write(state, pixels, 4),
                ActionView::Wait,
            ]
        }),
{
    let start = WaterView::AllocatingState;
    let e0 = Seq::<EventView>::empty();
    let e1 = e0.push(EventView::Allocated(state));
    let e2 = e1.push(EventView::Allocated(pixels));
    let e3 = e2.push(EventView::Done);
    let e4 = e3.push(EventView::Done);
    let e5 = e4.push(EventView::Done);
    let e6 = e5.push(EventView::Done);
    let e7 = e6.push(EventView::Done);
    lemma_water_run_step(start, e0, EventView::Allocated(state));
    lemma_water_run_step(start, e1, EventView::Allocated(pixels));
    lemma_water_run_step(start, e2, EventView::Done);
    lemma_water_run_step(start, e3, EventView::Done);
    lemma_water_run_step(start, e4, EventView::Done);
    lemma_water_run_step(start, e5, EventView::Done);
    lemma_water_run_step(start, e6, EventView::Done);
    lemma_water_run_step(start, e7, EventView::Done);
    assert(e7.push(EventView::Done) =~= seq![
        EventView::Allocated(state),
        EventView::Allocated(pixels),
        EventView::Done,
        EventView::Done,
        EventView::Done,
        EventView::Done,
        EventView::Done,
        EventView::Done,
    ]);
}

/// A tick of the water forgets the earlier uploads before it steps, and shows the two rasters that
/// the step uploads, the first as still and the second as flowing. A step without uploads shows
/// the rasters of the tick before.
pub proof fn lemma_a_water_tick_shows_its_uploads(
    state: i32,
    ticks: u64,
    capture: Rasters,
    uploads: Seq<Seq<u8>>,
)
    requires
        ticks < u64::MAX,
        uploads.len() == 2 || (uploads.len() == 0 && capture is Some),
    ensures
        ({
            let next = (ticks + 1) as u64;
            let shown = if uploads.len() == 2 {
                (uploads[0], uploads[1])
            } else {
                capture->0
            };
            water_run(
                WaterView::Resting { state, ticks, capture },
                seq![EventView::Tick, EventView::Done, EventView::Uploads(uploads)],
            ) == (
                WaterView::Resting { state, ticks: next, capture: Some(shown) },
                seq![
                    ActionView::ForgetUploads,
                    ActionView::StepWater { state, tick: next },
                    ActionView::Show { still: shown.0, flowing: shown.1 },
                ],
            )
        }),
{
    let start = WaterView::Resting { state, ticks, capture };
    let e0 = Seq::<EventView>::empty();
    let e1 = e0.push(EventView::Tick);
    let e2 = e1.push(EventView::Done);
    lemma_water_run_step(start, e0, EventView::Tick);
    lemma_water_run_step(start, e1, EventView::Done);
    lemma_water_run_step(start, e2, EventView::Uploads(uploads));
    assert(e2.push(EventView::Uploads(uploads)) =~= seq![
        EventView::Tick,
        EventView::Done,
        EventView::Uploads(uploads),
    ]);
    let next = (ticks + 1) as u64;
    let shown = if uploads.len() == 2 {
        (uploads[0], uploads[1])
    } else {
        capture->0
    };
    let asked = water_run(start, e2.push(EventView::Uploads(uploads))).1;
    assert(asked =~= seq![
        ActionView::ForgetUploads,
        ActionView::StepWater { state, tick: next },
        ActionView::Show { still: shown.0, flowing: shown.1 },
    ]);
}

/// What the GPU draws, after [`crate::modules::SRGB_TO_LINEAR`].
pub const SHADER: &'static str = r#"
struct Uniforms {
    mvp: mat4x4<f32>,
};

struct VertexOutput {
    @builtin(position) position: vec4<f32>,
    @location(0) uv: vec2<f32>,
    @location(1) flowing: f32,
    @location(2) light: f32,
};

@group(0) @binding(0) var<uniform> uniforms: Uniforms;
@group(0) @binding(1) var still_texture: texture_2d<f32>;
@group(0) @binding(2) var flowing_texture: texture_2d<f32>;
@group(0) @binding(3) var fluid_sampler: sampler;

@vertex
fn vs_main(
    @builtin(vertex_index) vertex_index: u32,
    @builtin(instance_index) instance_index: u32,
) -> VertexOutput {
    // Six vertices of the still top, then twelve of the two sides that flow.
    let positions = array<vec3<f32>, 18>(
        vec3<f32>(-0.5,  0.5, -0.5), vec3<f32>(-0.5,  0.5,  0.5), vec3<f32>( 0.5,  0.5, -0.5),
        vec3<f32>( 0.5,  0.5, -0.5), vec3<f32>(-0.5,  0.5,  0.5), vec3<f32>( 0.5,  0.5,  0.5),
        vec3<f32>(-0.5, -0.5,  0.5), vec3<f32>( 0.5, -0.5,  0.5), vec3<f32>(-0.5,  0.5,  0.5),
        vec3<f32>( 0.5, -0.5,  0.5), vec3<f32>( 0.5,  0.5,  0.5), vec3<f32>(-0.5,  0.5,  0.5),
        vec3<f32>( 0.5, -0.5, -0.5), vec3<f32>( 0.5,  0.5, -0.5), vec3<f32>( 0.5, -0.5,  0.5),
        vec3<f32>( 0.5, -0.5,  0.5), vec3<f32>( 0.5,  0.5, -0.5), vec3<f32>( 0.5,  0.5,  0.5),
    );
    let texels = array<vec3<f32>, 18>(
        vec3<f32>(0.0, 0.0, 0.0), vec3<f32>(0.0, 1.0, 0.0), vec3<f32>(1.0, 0.0, 0.0),
        vec3<f32>(1.0, 0.0, 0.0), vec3<f32>(0.0, 1.0, 0.0), vec3<f32>(1.0, 1.0, 0.0),
        vec3<f32>(0.0, 1.0, 1.0), vec3<f32>(1.0, 1.0, 1.0), vec3<f32>(0.0, 0.0, 1.0),
        vec3<f32>(1.0, 1.0, 1.0), vec3<f32>(1.0, 0.0, 1.0), vec3<f32>(0.0, 0.0, 1.0),
        vec3<f32>(0.0, 1.0, 1.0), vec3<f32>(0.0, 0.0, 1.0), vec3<f32>(1.0, 1.0, 1.0),
        vec3<f32>(1.0, 1.0, 1.0), vec3<f32>(0.0, 0.0, 1.0), vec3<f32>(1.0, 0.0, 1.0),
    );
    let lights = array<f32, 3>(1.0, 0.9, 0.8);
    let row = instance_index / 16u;
    let column = instance_index - row * 16u;
    let displacement = vec3<f32>(
        f32(row) - 8.0,
        -(f32(row) - 8.0 + f32(column) - 8.0),
        f32(column) - 8.0,
    );
    let texel = texels[vertex_index];
    var output: VertexOutput;
    let clip = uniforms.mvp * vec4<f32>(positions[vertex_index] + displacement, 1.0);
    // The matrix gives depths from -w to w, and the GPU takes those from 0 to w.
    output.position = vec4<f32>(clip.xy, (clip.z + clip.w) * 0.5, clip.w);
    output.uv = texel.xy;
    output.flowing = texel.z;
    output.light = lights[vertex_index / 6u];
    return output;
}

fn fluid_color(input: VertexOutput) -> vec4<f32> {
    let still = textureSample(still_texture, fluid_sampler, input.uv);
    let flowing = textureSample(flowing_texture, fluid_sampler, input.uv);
    let sample = select(still, flowing, input.flowing > 0.0);
    return vec4<f32>(sample.rgb * sample.a * input.light, 1.0);
}

@fragment
fn fs_srgb(input: VertexOutput) -> @location(0) vec4<f32> {
    return vec4<f32>(to_linear(fluid_color(input).rgb), 1.0);
}

@fragment
fn fs_unorm(input: VertexOutput) -> @location(0) vec4<f32> {
    return fluid_color(input);
}
"#;

} // verus!
