//! The fluids: the module that simulates them, what it may ask for, and how it is run.

use vstd::prelude::*;
use vstd::utf8;

use crate::laws::buffers;
use crate::modules::alpha_fluids;
use crate::modules::alpha_fluids::{
    GuestAction, GuestError, GuestEvent, HostAction, ImportError, LavaMemory, LavaPlan, WaterPlan,
};
use crate::modules::AlphaFluidVariant;
use crate::wasm;
use crate::wasm::{HostCallError, ImportBehavior, WasmError, WaterCapture, WaterError};

verus! {

/// A number that is written is read back, and reading ends where writing did. What stood before it
/// stays. Numbers below 128 take one byte, which is the number.
pub proof fn lemma_a_written_number_is_read_back(
    written: &mut Vec<u8>,
    value: u32,
    bytes: &[u8],
    cursor: usize,
    read: Result<(u32, usize), WasmError>,
)
    requires
        call_ensures(wasm::write_uleb, (written, value), ()),
        bytes@ == final(written)@,
        bytes@.len() <= usize::MAX,
        cursor == old(written)@.len(),
        call_ensures(wasm::read_uleb, (bytes, cursor), read),
    ensures
        read == Ok::<(u32, usize), WasmError>((value, bytes@.len() as usize)),
        final(written)@.take(cursor as int) == old(written)@,
        value < 128 ==> final(written)@.len() == cursor + 1 && final(written)@[cursor as int]
            == value,
        value >= 128 ==> final(written)@.len() > cursor + 1,
{
    let number = wasm::uleb_bytes(value as nat);
    wasm::lemma_uleb_round_trip(old(written)@, Seq::empty(), value);
    assert(old(written)@ + number + Seq::<u8>::empty() == bytes@);
    assert(final(written)@.take(cursor as int) == old(written)@);
    if value >= 128 {
        assert(wasm::uleb_bytes(value as nat / 128).len() > 0);
    }
}

/// A number from 128 on begins with its lowest seven bits and the mark that more follows; what
/// follows is the rest of the number, written in the same way.
pub proof fn lemma_a_long_number_is_written_in_sevens(
    written: &mut Vec<u8>,
    rest: &mut Vec<u8>,
    value: u32,
)
    requires
        value >= 128,
        call_ensures(wasm::write_uleb, (written, value), ()),
        call_ensures(wasm::write_uleb, (rest, (value / 128) as u32), ()),
        old(written)@.len() == 0 && old(rest)@.len() == 0,
    ensures
        final(written)@[0] == 128 + value % 128,
        final(written)@.skip(1) == final(rest)@,
{
    let number = wasm::uleb_bytes(value as nat);
    assert(final(written)@ == number);
    assert(final(rest)@ == wasm::uleb_bytes((value / 128) as nat));
    assert(number.skip(1) == final(rest)@);
}

/// A number that the bytes break off is told apart from one of more than five bytes.
pub proof fn lemma_a_number_that_does_not_end(
    bytes: &[u8],
    cursor: usize,
    read: Result<(u32, usize), WasmError>,
)
    requires
        call_ensures(wasm::read_uleb, (bytes, cursor), read),
        forall|i: int| cursor <= i < bytes@.len() ==> #[trigger] bytes@[i] >= 128,
    ensures
        bytes@.len() < cursor + 5 ==> read == Err::<(u32, usize), WasmError>(
            WasmError::TruncatedNumber,
        ),
        bytes@.len() >= cursor + 5 ==> read == Err::<(u32, usize), WasmError>(
            WasmError::NumberTooLarge,
        ),
{
    reveal_with_fuel(wasm::uleb_from, 6);
}

/// A module gets one more export and stays byte for byte the same around its export section: the
/// section keeps its records, and behind them comes the name, the mark of a function and the number
/// of the function. Only the count and the length in front of them change.
pub proof fn lemma_one_export_more(
    code: &[u8],
    name: &str,
    function: u32,
    before: Seq<u8>,
    count: u32,
    records: Seq<u8>,
    after: Seq<u8>,
    patched: Result<Vec<u8>, WasmError>,
)
    requires
        before.len() >= 8,
        before.take(8) == seq![0u8, 97u8, 115u8, 109u8, 1u8, 0u8, 0u8, 0u8],
        wasm::has_no_exports(before, 8),
        count < u32::MAX,
        (wasm::uleb_bytes(count as nat) + records).len() <= u32::MAX,
        records.len() + utf8::encode_utf8(name@).len() + 20 <= u32::MAX,
        code@ == before + seq![7u8] + wasm::uleb_bytes(
            (wasm::uleb_bytes(count as nat) + records).len(),
        ) + (wasm::uleb_bytes(count as nat) + records) + after,
        code@.len() <= usize::MAX,
        call_ensures(wasm::export_internal_function, (code, name, function), patched),
    ensures
        ({
            let spelled = utf8::encode_utf8(name@);
            let list = wasm::uleb_bytes((count + 1) as nat) + records + (wasm::uleb_bytes(
                spelled.len(),
            ) + spelled + seq![0u8] + wasm::uleb_bytes(function as nat));
            patched is Ok && patched->Ok_0@ == before + seq![7u8] + wasm::uleb_bytes(list.len())
                + list + after
        }),
{
    let spelled = utf8::encode_utf8(name@);
    lemma_length((count + 1) as nat);
    lemma_length(spelled.len());
    lemma_length(function as nat);
    assert(code@ == before + seq![7u8] + wasm::uleb_bytes(
        (wasm::uleb_bytes(count as nat) + records).len(),
    ) + wasm::uleb_bytes(count as nat) + records + after);
    wasm::lemma_only_the_exports_change(before, count, records, after, spelled, function);
}

proof fn lemma_length(value: nat)
    requires
        value <= u32::MAX,
    ensures
        1 <= wasm::uleb_bytes(value).len() <= 5,
{
    reveal_with_fuel(wasm::uleb_bytes, 6);
}

/// What does not begin as a module is refused as such.
pub proof fn lemma_the_head_of_a_module(
    code: &[u8],
    name: &str,
    function: u32,
    patched: Result<Vec<u8>, WasmError>,
)
    requires
        call_ensures(wasm::export_internal_function, (code, name, function), patched),
    ensures
        code@.len() < 8 || code@.take(8) != seq![
            0u8,
            97u8,
            115u8,
            109u8,
            1u8,
            0u8,
            0u8,
            0u8,
        ] ==> patched == Err::<Vec<u8>, WasmError>(WasmError::InvalidHeader),
{
}

/// The water is stepped by the function 116 and the lava by the function 143, each under an export of
/// its own. What runs is the module with that one export.
pub proof fn lemma_each_fluid_has_its_step(
    engine: wasmi::Engine,
    code: &[u8],
    variant: AlphaFluidVariant,
    export: &'static str,
    function: u32,
    patched: Result<Vec<u8>, WasmError>,
    module: Result<wasmi::Module, GuestError>,
)
    requires
        call_ensures(alpha_fluids::step_export, (variant,), export),
        call_ensures(alpha_fluids::step_function, (variant,), function),
        call_ensures(wasm::export_internal_function, (code, export, function), patched),
        call_ensures(alpha_fluids::load_fluid, (&engine, code, variant), module),
    ensures
        variant is Water ==> export@ == "__minecraft_plus_water_step"@ && function == 116,
        variant is Lava ==> export@ == "__minecraft_plus_lava_step"@ && function == 143,
        patched is Err ==> module is Err && module->Err_0 is Patch && module->Err_0->Patch_0
            == patched->Err_0,
        patched is Ok ==> (module is Ok <==> alpha_fluids::is_module(engine, patched->Ok_0@)),
        module is Ok ==> alpha_fluids::module_code(module->Ok_0) == patched->Ok_0@,
        patched is Ok && module is Err ==> module->Err_0 is Refused,
{
}

/// Uploads of textures are captured and requests for random bytes are filled, by the names of their
/// imports; every other import that is a function does nothing. What is no function is refused.
pub proof fn lemma_what_an_import_is_bound_to(
    name: &str,
    bound: Result<ImportBehavior, ImportError>,
    refused: Result<ImportBehavior, ImportError>,
)
    requires
        call_ensures(alpha_fluids::bind_import, (name, true), bound),
        call_ensures(alpha_fluids::bind_import, (name, false), refused),
    ensures
        bound is Ok,
        bound->Ok_0 is CaptureUpload <==> name@ == "__wbg_texImage2D_1c4b87cd146e7590"@,
        bound->Ok_0 is FillEntropy <==> name@ == "__wbg_getRandomValues_1ef11e888e5228e9"@ || name@
            == "__wbg_randomFillSync_1b52c8482374c55b"@,
        refused == Err::<ImportBehavior, ImportError>(ImportError::NotAFunction),
{
    reveal_strlit("__wbg_texImage2D_1c4b87cd146e7590");
    reveal_strlit("__wbg_getRandomValues_1ef11e888e5228e9");
    reveal_strlit("__wbg_randomFillSync_1b52c8482374c55b");
    assert("__wbg_texImage2D_1c4b87cd146e7590"@[6] == 't');
    assert("__wbg_getRandomValues_1ef11e888e5228e9"@[6] == 'g');
    assert("__wbg_randomFillSync_1b52c8482374c55b"@[6] == 'r');
}

/// Every import is bound as it would be alone, in its place. The first that is no function is named
/// by its place, and nothing is bound.
pub proof fn lemma_imports_are_bound_in_their_places(
    imports: Vec<(String, bool)>,
    place: int,
    name: &str,
    alone: Result<ImportBehavior, ImportError>,
    bound: Result<Vec<ImportBehavior>, (usize, ImportError)>,
)
    requires
        0 <= place < imports@.len(),
        name@ == imports@[place].0@,
        call_ensures(alpha_fluids::bind_import, (name, imports@[place].1), alone),
        call_ensures(alpha_fluids::bind_all, (&imports,), bound),
    ensures
        bound is Ok ==> bound->Ok_0@.len() == imports@.len() && alone == Ok::<
            ImportBehavior,
            ImportError,
        >(bound->Ok_0@[place]),
        bound is Err ==> (bound->Err_0).0 < imports@.len() && !imports@[(bound->Err_0).0 as int].1,
        bound is Err && place < (bound->Err_0).0 ==> imports@[place].1,
        !imports@[place].1 ==> bound is Err,
{
    let named = imports@.map_values(|import: (String, bool)| (import.0@, import.1));
    assert(named[place] == (imports@[place].0@, imports@[place].1));
    if bound is Err {
        let at = (bound->Err_0).0 as int;
        assert(named[at] == (imports@[at].0@, imports@[at].1));
    }
}

/// Whether a call uploads a texture of 16 by 16 pixels of four bytes, and names where they are.
pub open spec fn uploads_a_raster(params: Seq<Option<i32>>) -> bool {
    &&& params.len() == 11
    &&& params[1] == Some(3_553i32)
    &&& params[2] == Some(0i32)
    &&& params[3] == Some(6_408i32)
    &&& params[4] == Some(16i32)
    &&& params[5] == Some(16i32)
    &&& params[6] == Some(0i32)
    &&& params[7] == Some(6_408i32)
    &&& params[8] == Some(5_121i32)
    &&& params[9] is Some
    &&& params[10] == Some(1_024i32)
}

/// An upload is captured exactly if it is one of such a raster that lies in the memory of the module;
/// it is captured where it lies. A stub does nothing, whatever it is given.
pub proof fn lemma_which_uploads_are_captured(
    params: &[Option<i32>],
    memory: Option<usize>,
    answer: Result<HostAction, HostCallError>,
    stub: Result<HostAction, HostCallError>,
)
    requires
        call_ensures(
            alpha_fluids::answer_call,
            (ImportBehavior::CaptureUpload, params, memory),
            answer,
        ),
        call_ensures(alpha_fluids::answer_call, (ImportBehavior::Stub, params, memory), stub),
    ensures
        answer is Ok <==> uploads_a_raster(params@) && params@[9]->0 >= 0 && memory is Some
            && params@[9]->0 + 1_024 <= memory->0,
        answer is Ok ==> answer->Ok_0 is Capture && answer->Ok_0->Capture_pointer == params@[9]->0,
        params@.len() != 11 ==> answer == Err::<HostAction, HostCallError>(
            HostCallError::ParameterCount { received: params@.len() as usize, wanted: 11 },
        ),
        stub == Ok::<HostAction, HostCallError>(HostAction::Nothing),
{
    reveal_with_fuel(wasm::upload_mismatch, 10);
}

/// A request for random bytes is filled exactly if its range lies in the memory of the module; it is
/// filled there, and with as many bytes.
pub proof fn lemma_which_requests_are_filled(
    params: &[Option<i32>],
    memory: Option<usize>,
    answer: Result<HostAction, HostCallError>,
    length: usize,
    filling: Vec<u8>,
)
    requires
        call_ensures(
            alpha_fluids::answer_call,
            (ImportBehavior::FillEntropy, params, memory),
            answer,
        ),
        call_ensures(alpha_fluids::entropy, (length,), filling),
    ensures
        answer is Ok <==> params@.len() == 3 && params@[1] is Some && params@[2] is Some
            && params@[1]->0 >= 0 && params@[2]->0 >= 0 && memory is Some && params@[1]->0
            + params@[2]->0 <= memory->0,
        answer is Ok ==> answer->Ok_0 is Fill && answer->Ok_0->Fill_pointer == params@[1]->0
            && answer->Ok_0->length == params@[2]->0,
        filling@.len() == length,
{
}

/// A time is stepped to once, and never backwards.
pub proof fn lemma_time_is_stepped_once(
    last: &mut Option<u64>,
    again: &mut Option<u64>,
    tick: u64,
    earlier: u64,
    advanced: bool,
    advanced_again: bool,
)
    requires
        call_ensures(wasm::advance_observed_bucket, (last, tick), advanced),
        *old(again) == *final(last),
        earlier <= tick,
        call_ensures(wasm::advance_observed_bucket, (again, earlier), advanced_again),
    ensures
        advanced <==> *old(last) is None || tick > (*old(last))->0,
        advanced ==> *final(last) == Some(tick),
        !advanced ==> *final(last) == *old(last),
        !advanced_again,
        *final(again) == *final(last),
{
}

/// The lava gets two states of 4104 bytes and two rasters of 1024, in this order, and both states are
/// written before the first tick: zeros, but for the one byte that makes the second one flow.
pub proof fn lemma_the_lava_is_set_up(
    pointers: (i32, i32, i32, i32),
    first: GuestAction,
    after: ((LavaPlan, GuestAction), (LavaPlan, GuestAction), (LavaPlan, GuestAction), (
        LavaPlan,
        GuestAction,
    )),
    written: ((LavaPlan, GuestAction), (LavaPlan, GuestAction)),
)
    requires
        call_ensures(LavaPlan::asks, (&LavaPlan::AllocatingStill,), first),
        call_ensures(
            alpha_fluids::lava_next,
            (LavaPlan::AllocatingStill, GuestEvent::Allocated(pointers.0)),
            after.0,
        ),
        call_ensures(
            alpha_fluids::lava_next,
            ((after.0).0, GuestEvent::Allocated(pointers.1)),
            after.1,
        ),
        call_ensures(
            alpha_fluids::lava_next,
            ((after.1).0, GuestEvent::Allocated(pointers.2)),
            after.2,
        ),
        call_ensures(
            alpha_fluids::lava_next,
            ((after.2).0, GuestEvent::Allocated(pointers.3)),
            after.3,
        ),
        call_ensures(alpha_fluids::lava_next, ((after.3).0, GuestEvent::Done), written.0),
        call_ensures(alpha_fluids::lava_next, ((written.0).0, GuestEvent::Done), written.1),
    ensures
        first@ is Allocate && first@->Allocate_size == 4_104,
        (after.0).1@ is Allocate && (after.0).1@->Allocate_size == 4_104,
        (after.1).1@ is Allocate && (after.1).1@->Allocate_size == 1_024,
        (after.2).1@ is Allocate && (after.2).1@->Allocate_size == 1_024,
        writes_state((after.3).1, pointers.0, false),
        writes_state((written.0).1, pointers.1, true),
        (written.1).0@ == alpha_fluids::LavaView::Resting(
            LavaMemory {
                still_state: pointers.0,
                flowing_state: pointers.1,
                still_pixels: pointers.2,
                flowing_pixels: pointers.3,
            },
        ),
        (written.1).1@ is Wait,
{
}

/// Whether an action writes the first state of the lava.
pub open spec fn writes_state(action: GuestAction, pointer: i32, flowing: bool) -> bool {
    &&& action@ is Write
    &&& action@->Write_pointer == pointer
    &&& action@->offset == 0
    &&& action@->bytes.len() == 4_104
    &&& forall|i: int|
        0 <= i < 4_104 ==> #[trigger] action@->bytes[i] == if flowing && i == 4_100 {
            1u8
        } else {
            0u8
        }
}

/// A tick of the lava steps the still fluid and then the flowing one, each with its own state and
/// its own raster, reads both rasters and shows them, each for what it is.
pub proof fn lemma_a_tick_of_the_lava(
    memory: LavaMemory,
    still: Vec<u8>,
    flowing: Vec<u8>,
    steps: ((LavaPlan, GuestAction), (LavaPlan, GuestAction), (LavaPlan, GuestAction), (
        LavaPlan,
        GuestAction,
    ), (LavaPlan, GuestAction)),
)
    requires
        call_ensures(
            alpha_fluids::lava_next,
            (LavaPlan::Resting(memory), GuestEvent::Tick),
            steps.0,
        ),
        call_ensures(alpha_fluids::lava_next, ((steps.0).0, GuestEvent::Done), steps.1),
        call_ensures(alpha_fluids::lava_next, ((steps.1).0, GuestEvent::Done), steps.2),
        call_ensures(alpha_fluids::lava_next, ((steps.2).0, GuestEvent::Bytes(still)), steps.3),
        call_ensures(alpha_fluids::lava_next, ((steps.3).0, GuestEvent::Bytes(flowing)), steps.4),
    ensures
        (steps.0).1@ is StepLava && (steps.0).1@->StepLava_state == memory.still_state
            && (steps.0).1@->pixels == memory.still_pixels && (steps.0).1@->length == 1_024,
        (steps.1).1@ is StepLava && (steps.1).1@->StepLava_state == memory.flowing_state
            && (steps.1).1@->pixels == memory.flowing_pixels && (steps.1).1@->length == 1_024,
        (steps.2).1@ is Read && (steps.2).1@->Read_pointer == memory.still_pixels
            && (steps.2).1@->Read_size == 1_024,
        (steps.3).1@ is Read && (steps.3).1@->Read_pointer == memory.flowing_pixels
            && (steps.3).1@->Read_size == 1_024,
        (steps.4).1@ is Show && (steps.4).1@->still == still@ && (steps.4).1@->flowing == flowing@,
        (steps.4).0@ == alpha_fluids::LavaView::Resting(memory),
{
}

/// Where a field of the water's state stands, and what is written there.
pub open spec fn field_of_water(field: int, pixels: i32) -> (int, i32) {
    if field == 0 {
        (92, pixels)
    } else if field == 1 {
        (100, 1_024i32)
    } else if field == 2 {
        (104, 6_408i32)
    } else if field == 3 {
        (108, 16i32)
    } else {
        (112, 16i32)
    }
}

/// The water gets a state of 8400 bytes and a raster of 1024. The state is cleared before anything is
/// written to it.
pub proof fn lemma_the_water_is_set_up(
    state: i32,
    pixels: i32,
    first: GuestAction,
    allocated: (WaterPlan, GuestAction),
    cleared: (WaterPlan, GuestAction),
    next: (WaterPlan, GuestAction),
)
    requires
        call_ensures(WaterPlan::asks, (&WaterPlan::AllocatingState,), first),
        call_ensures(
            alpha_fluids::water_next,
            (WaterPlan::AllocatingState, GuestEvent::Allocated(state)),
            allocated,
        ),
        call_ensures(
            alpha_fluids::water_next,
            (allocated.0, GuestEvent::Allocated(pixels)),
            cleared,
        ),
        call_ensures(alpha_fluids::water_next, (cleared.0, GuestEvent::Done), next),
    ensures
        first@ is Allocate && first@->Allocate_size == 8_400,
        allocated.1@ is Allocate && allocated.1@->Allocate_size == 1_024,
        cleared.1@ is Write && cleared.1@->Write_pointer == state && cleared.1@->offset == 0
            && cleared.1@->bytes.len() == 8_400 && forall|i: int|
            0 <= i < 8_400 ==> #[trigger] cleared.1@->bytes[i] == 0,
        next.0@ == (alpha_fluids::WaterView::WritingField { state, pixels, field: 0 }),
        writes_field(next.1, state, pixels, 0),
{
    lemma_field(pixels, 0);
}

/// Whether an action writes a field of the water's state, with its least significant byte first.
pub open spec fn writes_field(action: GuestAction, state: i32, pixels: i32, field: int) -> bool {
    &&& action@ is Write
    &&& action@->Write_pointer == state
    &&& action@->offset == field_of_water(field, pixels).0
    &&& action@->bytes.len() == 4
    &&& buffers::little(action@->bytes, 0, field_of_water(field, pixels).1 as u32)
}

proof fn lemma_field(pixels: i32, field: int)
    requires
        0 <= field < 5,
    ensures
        ({
            let (offset, value) = wasm::water_fields(pixels)[field];
            let bytes = crate::bytes::le_bytes(value as u32);
            &&& offset == field_of_water(field, pixels).0
            &&& value == field_of_water(field, pixels).1
            &&& bytes.len() == 4 && buffers::little(bytes, 0, value as u32)
        }),
{
    let word = wasm::water_fields(pixels)[field].1 as u32;
    let bytes = crate::bytes::le_bytes(word);
    assert(bytes[0] == word % 256);
    assert(bytes[1] == word / 256 % 256);
    assert(bytes[2] == word / 65_536 % 256);
    assert(bytes[3] == word / 16_777_216);
}

/// Five fields of the state are written, one after the other, and then the water rests with no tick
/// counted: the raster, its length, its format, its width and its height.
pub proof fn lemma_five_fields_are_written(
    state: i32,
    pixels: i32,
    field: usize,
    next: (WaterPlan, GuestAction),
)
    requires
        field < 5,
        call_ensures(
            alpha_fluids::water_next,
            (WaterPlan::WritingField { state, pixels, field }, GuestEvent::Done),
            next,
        ),
    ensures
        field < 4 ==> next.0@ == (alpha_fluids::WaterView::WritingField {
            state,
            pixels,
            field: (field + 1) as usize,
        }) && writes_field(next.1, state, pixels, field + 1),
        field == 4 ==> next.1@ is Wait && next.0@ == (alpha_fluids::WaterView::Resting {
            state,
            ticks: 0,
            capture: None,
        }),
{
    if field < 4 {
        lemma_field(pixels, field + 1);
    }
}

/// A tick of the water forgets the uploads of the one before it, counts one tick further and steps the
/// state at that tick. Two uploads are shown, the still one first; without any the last two are shown
/// again, and anything else fails, as does nothing at the first step.
pub proof fn lemma_a_tick_of_the_water(
    state: i32,
    ticks: u64,
    capture: WaterCapture,
    uploads: Vec<Vec<u8>>,
    steps: ((WaterPlan, GuestAction), (WaterPlan, GuestAction), (WaterPlan, GuestAction)),
)
    requires
        ticks < u64::MAX,
        call_ensures(
            alpha_fluids::water_next,
            (WaterPlan::Resting { state, ticks, capture }, GuestEvent::Tick),
            steps.0,
        ),
        call_ensures(alpha_fluids::water_next, ((steps.0).0, GuestEvent::Done), steps.1),
        call_ensures(alpha_fluids::water_next, ((steps.1).0, GuestEvent::Uploads(uploads)), steps.2),
    ensures
        (steps.0).1@ is ForgetUploads,
        (steps.1).1@ is StepWater && (steps.1).1@->StepWater_state == state && (steps.1).1@->tick == ticks
            + 1,
        uploads@.len() == 2 ==> (steps.2).1@ is Show && (steps.2).1@->still == uploads@[0]@
            && (steps.2).1@->flowing == uploads@[1]@,
        uploads@.len() == 0 && capture.last_uploads is Some ==> (steps.2).1@ is Show
            && (steps.2).1@->still == (capture.last_uploads->0).0@ && (steps.2).1@->flowing == (
        capture.last_uploads->0).1@,
        uploads@.len() == 0 && capture.last_uploads is None ==> (steps.2).1@
            == alpha_fluids::ActionView::Fail(WaterError::NoInitialUploads),
        uploads@.len() == 1 || uploads@.len() > 2 ==> (steps.2).1@ == alpha_fluids::ActionView::Fail(
            WaterError::UnexpectedUploads { count: uploads@.len() as usize },
        ),
        (steps.2).0@ is Resting && (steps.2).0@->Resting_state == state && (steps.2).0@->Resting_ticks
            == ticks + 1,
{
    let seen = uploads@.map_values(|upload: Vec<u8>| upload@);
    assert(seen.len() == uploads@.len());
    if uploads@.len() == 2 {
        assert(seen[0] == uploads@[0]@ && seen[1] == uploads@[1]@);
    }
}

/// An event that answers nothing that was asked for changes nothing, for either fluid.
pub proof fn lemma_a_stray_event_changes_nothing(
    memory: LavaMemory,
    lava: (LavaPlan, GuestAction),
    state: i32,
    ticks: u64,
    capture: WaterCapture,
    water: (WaterPlan, GuestAction),
)
    requires
        call_ensures(
            alpha_fluids::lava_next,
            (LavaPlan::Resting(memory), GuestEvent::Done),
            lava,
        ),
        call_ensures(
            alpha_fluids::water_next,
            (WaterPlan::Resting { state, ticks, capture }, GuestEvent::Done),
            water,
        ),
    ensures
        lava.0@ == alpha_fluids::LavaView::Resting(memory) && lava.1@ is Wait,
        water.0@ == (alpha_fluids::WaterView::Resting { state, ticks, capture: capture.rasters() })
            && water.1@ is Wait,
{
}

/// The last pair of rasters is kept until another pair comes.
pub proof fn lemma_the_last_pair_is_kept(
    fresh: WaterCapture,
    first: &mut WaterCapture,
    second: &mut WaterCapture,
    uploads: Vec<Vec<u8>>,
    more: Vec<Vec<u8>>,
    settled: Result<(), WaterError>,
    settled_again: Result<(), WaterError>,
)
    requires
        call_ensures(WaterCapture::new, (), fresh),
        *old(first) == fresh,
        call_ensures(WaterCapture::settle, (first, uploads), settled),
        *old(second) == *final(first),
        call_ensures(WaterCapture::settle, (second, more), settled_again),
    ensures
        settled is Ok <==> uploads@.len() == 2,
        uploads@.len() == 2 ==> final(first).rasters() == Some((uploads@[0]@, uploads@[1]@)),
        uploads@.len() == 0 ==> settled == Err::<(), WaterError>(WaterError::NoInitialUploads),
        uploads@.len() == 2 && more@.len() != 2 ==> final(second).rasters() == final(first).rasters(),
        uploads@.len() == 2 && more@.len() == 0 ==> settled_again is Ok,
        more@.len() == 2 ==> settled_again is Ok && final(second).rasters() == Some(
            (more@[0]@, more@[1]@),
        ),
        more@.len() == 1 || more@.len() > 2 ==> settled_again == Err::<(), WaterError>(
            WaterError::UnexpectedUploads { count: more@.len() as usize },
        ),
{
    let seen = uploads@.map_values(|upload: Vec<u8>| upload@);
    let seen_again = more@.map_values(|upload: Vec<u8>| upload@);
    assert(seen.len() == uploads@.len() && seen_again.len() == more@.len());
    if uploads@.len() == 2 {
        assert(seen[0] == uploads@[0]@ && seen[1] == uploads@[1]@);
    }
    if more@.len() == 2 {
        assert(seen_again[0] == more@[0]@ && seen_again[1] == more@[1]@);
    }
}

/// A range of the module's memory is taken exactly if both its parameters are numbers, neither is
/// negative, and it ends within the memory. Each way to miss that has its own error, the pointer
/// before the length and the memory last.
pub proof fn lemma_how_a_range_is_refused(
    params: &[Option<i32>],
    at: usize,
    length_at: usize,
    memory: Option<usize>,
    range: Result<(usize, usize), HostCallError>,
    pointer: Result<i32, HostCallError>,
    length: Result<i32, HostCallError>,
)
    requires
        call_ensures(wasm::i32_parameter, (params, at), pointer),
        call_ensures(wasm::i32_parameter, (params, length_at), length),
        call_ensures(wasm::checked_guest_range, (params, at, length_at, memory), range),
    ensures
        pointer is Ok <==> at < params@.len() && params@[at as int] is Some,
        pointer is Ok ==> params@[at as int] == Some(pointer->Ok_0),
        pointer is Err ==> pointer->Err_0 == (HostCallError::NotI32 { index: at }),
        pointer is Err ==> range == Err::<(usize, usize), HostCallError>(pointer->Err_0),
        pointer is Ok && length is Err ==> range == Err::<(usize, usize), HostCallError>(
            length->Err_0,
        ),
        pointer is Ok && length is Ok && pointer->Ok_0 < 0 ==> range == Err::<
            (usize, usize),
            HostCallError,
        >(HostCallError::NegativePointer),
        pointer is Ok && length is Ok && pointer->Ok_0 >= 0 && length->Ok_0 < 0 ==> range == Err::<
            (usize, usize),
            HostCallError,
        >(HostCallError::NegativeLength),
        pointer is Ok && length is Ok && pointer->Ok_0 >= 0 && length->Ok_0 >= 0 && memory is None
            ==> range == Err::<(usize, usize), HostCallError>(HostCallError::NoMemory),
        pointer is Ok && length is Ok && pointer->Ok_0 >= 0 && length->Ok_0 >= 0 && memory is Some
            && pointer->Ok_0 + length->Ok_0 > memory->0 ==> range == Err::<
            (usize, usize),
            HostCallError,
        >(
            HostCallError::BeyondMemory {
                start: pointer->Ok_0 as usize,
                end: (pointer->Ok_0 + length->Ok_0) as usize,
                size: memory->0,
            },
        ),
        pointer is Ok && length is Ok && pointer->Ok_0 >= 0 && length->Ok_0 >= 0 && memory is Some
            && pointer->Ok_0 + length->Ok_0 <= memory->0 ==> range == Ok::<
            (usize, usize),
            HostCallError,
        >((pointer->Ok_0 as usize, length->Ok_0 as usize)),
{
}

/// An upload with one wrong value is told where it is wrong, what stands there and what should.
pub proof fn lemma_the_wrong_value_of_an_upload_is_told(
    params: &[Option<i32>],
    sound: Seq<Option<i32>>,
    place: int,
    actual: i32,
    memory: Option<usize>,
    pointer: Result<usize, HostCallError>,
)
    requires
        uploads_a_raster(sound),
        1 <= place <= 10 && place != 9,
        sound[place] != Some(actual),
        params@ == sound.update(place, Some(actual)),
        call_ensures(wasm::check_texture_upload, (params, memory), pointer),
    ensures
        pointer == Err::<usize, HostCallError>(
            HostCallError::InvalidParameter {
                index: place as usize,
                actual,
                expected: sound[place]->0,
            },
        ),
{
    reveal_with_fuel(wasm::upload_mismatch, 10);
}

/// Binding the imports of a module is binding the imports that its bytes declare.
pub proof fn lemma_a_module_is_bound_by_its_imports(
    module: wasmi::Module,
    declared: Vec<(String, bool)>,
    bound: Result<Vec<ImportBehavior>, (usize, ImportError)>,
    listed: Result<Vec<ImportBehavior>, (usize, ImportError)>,
)
    requires
        declared@.map_values(|import: (String, bool)| (import.0@, import.1))
            == alpha_fluids::imports_in(alpha_fluids::module_code(module)),
        call_ensures(alpha_fluids::bind_imports, (&module,), bound),
        call_ensures(alpha_fluids::bind_all, (&declared,), listed),
    ensures
        bound is Ok <==> listed is Ok,
        bound is Ok ==> bound->Ok_0@ == listed->Ok_0@,
        bound is Err ==> bound->Err_0 == listed->Err_0,
{
    let imports = alpha_fluids::imports_in(alpha_fluids::module_code(module));
    if bound is Err && listed is Err {
        let (first, second) = ((bound->Err_0).0 as int, (listed->Err_0).0 as int);
        if first < second {
            assert(imports[first].1);
        } else if second < first {
            assert(imports[second].1);
        }
    }
    if bound is Err && listed is Ok {
        assert(imports[(bound->Err_0).0 as int].1);
    }
    if bound is Ok && listed is Err {
        assert(imports[(listed->Err_0).0 as int].1);
    }
}

/// A module of whole sections without an export section has nothing to add to.
pub proof fn lemma_a_module_without_exports(
    code: &[u8],
    name: &str,
    function: u32,
    patched: Result<Vec<u8>, WasmError>,
)
    requires
        code@.len() >= 8,
        code@.take(8) == seq![0u8, 97u8, 115u8, 109u8, 1u8, 0u8, 0u8, 0u8],
        wasm::has_no_exports(code@, 8),
        call_ensures(wasm::export_internal_function, (code, name, function), patched),
    ensures
        patched == Err::<Vec<u8>, WasmError>(WasmError::NoExportSection),
{
    lemma_no_exports(code@, 8);
}

proof fn lemma_no_exports(code: Seq<u8>, cursor: int)
    requires
        0 <= cursor,
        wasm::has_no_exports(code, cursor),
    ensures
        wasm::find_exports(code, cursor) == Err::<wasm::Section, WasmError>(
            WasmError::NoExportSection,
        ),
    decreases code.len() - cursor,
{
    if cursor < code.len() {
        let (length, payload_start) = wasm::uleb_at(code, cursor + 1)->Ok_0;
        lemma_no_exports(code, payload_start + length);
    }
}

} // verus!
