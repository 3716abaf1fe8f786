//! What the user is told of an error.

use vstd::prelude::*;

use crate::lock::identity::IdentityError;
use crate::lock::pam::error::{PamError, PamErrorKind, PamErrorStage};
use crate::lock::pam::secret::SecretError;
use crate::modules;
use crate::modules::alpha_fluids::ImportError;
use crate::modules::block_list::{LayoutError, ListReader};
use crate::modules::item_models::{ItemReader, MeshError};
use crate::modules::panorama::PanoramaError;
use crate::options::OptionsError;
use crate::resources;
use crate::schedule::IntervalTooLarge;
use crate::splash::SplashError;
use crate::text;
use crate::text::NumberError;
use crate::wasm::{HostCallError, WasmError, WaterError};

verus! {

/// The help names every option and every module with its number, and each error of the command line
/// is told in its own words. A number that is no module is told with the number.
pub proof fn lemma_what_is_said_of_the_command_line(
    error: OptionsError,
    arguments: Vec<String>,
    number: u64,
    spelled: String,
    message: String,
)
    requires
        error matches OptionsError::UnknownArgument { position } ==> position < arguments@.len(),
        call_ensures(OptionsError::message, (error, &arguments), message),
        error matches OptionsError::ModuleOutOfRange { module_id } ==> number == module_id,
        call_ensures(text::decimal_string, (number,), spelled),
    ensures
        error is MissingModule ==> message@ == "--module/-m requires a module number"@,
        error is ModuleNotANumber ==> message@ == "--module/-m requires an integer module number"@,
        error is ModuleOutOfRange ==> message@ == "module="@ + spelled@ + " is outside the valid range 0..=12"@,
        error is MissingInterval ==> message@ == "--interval/-t requires a number of seconds"@,
        error is IntervalNotANumber ==> message@ == "--interval/-t requires a non-negative integer number of seconds"@,
        error is Conflict ==> message@ == "--module/-m conflicts with --interval/-t"@,
        error is HelpRequested ==> message@ == "Usage: minecraft-plus-wayland [--lock] [--module|-m <n> | --interval|-t <seconds>]\n\nWithout --module, one of the 13 Web modules is selected randomly at startup. --interval/-t switches to a different random module every whole <seconds>; 0 or omitting the option disables switching. --interval/-t conflicts with --module/-m. --module 0 selects Web module=0 (load cube); --module 1 selects module=1 (dvd bounce trail); --module 2 selects module=2 (dvd bounce direct); --module 3 selects module=3 (item pop); --module 4 selects module=4 (alpha fluids water); --module 5 selects module=5 (alpha fluids lava); --module 6 selects module=6 (panorama); --module 7 selects module=7 (footprint); --module 8 selects module=8 (squid); --module 9 selects module=9 (item bounce); --module 10 selects module=10 (grass); --module 11 selects module=11 (blocks); --module 12 selects module=12 (creeper)."@,
        error matches OptionsError::UnknownArgument { position } ==> message@ == "unknown argument "@ + text::quoted_text(arguments@[position as int]@) + "; usage: minecraft-plus-wayland [--lock] [--module|-m <n> | --interval|-t <seconds>]"@,
{
}

/// An interval beyond the clock is told as such.
pub proof fn lemma_what_is_said_of_an_interval(
    error: IntervalTooLarge,
    message: &'static str,
)
    requires
        call_ensures(IntervalTooLarge::message, (error,), message),
    ensures
        message@ == "--interval is too large to schedule"@,
{
}

/// What is said of a user who cannot be trusted or found.
pub proof fn lemma_what_is_said_of_an_identity(
    error: IdentityError,
    code: i64,
    spelled: String,
    message: String,
)
    requires
        call_ensures(IdentityError::message, (error,), message),
        error matches IdentityError::Lookup(told) ==> code == told,
        call_ensures(text::signed_string, (code,), spelled),
    ensures
        error is CredentialMismatch ==> message@ == "real and effective process credentials differ"@,
        error is BufferLimit ==> message@ == "NSS passwd lookup exceeded its buffer limit"@,
        error is Lookup ==> message@ == "NSS passwd lookup failed with code "@ + spelled@,
        error is UserNotFound ==> message@ == "real UID has no passwd record"@,
        error is InvalidRecord ==> message@ == "NSS returned an invalid passwd record"@,
{
}

/// What is said of a failure of the backend: its kind, its stage and its code, where it has one.
pub proof fn lemma_what_is_said_of_the_backend(
    error: PamError,
    stage: &'static str,
    kind: &'static str,
    code: i64,
    spelled: String,
    message: String,
)
    requires
        call_ensures(PamErrorStage::name, (error.stage,), stage),
        call_ensures(PamErrorKind::name, (error.kind,), kind),
        error.code matches Some(told) ==> code == told,
        call_ensures(text::signed_string, (code,), spelled),
        call_ensures(PamError::message, (error,), message),
    ensures
        error.code is Some ==> message@ == "PAM "@ + kind@ + " failure in "@ + stage@ + " (code Some("@ + spelled@ + "))"@,
        error.code is None ==> message@ == "PAM "@ + kind@ + " failure in "@ + stage@ + " (code None)"@,
        stage@ == match error.stage {
            PamErrorStage::Start => "Start"@,
            PamErrorStage::Conversation => "Conversation"@,
            PamErrorStage::Authenticate => "Authenticate"@,
            PamErrorStage::UserCheck => "UserCheck"@,
            PamErrorStage::Account => "Account"@,
            PamErrorStage::End => "End"@,
        },
        kind@ == match error.kind {
            PamErrorKind::BackendUnavailable => "BackendUnavailable"@,
            PamErrorKind::ConversationProtocol => "ConversationProtocol"@,
            PamErrorKind::ResourceFailure => "ResourceFailure"@,
            PamErrorKind::Internal => "Internal"@,
        },
{
}

/// What is said of the memory of a password. A fault of the system is told in the words of the
/// system.
pub proof fn lemma_what_is_said_of_a_secret(
    error: SecretError,
    system: &str,
    message: String,
)
    requires
        call_ensures(SecretError::message, (error, system), message),
    ensures
        error is PageSizeUnavailable ==> message@ == "system page size is unavailable"@,
        error is Mapping ==> message@ == "failed to allocate secret memory: "@ + system@,
        error is DontDump ==> message@ == "failed to exclude secret memory from core dumps: "@ + system@,
        error is Lock ==> message@ == "failed to lock secret memory: "@ + system@,
        error is TooLong ==> message@ == "password exceeds the configured byte limit"@,
        error is ContainsNul ==> message@ == "password input contains a NUL byte"@,
{
}

/// What is said of a number that cannot be read.
pub proof fn lemma_what_is_said_of_a_number(
    error: NumberError,
    message: &'static str,
)
    requires
        call_ensures(NumberError::message, (error,), message),
    ensures
        error is Empty ==> message@ == "cannot parse integer from empty string"@,
        error is InvalidDigit ==> message@ == "invalid digit found in string"@,
        error is TooLarge ==> message@ == "number too large to fit in target type"@,
{
}

/// What is said of the faces of a model, of the list of the models and of the list of panoramas.
pub proof fn lemma_what_is_said_of_lists_and_models(
    mesh: MeshError,
    mesh_message: String,
    pop: &'static str,
    bounce: &'static str,
    names: PanoramaError,
    names_message: String,
)
    requires
        call_ensures(MeshError::message, (mesh,), mesh_message),
        call_ensures(ItemReader::manifest_message, (ItemReader::Pop,), pop),
        call_ensures(ItemReader::manifest_message, (ItemReader::Bounce,), bounce),
        call_ensures(PanoramaError::message, (names,), names_message),
    ensures
        mesh is ShortFace ==> mesh_message@ == "face has fewer than three vertices"@,
        mesh is MissingTexture ==> mesh_message@ == "missing texture index"@,
        mesh is MissingNormal ==> mesh_message@ == "missing normal index"@,
        mesh is OutOfRange ==> mesh_message@ == "index out of range"@,
        mesh is NoFaces ==> mesh_message@ == "no triangle faces"@,
        pop@ == "invalid pop_items.txt manifest"@,
        bounce@ == "pop_items.txt must contain 1044 unique item_models paths"@,
        names is NoNames ==> names_message@ == "panoramas.txt contains no panorama names"@,
        names is InvalidName ==> names_message@ == "panoramas.txt contains an invalid panorama name"@,
{
}

/// What is said of the splash table.
pub proof fn lemma_what_is_said_of_the_splashes(
    error: SplashError,
    count: u64,
    spelled: String,
    message: String,
)
    requires
        call_ensures(SplashError::message, (error,), message),
        error matches SplashError::Count(told) ==> count == told,
        call_ensures(text::decimal_string, (count,), spelled),
    ensures
        error is MissingStartMarker ==> message@ == "Web WASM does not contain the splash-table start marker"@,
        error is AmbiguousStartMarker ==> message@ == "Web WASM contains more than one splash-table start marker"@,
        error is MissingFallback ==> message@ == "Web WASM does not contain the splash fallback after the table"@,
        error is Text ==> message@ == "Web WASM splash table is not valid UTF-8"@,
        error is MissingFinalNewline ==> message@ == "Web WASM splash table does not end with a newline"@,
        error is Count ==> message@ == "Web WASM splash table contains "@ + spelled@ + " entries instead of 142"@,
        error is EmptyEntry ==> message@ == "Web WASM splash table contains an empty entry"@,
{
}

/// What is said of a module that cannot be given its export, of one that uploads what it should
/// not, and of an import that is no function.
pub proof fn lemma_what_is_said_of_a_module(
    error: WasmError,
    message: String,
    water: WaterError,
    count: u64,
    spelled: String,
    water_message: String,
    import: ImportError,
    module: &str,
    name: &str,
    import_message: String,
)
    requires
        call_ensures(WasmError::message, (error,), message),
        water matches WaterError::UnexpectedUploads { count: told } ==> count == told,
        call_ensures(text::decimal_string, (count,), spelled),
        call_ensures(WaterError::message, (water,), water_message),
        call_ensures(ImportError::message, (import, module, name), import_message),
    ensures
        error is InvalidHeader ==> message@ == "original Web WASM has an invalid header"@,
        error is TruncatedNumber ==> message@ == "truncated ULEB128 value"@,
        error is NumberTooLarge ==> message@ == "ULEB128 value is too large"@,
        error is SectionBeyondFile ==> message@ == "WASM section extends beyond file"@,
        error is CountBeyondSection ==> message@ == "WASM export count extends beyond its section"@,
        error is TooManyExports ==> message@ == "WASM section has too many exports"@,
        error is TooLarge ==> message@ == "WASM export section is too large"@,
        error is NoExportSection ==> message@ == "original Web WASM has no export section"@,
        water is NoInitialUploads ==> water_message@ == "original Web water function produced no initial texture uploads"@,
        water is UnexpectedUploads ==> water_message@ == "original Web water function produced "@ + spelled@ + " texture uploads, expected 0 or 2"@,
        import_message@ == "unexpected non-function Web import "@ + module@ + "::"@ + name@,
{
}

/// What is said of a call of the module that the host refuses, under the name of the import.
pub proof fn lemma_what_is_said_of_a_host_call(
    error: HostCallError,
    name: &str,
    message: String,
    numbers: (u64, u64, u64),
    spelled: (String, String, String),
    signed: (i64, i64),
    signed_spelled: (String, String),
)
    requires
        call_ensures(HostCallError::message, (error, name), message),
        call_ensures(text::decimal_string, (numbers.0,), spelled.0),
        call_ensures(text::decimal_string, (numbers.1,), spelled.1),
        call_ensures(text::decimal_string, (numbers.2,), spelled.2),
        call_ensures(text::signed_string, (signed.0,), signed_spelled.0),
        call_ensures(text::signed_string, (signed.1,), signed_spelled.1),
        match error {
            HostCallError::ParameterCount { received, wanted } => numbers.0 == received && numbers.1
                == wanted,
            HostCallError::NotI32 { index } => numbers.0 == index,
            HostCallError::InvalidParameter { actual, expected, .. } => signed.0 == actual
                && signed.1 == expected,
            HostCallError::BeyondMemory { start, end, size } => numbers.0 == start && numbers.1
                == end && numbers.2 == size,
            _ => true,
        },
    ensures
        error is ParameterCount ==> message@ == name@ + " received "@ + spelled.0@ + " parameters, expected "@ + spelled.1@,
        error is NotI32 ==> message@ == name@ + " parameter "@ + spelled.0@ + " is not i32"@,
        error matches HostCallError::InvalidParameter { index, .. } ==> message@ == name@ + " received invalid "@ + parameter_name(index) + " "@ + signed_spelled.0@ + ", expected "@ + signed_spelled.1@,
        error is NegativePointer ==> message@ == name@ + " received negative guest pointer"@,
        error is NegativeLength ==> message@ == name@ + " received negative length"@,
        error is NoMemory ==> message@ == name@ + " could not access guest memory"@,
        error is BeyondMemory ==> message@ == name@ + " guest range "@ + spelled.0@ + ".."@ + spelled.1@ + " exceeds memory size "@ + spelled.2@,
{
}

/// How a parameter of a texture upload is called, by its place.
pub open spec fn parameter_name(index: usize) -> Seq<char> {
    match index {
        1usize => "target"@,
        2usize => "level"@,
        3usize => "internalformat"@,
        4usize => "width"@,
        5usize => "height"@,
        6usize => "border"@,
        7usize => "format"@,
        8usize => "type"@,
        _ => "length"@,
    }
}

/// What is said of an image of other dimensions than the wanted ones: the name, the wanted ones and
/// those it has, the width before the height.
pub proof fn lemma_what_is_said_of_dimensions(
    name: &str,
    width: u32,
    height: u32,
    wanted_width: u32,
    wanted_height: u32,
    spelled: (String, String, String, String),
    message: String,
)
    requires
        call_ensures(text::decimal_string, (width as u64,), spelled.0),
        call_ensures(text::decimal_string, (height as u64,), spelled.1),
        call_ensures(text::decimal_string, (wanted_width as u64,), spelled.2),
        call_ensures(text::decimal_string, (wanted_height as u64,), spelled.3),
        call_ensures(
            resources::dimensions_message,
            (name, width, height, wanted_width, wanted_height),
            message,
        ),
    ensures
        message@ == name@ + " must be "@ + spelled.2@ + "x"@ + spelled.3@ + ", got "@ + spelled.0@ + "x"@ + spelled.1@,
{
}

/// What the readers of the block list say of it. The cube has words of its own for the head of the
/// list and for its length, and the bouncing block for the width of its atlas.
pub proof fn lemma_what_is_said_of_a_block_list(
    error: LayoutError,
    numbers: (u64, u64),
    spelled: (String, String),
    fault: NumberError,
    reason: &'static str,
    blocks: String,
    bounce: String,
    cube: String,
)
    requires
        call_ensures(text::decimal_string, (numbers.0,), spelled.0),
        call_ensures(text::decimal_string, (numbers.1,), spelled.1),
        call_ensures(NumberError::message, (fault,), reason),
        match error {
            LayoutError::LineWidth(told) | LayoutError::SlotCount(told) | LayoutError::Row(_, told)
            | LayoutError::Column(_, told) => fault == told,
            LayoutError::AtlasWidth(told) | LayoutError::AtlasHeight(told) => numbers.0 == told,
            LayoutError::MissingRow(told) | LayoutError::MissingColumn(told)
            | LayoutError::InvalidEntry(told) => numbers.0 == told,
            LayoutError::Listed { declared, listed } => numbers.0 == declared && numbers.1 == listed,
            _ => true,
        },
        call_ensures(LayoutError::message, (error, ListReader::Blocks), blocks),
        call_ensures(LayoutError::message, (error, ListReader::Bounce), bounce),
        call_ensures(LayoutError::message, (error, ListReader::Cube), cube),
    ensures
        error is MissingLineWidth ==> blocks@ == "full_blocks.txt is missing "@ + "line width"@ && bounce@ == blocks@ && cube@ == "full_blocks.txt is missing its "@ + "line width"@,
        error is MissingSlotCount ==> blocks@ == "full_blocks.txt is missing "@ + "slot count"@ && bounce@ == blocks@ && cube@ == "full_blocks.txt is missing its "@ + "slot count"@,
        error is LineWidth ==> blocks@ == "cannot parse "@ + "line width"@ + " in full_blocks.txt: "@ + reason@ && bounce@ == blocks@ && cube@ == reason@,
        error is SlotCount ==> blocks@ == "cannot parse "@ + "slot count"@ + " in full_blocks.txt: "@ + reason@ && bounce@ == blocks@ && cube@ == reason@,
        error is ZeroDimension ==> blocks@ == "full_blocks.txt must contain non-zero dimensions"@ && bounce@ == blocks@ && cube@ == "full_blocks.txt has a zero line width or slot count"@,
        error is AtlasWidth ==> blocks@ == "full_blocks.txt line width "@ + spelled.0@ + " does not describe a 512px, 16px-tile atlas"@ && cube@ == blocks@ && bounce@ == "full_blocks.txt line width "@ + spelled.0@ + " does not describe the 512px atlas"@,
        error is AtlasHeight ==> blocks@ == "full_blocks.txt has "@ + spelled.0@ + " slots, exceeding the 512x512 atlas"@,
        error is AtlasOverflow ==> cube@ == "atlas width overflow"@,
        error is MissingRow ==> bounce@ == "missing row in full_blocks.txt entry "@ + spelled.0@,
        error is MissingColumn ==> bounce@ == "missing column in full_blocks.txt entry "@ + spelled.0@,
        error is Row || error is Column ==> bounce@ == reason@,
        error is InvalidEntry ==> bounce@ == "invalid tile entry "@ + spelled.0@ + " in full_blocks.txt"@,
        error is Listed ==> blocks@ == "full_blocks.txt declares "@ + spelled.0@ + " slots but contains "@ + spelled.1@ + " entries"@ && bounce@ == blocks@ && cube@ == "full_blocks.txt slot count does not match its records"@,
{
}

/// A surface that encodes sRGB is drawn to with the shader that undoes it, every other with the
/// plain one.
pub proof fn lemma_which_shader_is_drawn_with(
    srgb: &str,
    plain: &str,
    encoded: &str,
    direct: &str,
)
    requires
        call_ensures(modules::web_surface_fragment_entry, (true, srgb, plain), encoded),
        call_ensures(modules::web_surface_fragment_entry, (false, srgb, plain), direct),
    ensures
        encoded@ == srgb@,
        direct@ == plain@,
{
}

} // verus!
