//! The command line: which module to show, whether to lock, and how often to switch.

use vstd::prelude::*;
use vstd::string::StringExecFns;

use crate::modules::{AlphaFluidVariant, DvdBounceVariant};
use crate::random;
use crate::text;
use crate::text::{chars_of, decimal_string, parse_unsigned, quoted, same_text};
use crate::time::{seconds, Duration, NANOS_PER_SECOND};

verus! {

pub const MODULE_COUNT: u8 = 13;

#[derive(Clone, Copy, Debug, PartialEq, Eq, Structural)]
pub enum StartupMode {
    LayerShell,
    SessionLock,
}

#[derive(Clone, Copy, Debug, PartialEq, Eq, Structural)]
pub enum ModuleSelection {
    LoadCube,
    ItemPop,
    ItemBounce,
    DvdBounce(DvdBounceVariant),
    AlphaFluids(AlphaFluidVariant),
    Panorama,
    Footprint,
    Grass,
    Blocks,
    Squid,
    Creeper,
}

/// The modules by their numbers.
pub open spec fn module_table() -> Seq<ModuleSelection> {
    seq![
        ModuleSelection::LoadCube,
        ModuleSelection::DvdBounce(DvdBounceVariant::Trail),
        ModuleSelection::DvdBounce(DvdBounceVariant::Direct),
        ModuleSelection::ItemPop,
        ModuleSelection::AlphaFluids(AlphaFluidVariant::Water),
        ModuleSelection::AlphaFluids(AlphaFluidVariant::Lava),
        ModuleSelection::Panorama,
        ModuleSelection::Footprint,
        ModuleSelection::Squid,
        ModuleSelection::ItemBounce,
        ModuleSelection::Grass,
        ModuleSelection::Blocks,
        ModuleSelection::Creeper,
    ]
}

pub open spec fn module_numbered(module_id: nat) -> Option<ModuleSelection> {
    if module_id < MODULE_COUNT {
        Some(module_table()[module_id as int])
    } else {
        None
    }
}

impl ModuleSelection {
    pub fn from_id(module_id: u8) -> (selection: Option<ModuleSelection>)
        ensures
            selection == module_numbered(module_id as nat),
    {
        if module_id == 0 {
            Some(ModuleSelection::LoadCube)
        } else if module_id == 1 {
            Some(ModuleSelection::DvdBounce(DvdBounceVariant::Trail))
        } else if module_id == 2 {
            Some(ModuleSelection::DvdBounce(DvdBounceVariant::Direct))
        } else if module_id == 3 {
            Some(ModuleSelection::ItemPop)
        } else if module_id == 4 {
            Some(ModuleSelection::AlphaFluids(AlphaFluidVariant::Water))
        } else if module_id == 5 {
            Some(ModuleSelection::AlphaFluids(AlphaFluidVariant::Lava))
        } else if module_id == 6 {
            Some(ModuleSelection::Panorama)
        } else if module_id == 7 {
            Some(ModuleSelection::Footprint)
        } else if module_id == 8 {
            Some(ModuleSelection::Squid)
        } else if module_id == 9 {
            Some(ModuleSelection::ItemBounce)
        } else if module_id == 10 {
            Some(ModuleSelection::Grass)
        } else if module_id == 11 {
            Some(ModuleSelection::Blocks)
        } else if module_id == 12 {
            Some(ModuleSelection::Creeper)
        } else {
            None
        }
    }

    pub fn id(self) -> (module_id: u8)
        ensures
            module_id < MODULE_COUNT,
            module_table()[module_id as int] == self,
    {
        match self {
            ModuleSelection::LoadCube => 0,
            ModuleSelection::DvdBounce(DvdBounceVariant::Trail) => 1,
            ModuleSelection::DvdBounce(DvdBounceVariant::Direct) => 2,
            ModuleSelection::ItemPop => 3,
            ModuleSelection::AlphaFluids(AlphaFluidVariant::Water) => 4,
            ModuleSelection::AlphaFluids(AlphaFluidVariant::Lava) => 5,
            ModuleSelection::Panorama => 6,
            ModuleSelection::Footprint => 7,
            ModuleSelection::Squid => 8,
            ModuleSelection::ItemBounce => 9,
            ModuleSelection::Grass => 10,
            ModuleSelection::Blocks => 11,
            ModuleSelection::Creeper => 12,
        }
    }
}

/// Every module has exactly one number, so a number read back from a module is the one it was
/// chosen by.
pub proof fn lemma_module_numbers_are_unique(first: int, second: int)
    requires
        0 <= first < module_table().len(),
        0 <= second < module_table().len(),
        module_table()[first] == module_table()[second],
    ensures
        first == second,
        module_table().len() == MODULE_COUNT,
{
}

#[derive(Clone, Copy, Debug, PartialEq, Eq, Structural)]
pub struct StartupOptions {
    pub mode: StartupMode,
    pub module: ModuleSelection,
    pub module_switch_interval: Option<Duration>,
}

/// What the command line says, before a module is drawn for a line that names none.
#[derive(Clone, Copy, Debug, PartialEq, Eq, Structural)]
pub struct StartupArguments {
    pub mode: StartupMode,
    pub module: Option<ModuleSelection>,
    pub interval_seconds: Option<u64>,
}

#[derive(Clone, Copy, Debug, PartialEq, Eq, Structural)]
pub enum OptionsError {
    MissingModule,
    ModuleNotANumber,
    ModuleOutOfRange { module_id: u8 },
    MissingInterval,
    IntervalNotANumber,
    HelpRequested,
    UnknownArgument { position: usize },
    Conflict,
}

/// The texts of a list of arguments.
pub open spec fn argument_texts(arguments: Seq<String>) -> Seq<Seq<char>> {
    arguments.map_values(|argument: String| argument@)
}

pub open spec fn names_module(argument: Seq<char>) -> bool {
    argument == "--module"@ || argument == "-m"@
}

pub open spec fn names_interval(argument: Seq<char>) -> bool {
    argument == "--interval"@ || argument == "-t"@
}

pub open spec fn asks_for_help(argument: Seq<char>) -> bool {
    argument == "--help"@ || argument == "-h"@
}

/// Reads the arguments from `position` on, with `read` for those before it. The first argument
/// that is wrong decides the error; an option given again overrides what it said before.
pub open spec fn read_from(
    arguments: Seq<Seq<char>>,
    position: int,
    read: StartupArguments,
) -> Result<StartupArguments, OptionsError>
    decreases arguments.len() - position,
{
    if position < 0 || position >= arguments.len() {
        Ok(read)
    } else if arguments[position] == "--lock"@ {
        read_from(
            arguments,
            position + 1,
            StartupArguments { mode: StartupMode::SessionLock, ..read },
        )
    } else if names_module(arguments[position]) {
        if position + 1 >= arguments.len() {
            Err(OptionsError::MissingModule)
        } else {
            match text::unsigned_number(arguments[position + 1], u8::MAX as nat) {
                None => Err(OptionsError::ModuleNotANumber),
                Some(number) => match module_numbered(number) {
                    None => Err(OptionsError::ModuleOutOfRange { module_id: number as u8 }),
                    Some(module) => read_from(
                        arguments,
                        position + 2,
                        StartupArguments { module: Some(module), ..read },
                    ),
                },
            }
        }
    } else if names_interval(arguments[position]) {
        if position + 1 >= arguments.len() {
            Err(OptionsError::MissingInterval)
        } else {
            match text::unsigned_number(arguments[position + 1], u64::MAX as nat) {
                None => Err(OptionsError::IntervalNotANumber),
                Some(number) => read_from(
                    arguments,
                    position + 2,
                    StartupArguments { interval_seconds: Some(number as u64), ..read },
                ),
            }
        }
    } else if asks_for_help(arguments[position]) {
        Err(OptionsError::HelpRequested)
    } else {
        Err(OptionsError::UnknownArgument { position: position as usize })
    }
}

/// What a command line says. A fixed module and an interval, even one of zero, exclude each other.
pub open spec fn arguments_read(arguments: Seq<Seq<char>>) -> Result<
    StartupArguments,
    OptionsError,
> {
    let nothing = StartupArguments {
        mode: StartupMode::LayerShell,
        module: None,
        interval_seconds: None,
    };
    match read_from(arguments, 0, nothing) {
        Ok(read) if read.module is Some && read.interval_seconds is Some => Err(
            OptionsError::Conflict,
        ),
        result => result,
    }
}

pub open spec fn options_with(read: StartupArguments, drawn: ModuleSelection) -> StartupOptions {
    StartupOptions {
        mode: read.mode,
        module: match read.module {
            Some(module) => module,
            None => drawn,
        },
        module_switch_interval: match read.interval_seconds {
            Some(count) if count > 0 => Some((count * NANOS_PER_SECOND) as u128),
            _ => None,
        },
    }
}

/// Reads a command line, without the name of the program.
pub fn parse_arguments(arguments: &Vec<String>) -> (read: Result<StartupArguments, OptionsError>)
    ensures
        read == arguments_read(argument_texts(arguments@)),
{
    let ghost all = argument_texts(arguments@);
    let ghost nothing = StartupArguments {
        mode: StartupMode::LayerShell,
        module: None,
        interval_seconds: None,
    };
    let mut read = StartupArguments {
        mode: StartupMode::LayerShell,
        module: None,
        interval_seconds: None,
    };
    let mut position: usize = 0;
    while position < arguments.len()
        invariant
            position <= arguments@.len(),
            all == argument_texts(arguments@),
            read_from(all, 0, nothing) == read_from(all, position as int, read),
            nothing == (StartupArguments {
                mode: StartupMode::LayerShell,
                module: None,
                interval_seconds: None,
            }),
        decreases arguments@.len() - position,
    {
        let argument = arguments[position].as_str();
        assert(all[position as int] == argument@);
        if same_text(argument, "--lock") {
            read.mode = StartupMode::SessionLock;
            position = position + 1;
        } else if same_text(argument, "--module") || same_text(argument, "-m") {
            if position + 1 >= arguments.len() {
                return Err(OptionsError::MissingModule);
            }
            let value = chars_of(arguments[position + 1].as_str());
            assert(all[position + 1] == value@);
            match parse_unsigned(&value, u8::MAX as u64) {
                None => return Err(OptionsError::ModuleNotANumber),
                Some(number) => {
                    let module_id: u8 = number as u8;
                    match ModuleSelection::from_id(module_id) {
                        None => return Err(OptionsError::ModuleOutOfRange { module_id }),
                        Some(module) => {
                            read.module = Some(module);
                        },
                    }
                },
            }
            position = position + 2;
        } else if same_text(argument, "--interval") || same_text(argument, "-t") {
            if position + 1 >= arguments.len() {
                return Err(OptionsError::MissingInterval);
            }
            let value = chars_of(arguments[position + 1].as_str());
            assert(all[position + 1] == value@);
            match parse_unsigned(&value, u64::MAX) {
                None => return Err(OptionsError::IntervalNotANumber),
                Some(number) => {
                    read.interval_seconds = Some(number);
                },
            }
            position = position + 2;
        } else if same_text(argument, "--help") || same_text(argument, "-h") {
            return Err(OptionsError::HelpRequested);
        } else {
            return Err(OptionsError::UnknownArgument { position });
        }
    }
    if read.module.is_some() && read.interval_seconds.is_some() {
        return Err(OptionsError::Conflict);
    }
    Ok(read)
}

/// Completes what the command line says with the module drawn for a line that names none. An
/// interval of zero switches nothing.
pub fn complete_options(read: StartupArguments, drawn: ModuleSelection) -> (options: StartupOptions)
    ensures
        options == options_with(read, drawn),
{
    StartupOptions {
        mode: read.mode,
        module: match read.module {
            Some(module) => module,
            None => drawn,
        },
        module_switch_interval: match read.interval_seconds {
            Some(count) => if count > 0 {
                Some(seconds(count))
            } else {
                None
            },
            None => None,
        },
    }
}

/// Reads a command line and draws a module for one that names none.
pub fn parse_options(arguments: &Vec<String>) -> (options: Result<StartupOptions, OptionsError>)
    ensures
        match arguments_read(argument_texts(arguments@)) {
            Err(error) => options == Err::<StartupOptions, OptionsError>(error),
            Ok(read) => exists|module_id: int|
                0 <= module_id < MODULE_COUNT && options == Ok::<StartupOptions, OptionsError>(
                    options_with(read, #[trigger] module_table()[module_id]),
                ),
        },
{
    match parse_arguments(arguments) {
        Err(error) => Err(error),
        Ok(read) => Ok(complete_options(read, random_module())),
    }
}

fn random_module() -> (module: ModuleSelection)
    ensures
        exists|module_id: int|
            0 <= module_id < MODULE_COUNT && module == #[trigger] module_table()[module_id],
{
    let module_id: usize = random::below(MODULE_COUNT as usize);
    match ModuleSelection::from_id(module_id as u8) {
        Some(module) => module,
        None => ModuleSelection::LoadCube,
    }
}

pub open spec fn help_text() -> Seq<char> {
    "Usage: minecraft-plus-wayland [--lock] [--module|-m <n> | --interval|-t <seconds>]\n\nWithout --module, one of the 13 Web modules is selected randomly at startup. --interval/-t switches to a different random module every whole <seconds>; 0 or omitting the option disables switching. --interval/-t conflicts with --module/-m. --module 0 selects Web module=0 (load cube); --module 1 selects module=1 (dvd bounce trail); --module 2 selects module=2 (dvd bounce direct); --module 3 selects module=3 (item pop); --module 4 selects module=4 (alpha fluids water); --module 5 selects module=5 (alpha fluids lava); --module 6 selects module=6 (panorama); --module 7 selects module=7 (footprint); --module 8 selects module=8 (squid); --module 9 selects module=9 (item bounce); --module 10 selects module=10 (grass); --module 11 selects module=11 (blocks); --module 12 selects module=12 (creeper)."@
}

pub open spec fn usage_hint() -> Seq<char> {
    "; usage: minecraft-plus-wayland [--lock] [--module|-m <n> | --interval|-t <seconds>]"@
}

/// The message of an error in the given arguments.
pub open spec fn error_text(error: OptionsError, arguments: Seq<Seq<char>>) -> Seq<char> {
    match error {
        OptionsError::MissingModule => "--module/-m requires a module number"@,
        OptionsError::ModuleNotANumber => "--module/-m requires an integer module number"@,
        OptionsError::ModuleOutOfRange { module_id } => "module="@ + text::decimal_text(
            module_id as nat,
        ) + " is outside the valid range 0..=12"@,
        OptionsError::MissingInterval => "--interval/-t requires a number of seconds"@,
        OptionsError::IntervalNotANumber =>
            "--interval/-t requires a non-negative integer number of seconds"@,
        OptionsError::HelpRequested => help_text(),
        OptionsError::UnknownArgument { position } => "unknown argument "@ + text::quoted_text(
            arguments[position as int],
        ) + usage_hint(),
        OptionsError::Conflict => "--module/-m conflicts with --interval/-t"@,
    }
}

impl OptionsError {
    /// The message for the user, who wrote the given arguments.
    pub fn message(self, arguments: &Vec<String>) -> (message: String)
        requires
            self matches OptionsError::UnknownArgument { position } ==> position
                < arguments@.len(),
        ensures
            message@ == error_text(self, argument_texts(arguments@)),
    {
        match self {
            OptionsError::MissingModule => "--module/-m requires a module number".to_owned(),
            OptionsError::ModuleNotANumber =>
                "--module/-m requires an integer module number".to_owned(),
            OptionsError::ModuleOutOfRange { module_id } => {
                let mut message = "module=".to_owned();
                message.append(decimal_string(module_id as u64).as_str());
                message.append(" is outside the valid range 0..=12");
                message
            },
            OptionsError::MissingInterval =>
                "--interval/-t requires a number of seconds".to_owned(),
            OptionsError::IntervalNotANumber =>
                "--interval/-t requires a non-negative integer number of seconds".to_owned(),
            OptionsError::HelpRequested =>
                "Usage: minecraft-plus-wayland [--lock] [--module|-m <n> | --interval|-t <seconds>]\n\nWithout --module, one of the 13 Web modules is selected randomly at startup. --interval/-t switches to a different random module every whole <seconds>; 0 or omitting the option disables switching. --interval/-t conflicts with --module/-m. --module 0 selects Web module=0 (load cube); --module 1 selects module=1 (dvd bounce trail); --module 2 selects module=2 (dvd bounce direct); --module 3 selects module=3 (item pop); --module 4 selects module=4 (alpha fluids water); --module 5 selects module=5 (alpha fluids lava); --module 6 selects module=6 (panorama); --module 7 selects module=7 (footprint); --module 8 selects module=8 (squid); --module 9 selects module=9 (item bounce); --module 10 selects module=10 (grass); --module 11 selects module=11 (blocks); --module 12 selects module=12 (creeper).".to_owned(),
            OptionsError::UnknownArgument { position } => {
                let mut message = "unknown argument ".to_owned();
                message.append(quoted(arguments[position].as_str()).as_str());
                message.append(
                    "; usage: minecraft-plus-wayland [--lock] [--module|-m <n> | --interval|-t <seconds>]",
                );
                message
            },
            OptionsError::Conflict => "--module/-m conflicts with --interval/-t".to_owned(),
        }
    }
}

proof fn lemma_error_position(
    arguments: Seq<Seq<char>>,
    position: int,
    read: StartupArguments,
)
    requires
        0 <= position <= arguments.len() <= usize::MAX,
    ensures
        read_from(arguments, position, read) matches Err(OptionsError::UnknownArgument { position })
            ==> position < arguments.len(),
    decreases arguments.len() - position,
{
    if position < arguments.len() {
        lemma_error_position(
            arguments,
            position + 1,
            StartupArguments { mode: StartupMode::SessionLock, ..read },
        );
        if position + 1 < arguments.len() {
            if let Some(number) = text::unsigned_number(arguments[position + 1], u8::MAX as nat) {
                if let Some(module) = module_numbered(number) {
                    lemma_error_position(
                        arguments,
                        position + 2,
                        StartupArguments { module: Some(module), ..read },
                    );
                }
            }
            if let Some(number) = text::unsigned_number(arguments[position + 1], u64::MAX as nat) {
                lemma_error_position(
                    arguments,
                    position + 2,
                    StartupArguments { interval_seconds: Some(number as u64), ..read },
                );
            }
        }
    }
}

/// An error that a command line gives can be explained with that command line.
pub proof fn lemma_errors_can_be_explained(arguments: Seq<Seq<char>>)
    requires
        arguments.len() <= usize::MAX,
    ensures
        arguments_read(arguments) matches Err(OptionsError::UnknownArgument { position })
            ==> position < arguments.len(),
{
    lemma_error_position(
        arguments,
        0,
        StartupArguments { mode: StartupMode::LayerShell, module: None, interval_seconds: None },
    );
}

} // verus!
