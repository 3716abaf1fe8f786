//! The command line: what each option says, and which of them excludes another.

use vstd::prelude::*;

use crate::modules::{AlphaFluidVariant, DvdBounceVariant};
use crate::options;
use crate::options::{
    ModuleSelection, OptionsError, StartupArguments, StartupMode, StartupOptions,
};
use crate::text;

verus! {

/// The module that the help names for a number.
pub open spec fn module_in_help(number: u8) -> Option<ModuleSelection> {
    match number {
        0u8 => Some(ModuleSelection::LoadCube),
        1u8 => Some(ModuleSelection::DvdBounce(DvdBounceVariant::Trail)),
        2u8 => Some(ModuleSelection::DvdBounce(DvdBounceVariant::Direct)),
        3u8 => Some(ModuleSelection::ItemPop),
        4u8 => Some(ModuleSelection::AlphaFluids(AlphaFluidVariant::Water)),
        5u8 => Some(ModuleSelection::AlphaFluids(AlphaFluidVariant::Lava)),
        6u8 => Some(ModuleSelection::Panorama),
        7u8 => Some(ModuleSelection::Footprint),
        8u8 => Some(ModuleSelection::Squid),
        9u8 => Some(ModuleSelection::ItemBounce),
        10u8 => Some(ModuleSelection::Grass),
        11u8 => Some(ModuleSelection::Blocks),
        12u8 => Some(ModuleSelection::Creeper),
        _ => None,
    }
}

/// How a user writes the number of a module.
pub open spec fn written(number: u8) -> Seq<char> {
    match number {
        0u8 => "0"@,
        1u8 => "1"@,
        2u8 => "2"@,
        3u8 => "3"@,
        4u8 => "4"@,
        5u8 => "5"@,
        6u8 => "6"@,
        7u8 => "7"@,
        8u8 => "8"@,
        9u8 => "9"@,
        10u8 => "10"@,
        11u8 => "11"@,
        _ => "12"@,
    }
}

proof fn lemma_written(number: u8)
    requires
        number <= 12,
    ensures
        text::unsigned_number(written(number), 255) == Some(number as nat),
{
    reveal_strlit("0");
    reveal_strlit("1");
    reveal_strlit("2");
    reveal_strlit("3");
    reveal_strlit("4");
    reveal_strlit("5");
    reveal_strlit("6");
    reveal_strlit("7");
    reveal_strlit("8");
    reveal_strlit("9");
    reveal_strlit("10");
    reveal_strlit("11");
    reveal_strlit("12");
    reveal_with_fuel(text::decimal_value, 3);
    let digits = written(number);
    assert(text::unsigned_digits(digits) == digits);
    if number >= 10 {
        assert(digits.drop_last() == seq![digits[0]]);
        assert(seq![digits[0]].drop_last() == Seq::<char>::empty());
    } else {
        assert(digits.drop_last() == Seq::<char>::empty());
    }
}

proof fn lemma_flags_differ()
    ensures
        "--lock"@ != "--module"@,
        "--lock"@ != "-m"@,
        "--lock"@ != "--interval"@,
        "--lock"@ != "-t"@,
        "--lock"@ != "--help"@,
        "--lock"@ != "-h"@,
        "--module"@ != "--interval"@,
        "--module"@ != "-t"@,
        "-m"@ != "--interval"@,
        "-m"@ != "-t"@,
        "--help"@ != "--module"@,
        "--help"@ != "-m"@,
        "--help"@ != "--interval"@,
        "--help"@ != "-t"@,
        "-h"@ != "--module"@,
        "-h"@ != "-m"@,
        "-h"@ != "--interval"@,
        "-h"@ != "-t"@,
{
    reveal_strlit("--lock");
    reveal_strlit("--module");
    reveal_strlit("-m");
    reveal_strlit("--interval");
    reveal_strlit("-t");
    reveal_strlit("--help");
    reveal_strlit("-h");
    assert("--lock"@[2] == 'l');
    assert("--module"@[2] == 'm');
    assert("--help"@[2] == 'h' && "--help"@.len() == 6 && "--lock"@.len() == 6);
    assert("--interval"@[2] == 'i');
    assert("-m"@[1] == 'm' && "-t"@[1] == 't' && "-h"@[1] == 'h');
    assert("-m"@.len() == 2 && "-t"@.len() == 2 && "-h"@.len() == 2);
}

/// Arguments that are accepted are read the same way with more arguments behind them.
proof fn lemma_read_before_more(
    arguments: Seq<Seq<char>>,
    more: Seq<Seq<char>>,
    position: int,
    read: StartupArguments,
)
    requires
        0 <= position <= arguments.len(),
        options::read_from(arguments, position, read) is Ok,
    ensures
        options::read_from(arguments + more, position, read) == options::read_from(
            arguments + more,
            arguments.len() as int,
            options::read_from(arguments, position, read)->Ok_0,
        ),
    decreases arguments.len() - position,
{
    if position < arguments.len() {
        let all = arguments + more;
        assert(all[position] == arguments[position]);
        if arguments[position] == "--lock"@ {
            lemma_read_before_more(
                arguments,
                more,
                position + 1,
                StartupArguments { mode: StartupMode::SessionLock, ..read },
            );
        } else if options::names_module(arguments[position]) {
            assert(all[position + 1] == arguments[position + 1]);
            let number = text::unsigned_number(arguments[position + 1], u8::MAX as nat)->0;
            lemma_read_before_more(
                arguments,
                more,
                position + 2,
                StartupArguments { module: options::module_numbered(number), ..read },
            );
        } else {
            assert(all[position + 1] == arguments[position + 1]);
            let number = text::unsigned_number(arguments[position + 1], u64::MAX as nat)->0;
            lemma_read_before_more(
                arguments,
                more,
                position + 2,
                StartupArguments { interval_seconds: Some(number as u64), ..read },
            );
        }
    }
}

/// What a line says with nothing on it, and what it says with more behind it.
proof fn lemma_line_with_more(arguments: Seq<Seq<char>>, more: Seq<Seq<char>>)
    requires
        options::arguments_read(arguments) is Ok,
    ensures
        ({
            let read = options::arguments_read(arguments)->Ok_0;
            options::arguments_read(arguments + more) == match options::read_from(
                arguments + more,
                arguments.len() as int,
                read,
            ) {
                Ok(read) if read.module is Some && read.interval_seconds is Some => Err(
                    OptionsError::Conflict,
                ),
                result => result,
            }
        }),
{
    lemma_read_before_more(
        arguments,
        more,
        0,
        StartupArguments { mode: StartupMode::LayerShell, module: None, interval_seconds: None },
    );
}

/// A line that says nothing asks for the wallpaper, names no module and sets no interval.
pub proof fn lemma_an_empty_line_says_nothing(
    line: Vec<String>,
    read: Result<StartupArguments, OptionsError>,
)
    requires
        line@.len() == 0,
        call_ensures(options::parse_arguments, (&line,), read),
    ensures
        read == Ok::<StartupArguments, OptionsError>(
            StartupArguments {
                mode: StartupMode::LayerShell,
                module: None,
                interval_seconds: None,
            },
        ),
{
    assert(options::argument_texts(line@).len() == 0);
}

/// The number given on the command line selects the module that the help names for it, for each of
/// the thirteen numbers and in both spellings of the option, whatever an accepted line said before
/// it, except that an interval excludes it. Nothing else of the line changes.
pub proof fn lemma_a_number_selects_the_module_of_the_help(
    line: Vec<String>,
    longer: Vec<String>,
    flag: Seq<char>,
    number: u8,
    read: StartupArguments,
    read_longer: Result<StartupArguments, OptionsError>,
)
    requires
        flag == "--module"@ || flag == "-m"@,
        number <= 12,
        options::argument_texts(longer@) == options::argument_texts(line@) + seq![
            flag,
            written(number),
        ],
        call_ensures(
            options::parse_arguments,
            (&line,),
            Ok::<StartupArguments, OptionsError>(read),
        ),
        call_ensures(options::parse_arguments, (&longer,), read_longer),
    ensures
        read.interval_seconds is None ==> read_longer == Ok::<StartupArguments, OptionsError>(
            StartupArguments {
                mode: read.mode,
                module: module_in_help(number),
                interval_seconds: None,
            },
        ),
        read.interval_seconds is Some ==> read_longer == Err::<StartupArguments, OptionsError>(
            OptionsError::Conflict,
        ),
{
    let before = options::argument_texts(line@);
    let more = seq![flag, written(number)];
    let all = before + more;
    lemma_line_with_more(before, more);
    lemma_flags_differ();
    lemma_written(number);
    assert(all[before.len() as int] == flag);
    assert(all[before.len() as int + 1] == written(number));
    assert(options::read_from(
        all,
        before.len() as int + 2,
        StartupArguments { module: module_in_help(number), ..read },
    ) == Ok::<StartupArguments, OptionsError>(
        StartupArguments { module: module_in_help(number), ..read },
    ));
}

/// A number that names no module is refused with the number, and what is no number at all, or
/// stands for none of 8 bits, without one.
pub proof fn lemma_other_numbers_select_nothing(
    line: Vec<String>,
    longer: Vec<String>,
    flag: Seq<char>,
    value: Seq<char>,
    read: StartupArguments,
    read_longer: Result<StartupArguments, OptionsError>,
)
    requires
        flag == "--module"@ || flag == "-m"@,
        options::argument_texts(longer@) == options::argument_texts(line@) + seq![flag, value],
        call_ensures(
            options::parse_arguments,
            (&line,),
            Ok::<StartupArguments, OptionsError>(read),
        ),
        call_ensures(options::parse_arguments, (&longer,), read_longer),
        match text::unsigned_number(value, 255) {
            Some(number) => number > 12,
            None => true,
        },
    ensures
        read_longer == Err::<StartupArguments, OptionsError>(
            match text::unsigned_number(value, 255) {
                Some(number) => OptionsError::ModuleOutOfRange { module_id: number as u8 },
                None => OptionsError::ModuleNotANumber,
            },
        ),
{
    let before = options::argument_texts(line@);
    let more = seq![flag, value];
    let all = before + more;
    lemma_line_with_more(before, more);
    lemma_flags_differ();
    assert(all[before.len() as int] == flag);
    assert(all[before.len() as int + 1] == value);
}

/// `--lock` locks the session and says nothing else, wherever it stands and however often.
pub proof fn lemma_lock_locks_the_session(
    line: Vec<String>,
    longer: Vec<String>,
    read: StartupArguments,
    read_longer: Result<StartupArguments, OptionsError>,
)
    requires
        options::argument_texts(longer@) == options::argument_texts(line@) + seq!["--lock"@],
        call_ensures(
            options::parse_arguments,
            (&line,),
            Ok::<StartupArguments, OptionsError>(read),
        ),
        call_ensures(options::parse_arguments, (&longer,), read_longer),
    ensures
        read_longer == Ok::<StartupArguments, OptionsError>(
            StartupArguments {
                mode: StartupMode::SessionLock,
                module: read.module,
                interval_seconds: read.interval_seconds,
            },
        ),
{
    let before = options::argument_texts(line@);
    let more = seq!["--lock"@];
    let all = before + more;
    lemma_line_with_more(before, more);
    assert(all[before.len() as int] == "--lock"@);
    assert(options::read_from(
        all,
        before.len() as int + 1,
        StartupArguments { mode: StartupMode::SessionLock, ..read },
    ) == Ok::<StartupArguments, OptionsError>(
        StartupArguments { mode: StartupMode::SessionLock, ..read },
    ));
}

/// An interval is the number of seconds that is written behind either spelling of the option, zero
/// included; the last one counts, and a fixed module excludes it.
pub proof fn lemma_an_interval_is_a_number_of_seconds(
    line: Vec<String>,
    longer: Vec<String>,
    flag: Seq<char>,
    value: Seq<char>,
    read: StartupArguments,
    read_longer: Result<StartupArguments, OptionsError>,
)
    requires
        flag == "--interval"@ || flag == "-t"@,
        options::argument_texts(longer@) == options::argument_texts(line@) + seq![flag, value],
        call_ensures(
            options::parse_arguments,
            (&line,),
            Ok::<StartupArguments, OptionsError>(read),
        ),
        call_ensures(options::parse_arguments, (&longer,), read_longer),
    ensures
        match text::unsigned_number(value, 0xffff_ffff_ffff_ffff) {
            None => read_longer == Err::<StartupArguments, OptionsError>(
                OptionsError::IntervalNotANumber,
            ),
            Some(count) => if read.module is Some {
                read_longer == Err::<StartupArguments, OptionsError>(OptionsError::Conflict)
            } else {
                &&& read_longer is Ok
                &&& read_longer->Ok_0.mode == read.mode
                &&& read_longer->Ok_0.module is None
                &&& read_longer->Ok_0.interval_seconds is Some
                &&& read_longer->Ok_0.interval_seconds->0 == count
            },
        },
{
    let before = options::argument_texts(line@);
    let more = seq![flag, value];
    let all = before + more;
    lemma_line_with_more(before, more);
    lemma_flags_differ();
    assert(all[before.len() as int] == flag);
    assert(all[before.len() as int + 1] == value);
    if let Some(count) = text::unsigned_number(value, 0xffff_ffff_ffff_ffff) {
        let said = StartupArguments { interval_seconds: Some(count as u64), ..read };
        assert(options::read_from(all, before.len() as int + 2, said) == Ok::<
            StartupArguments,
            OptionsError,
        >(said));
    }
}

/// After an accepted line, an option that lacks its value, a call for help and an argument that is
/// none of the options each give their own error, whatever stands behind the last two.
pub proof fn lemma_each_fault_has_its_error(
    line: Vec<String>,
    longer: Vec<String>,
    argument: Seq<char>,
    rest: Seq<Seq<char>>,
    read: StartupArguments,
    read_longer: Result<StartupArguments, OptionsError>,
)
    requires
        options::argument_texts(longer@) == options::argument_texts(line@) + (seq![argument] + rest),
        call_ensures(
            options::parse_arguments,
            (&line,),
            Ok::<StartupArguments, OptionsError>(read),
        ),
        call_ensures(options::parse_arguments, (&longer,), read_longer),
    ensures
        (argument == "--module"@ || argument == "-m"@) && rest.len() == 0 ==> read_longer == Err::<
            StartupArguments,
            OptionsError,
        >(OptionsError::MissingModule),
        (argument == "--interval"@ || argument == "-t"@) && rest.len() == 0 ==> read_longer == Err::<
            StartupArguments,
            OptionsError,
        >(OptionsError::MissingInterval),
        argument == "--help"@ || argument == "-h"@ ==> read_longer == Err::<
            StartupArguments,
            OptionsError,
        >(OptionsError::HelpRequested),
        argument != "--lock"@ && argument != "--module"@ && argument != "-m"@ && argument
            != "--interval"@ && argument != "-t"@ && argument != "--help"@ && argument != "-h"@
            ==> read_longer == Err::<StartupArguments, OptionsError>(
            OptionsError::UnknownArgument { position: line@.len() as usize },
        ),
{
    let before = options::argument_texts(line@);
    let more = seq![argument] + rest;
    let all = before + more;
    lemma_line_with_more(before, more);
    lemma_flags_differ();
    assert(all[before.len() as int] == argument);
    assert(before.len() == line@.len());
}

/// A number and the module it selects stand for each other, in both directions.
pub proof fn lemma_modules_and_numbers_stand_for_each_other(
    module: ModuleSelection,
    number: u8,
    number_of_module: u8,
    module_of_number: Option<ModuleSelection>,
    module_back: Option<ModuleSelection>,
)
    requires
        call_ensures(ModuleSelection::id, (module,), number_of_module),
        call_ensures(ModuleSelection::from_id, (number_of_module,), module_back),
        call_ensures(ModuleSelection::from_id, (number,), module_of_number),
    ensures
        module_back == Some(module),
        module_of_number == module_in_help(number),
        module_of_number is Some <==> number <= 12,
        module_in_help(number_of_module) == Some(module),
        module_of_number == Some(module) ==> number == number_of_module,
{
}

/// The options are what the line says: the mode as it stands, the module of the line before the one
/// that is drawn, and an interval of whole seconds. An interval of zero is none.
pub proof fn lemma_the_line_decides_the_options(
    read: StartupArguments,
    drawn: ModuleSelection,
    completed: StartupOptions,
)
    requires
        call_ensures(options::complete_options, (read, drawn), completed),
    ensures
        completed.mode == read.mode,
        read.module is Some ==> Some(completed.module) == read.module,
        read.module is None ==> completed.module == drawn,
        completed.module_switch_interval is Some <==> read.interval_seconds is Some
            && read.interval_seconds->0 > 0,
        completed.module_switch_interval is Some ==> completed.module_switch_interval->0
            == read.interval_seconds->0 * 1_000_000_000,
{
}

/// Options are refused exactly where the line is, with the same error. Otherwise they hold what the
/// line says, and a module that the help names where it names none.
pub proof fn lemma_options_hold_what_the_line_says(
    line: Vec<String>,
    read: Result<StartupArguments, OptionsError>,
    parsed: Result<StartupOptions, OptionsError>,
)
    requires
        call_ensures(options::parse_arguments, (&line,), read),
        call_ensures(options::parse_options, (&line,), parsed),
    ensures
        read is Err ==> parsed is Err && parsed->Err_0 == read->Err_0,
        read is Ok ==> parsed is Ok && parsed->Ok_0.mode == read->Ok_0.mode,
        read is Ok && read->Ok_0.module is Some ==> Some(parsed->Ok_0.module) == read->Ok_0.module,
        read is Ok && read->Ok_0.interval_seconds is None ==> parsed->Ok_0.module_switch_interval is None,
        read is Ok && read->Ok_0.interval_seconds is Some && read->Ok_0.interval_seconds->0 > 0
            ==> parsed->Ok_0.module_switch_interval is Some
            && parsed->Ok_0.module_switch_interval->0 == read->Ok_0.interval_seconds->0
            * 1_000_000_000,
        read is Ok ==> !(read->Ok_0.module is Some && read->Ok_0.interval_seconds is Some),
{
}

} // verus!
