//! The splash texts, which stand as one table of lines in the bytes of the Web module.

use vstd::prelude::*;
use vstd::slice::{slice_subrange, slice_to_vec};
use vstd::string::StringExecFns;
use vstd::utf8;

use crate::random;
use crate::text;

verus! {

pub const EXPECTED_SPLASH_COUNT: usize = 142;

/// Why the bytes hold no usable splash table.
#[derive(Clone, Copy, Debug, PartialEq, Eq, Structural)]
pub enum SplashError {
    MissingStartMarker,
    AmbiguousStartMarker,
    MissingFallback,
    /// The table is no UTF-8.
    Text,
    MissingFinalNewline,
    /// The table has this many lines.
    Count(usize),
    EmptyEntry,
}

/// What is said of an error.
pub open spec fn splash_text(error: SplashError) -> Seq<char> {
    match error {
        SplashError::MissingStartMarker => {
            "Web WASM does not contain the splash-table start marker"@
        },
        SplashError::AmbiguousStartMarker => {
            "Web WASM contains more than one splash-table start marker"@
        },
        SplashError::MissingFallback => {
            "Web WASM does not contain the splash fallback after the table"@
        },
        SplashError::Text => "Web WASM splash table is not valid UTF-8"@,
        SplashError::MissingFinalNewline => "Web WASM splash table does not end with a newline"@,
        SplashError::Count(count) => {
            "Web WASM splash table contains "@ + text::decimal_text(count as nat)
                + " entries instead of 142"@
        },
        SplashError::EmptyEntry => "Web WASM splash table contains an empty entry"@,
    }
}

impl SplashError {
    /// What is said of the error.
    pub fn message(self) -> (message: String)
        ensures
            message@ == splash_text(self),
    {
        match self {
            SplashError::MissingStartMarker => {
                "Web WASM does not contain the splash-table start marker".to_owned()
            },
            SplashError::AmbiguousStartMarker => {
                "Web WASM contains more than one splash-table start marker".to_owned()
            },
            SplashError::MissingFallback => {
                "Web WASM does not contain the splash fallback after the table".to_owned()
            },
            SplashError::Text => "Web WASM splash table is not valid UTF-8".to_owned(),
            SplashError::MissingFinalNewline => {
                "Web WASM splash table does not end with a newline".to_owned()
            },
            SplashError::Count(count) => {
                let mut message = "Web WASM splash table contains ".to_owned();
                message.append(text::decimal_string(count as u64).as_str());
                message.append(" entries instead of 142");
                message
            },
            SplashError::EmptyEntry => "Web WASM splash table contains an empty entry".to_owned(),
        }
    }
}

/// The first line of the table, with its end.
pub open spec fn start_marker() -> Seq<u8> {
    utf8::encode_utf8("Full of stars!\n"@)
}

/// The text that follows the table.
pub open spec fn fallback_marker() -> Seq<u8> {
    utf8::encode_utf8("Splashes not included"@)
}

/// Whether `pattern` stands at a place of `bytes`.
pub open spec fn occurs_at(bytes: Seq<u8>, pattern: Seq<u8>, at: int) -> bool {
    0 <= at && at + pattern.len() <= bytes.len() && bytes.subrange(at, at + pattern.len())
        == pattern
}

/// The first place at or after `from` where `pattern` stands.
pub open spec fn first_occurrence(bytes: Seq<u8>, pattern: Seq<u8>, from: int) -> Option<int>
    decreases bytes.len() + 1 - from,
{
    if from + pattern.len() > bytes.len() {
        None
    } else if occurs_at(bytes, pattern, from) {
        Some(from)
    } else {
        first_occurrence(bytes, pattern, from + 1)
    }
}

/// The table of splashes, or the first of its faults.
pub open spec fn splash_table(wasm: Seq<u8>) -> Result<Seq<char>, SplashError> {
    match first_occurrence(wasm, start_marker(), 0) {
        None => Err(SplashError::MissingStartMarker),
        Some(start) => if first_occurrence(wasm, start_marker(), start + 1) is Some {
            Err(SplashError::AmbiguousStartMarker)
        } else {
            match first_occurrence(wasm, fallback_marker(), start + start_marker().len()) {
                None => Err(SplashError::MissingFallback),
                Some(end) => checked_table(wasm.subrange(start, end)),
            }
        },
    }
}

/// The text of a table that is made up of the expected number of complete, non-empty lines.
pub open spec fn checked_table(bytes: Seq<u8>) -> Result<Seq<char>, SplashError> {
    let table = utf8::decode_utf8(bytes);
    let lines = text::lines(table);
    if !utf8::valid_utf8(bytes) {
        Err(SplashError::Text)
    } else if table.len() == 0 || table.last() != '\n' {
        Err(SplashError::MissingFinalNewline)
    } else if lines.len() != EXPECTED_SPLASH_COUNT {
        Err(SplashError::Count(lines.len() as usize))
    } else if exists|i: int| 0 <= i < lines.len() && (#[trigger] lines[i]).len() == 0 {
        Err(SplashError::EmptyEntry)
    } else {
        Ok(table)
    }
}

/// What an occurrence that is the first one means.
pub proof fn lemma_first_occurrence(bytes: Seq<u8>, pattern: Seq<u8>, from: int)
    requires
        0 <= from,
    ensures
        match first_occurrence(bytes, pattern, from) {
            Some(at) => {
                &&& from <= at
                &&& occurs_at(bytes, pattern, at)
                &&& forall|i: int| from <= i < at ==> !occurs_at(bytes, pattern, i)
            },
            None => forall|i: int| from <= i ==> !occurs_at(bytes, pattern, i),
        },
    decreases bytes.len() + 1 - from,
{
    if from + pattern.len() <= bytes.len() && !occurs_at(bytes, pattern, from) {
        lemma_first_occurrence(bytes, pattern, from + 1);
    }
}

fn stands_at(bytes: &[u8], pattern: &[u8], at: usize) -> (stands: bool)
    requires
        at + pattern@.len() <= bytes@.len(),
    ensures
        stands == occurs_at(bytes@, pattern@, at as int),
{
    let total: usize = bytes.len();
    let mut index: usize = 0;
    while index < pattern.len()
        invariant
            index <= pattern@.len(),
            total == bytes@.len(),
            at + pattern@.len() <= total,
            forall|i: int| 0 <= i < index ==> bytes@[at + i] == #[trigger] pattern@[i],
        decreases pattern@.len() - index,
    {
        if bytes[at + index] != pattern[index] {
            assert(bytes@.subrange(at as int, at + pattern@.len())[index as int]
                != pattern@[index as int]);
            return false;
        }
        index = index + 1;
    }
    assert(bytes@.subrange(at as int, at + pattern@.len()) == pattern@);
    true
}

fn find(bytes: &[u8], pattern: &[u8], from: usize) -> (found: Option<usize>)
    requires
        from <= bytes@.len(),
        pattern@.len() > 0,
    ensures
        match found {
            Some(at) => first_occurrence(bytes@, pattern@, from as int) == Some(at as int),
            None => first_occurrence(bytes@, pattern@, from as int) is None,
        },
{
    let total: usize = bytes.len();
    let mut at: usize = from;
    while at <= total && pattern.len() <= total - at
        invariant
            from <= at <= total,
            total == bytes@.len(),
            pattern@.len() > 0,
            first_occurrence(bytes@, pattern@, from as int) == first_occurrence(
                bytes@,
                pattern@,
                at as int,
            ),
        decreases total - at,
    {
        if stands_at(bytes, pattern, at) {
            return Some(at);
        }
        at = at + 1;
    }
    None
}

fn has_empty_line(lines: &Vec<Vec<char>>) -> (empty: bool)
    ensures
        empty == exists|i: int|
            0 <= i < text::texts(lines@).len() && (#[trigger] text::texts(lines@)[i]).len() == 0,
{
    let mut index: usize = 0;
    while index < lines.len()
        invariant
            index <= lines@.len(),
            forall|i: int| 0 <= i < index ==> (#[trigger] text::texts(lines@)[i]).len() != 0,
        decreases lines@.len() - index,
    {
        if lines[index].len() == 0 {
            assert(text::texts(lines@)[index as int].len() == 0);
            return true;
        }
        index = index + 1;
    }
    false
}

/// Finds the splash table in the bytes of the Web module and checks it.
pub fn extract_splash_table(wasm: &[u8]) -> (table: Result<String, SplashError>)
    ensures
        match table {
            Ok(table) => splash_table(wasm@) == Ok::<Seq<char>, SplashError>(table@),
            Err(error) => splash_table(wasm@) == Err::<Seq<char>, SplashError>(error),
        },
{
    let marker = "Full of stars!\n".as_bytes();
    let fallback = "Splashes not included".as_bytes();
    proof {
        reveal_strlit("Full of stars!\n");
        reveal_strlit("Splashes not included");
        utf8::encode_utf8_first_scalar("Full of stars!\n"@);
        utf8::encode_utf8_first_scalar("Splashes not included"@);
        lemma_first_occurrence(wasm@, start_marker(), 0);
    }
    let total: usize = wasm.len();
    let start = match find(wasm, marker, 0) {
        Some(start) => start,
        None => return Err(SplashError::MissingStartMarker),
    };
    if find(wasm, marker, start + 1).is_some() {
        return Err(SplashError::AmbiguousStartMarker);
    }
    let search: usize = start + marker.len();
    proof {
        lemma_first_occurrence(wasm@, fallback_marker(), search as int);
    }
    let end = match find(wasm, fallback, search) {
        Some(end) => end,
        None => return Err(SplashError::MissingFallback),
    };
    let table = match text::decode(slice_to_vec(slice_subrange(wasm, start, end))) {
        Some(table) => table,
        None => return Err(SplashError::Text),
    };
    let chars = text::chars_of(table.as_str());
    if chars.len() == 0 || chars[chars.len() - 1] != '\n' {
        return Err(SplashError::MissingFinalNewline);
    }
    let lines = text::split_lines(table.as_str());
    let count: usize = lines.len();
    assert(text::texts(lines@).len() == count);
    if count != EXPECTED_SPLASH_COUNT {
        return Err(SplashError::Count(count));
    }
    if has_empty_line(&lines) {
        return Err(SplashError::EmptyEntry);
    }
    Ok(table)
}

/// The splash that a drawn index stands for.
pub fn splash_at(wasm: &[u8], drawn: usize) -> (splash: Result<String, SplashError>)
    requires
        drawn < EXPECTED_SPLASH_COUNT,
    ensures
        match (splash, splash_table(wasm@)) {
            (Ok(splash), Ok(table)) => splash@ == text::lines(table)[drawn as int],
            (Err(error), Err(fault)) => error == fault,
            _ => false,
        },
{
    let table = extract_splash_table(wasm)?;
    let lines = text::split_lines(table.as_str());
    assert(text::texts(lines@)[drawn as int] == lines@[drawn as int]@);
    assert(text::texts(lines@).len() == lines@.len());
    Ok(text::string_of(lines[drawn].as_slice()))
}

/// Draws a splash at random.
pub fn pick_from_wasm(wasm: &[u8]) -> (splash: Result<String, SplashError>)
    ensures
        match (splash, splash_table(wasm@)) {
            (Ok(splash), Ok(table)) => text::lines(table).contains(splash@),
            (Err(error), Err(fault)) => error == fault,
            _ => false,
        },
{
    let splash = splash_at(wasm, random::below(EXPECTED_SPLASH_COUNT));
    assert(match splash_table(wasm@) {
        Ok(table) => text::lines(table).len() == EXPECTED_SPLASH_COUNT,
        Err(_) => true,
    });
    splash
}

/// A splash that can be picked is a line of its own and is never empty.
pub proof fn lemma_splashes_are_not_empty(wasm: Seq<u8>, drawn: int)
    requires
        splash_table(wasm) is Ok,
        0 <= drawn < EXPECTED_SPLASH_COUNT,
    ensures
        text::lines(splash_table(wasm)->Ok_0).len() == EXPECTED_SPLASH_COUNT,
        text::lines(splash_table(wasm)->Ok_0)[drawn].len() > 0,
{
}

} // verus!
