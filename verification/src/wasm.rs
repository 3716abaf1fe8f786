//! The WebAssembly module that simulates the fluids: one more export for a function inside it,
//! and what its host functions accept.

use vstd::prelude::*;
use vstd::string::StringExecFns;
use vstd::utf8;

use crate::text;
use crate::text::same_text;

verus! {

pub const GRID_SIZE: u32 = 16;

pub const PIXEL_BYTES: usize = 1_024;

pub const STATE_BYTES: usize = 4_104;

pub const EXPORT_SECTION: u8 = 7;

pub const FUNCTION_KIND: u8 = 0;

pub const GL_TEXTURE_2D: i32 = 3_553;

pub const GL_RGBA: i32 = 6_408;

pub const GL_UNSIGNED_BYTE: i32 = 5_121;

#[derive(Clone, Copy, Debug, PartialEq, Eq, Structural)]
pub enum WasmError {
    InvalidHeader,
    TruncatedNumber,
    NumberTooLarge,
    SectionBeyondFile,
    CountBeyondSection,
    TooManyExports,
    /// The export section would have no 32-bit length.
    TooLarge,
    NoExportSection,
}

/// What is said of an error.
pub open spec fn wasm_text(error: WasmError) -> Seq<char> {
    match error {
        WasmError::InvalidHeader => "original Web WASM has an invalid header"@,
        WasmError::TruncatedNumber => "truncated ULEB128 value"@,
        WasmError::NumberTooLarge => "ULEB128 value is too large"@,
        WasmError::SectionBeyondFile => "WASM section extends beyond file"@,
        WasmError::CountBeyondSection => "WASM export count extends beyond its section"@,
        WasmError::TooManyExports => "WASM section has too many exports"@,
        WasmError::TooLarge => "WASM export section is too large"@,
        WasmError::NoExportSection => "original Web WASM has no export section"@,
    }
}

impl WasmError {
    /// What is said of the error.
    pub fn message(self) -> (message: String)
        ensures
            message@ == wasm_text(self),
    {
        match self {
            WasmError::InvalidHeader => "original Web WASM has an invalid header".to_owned(),
            WasmError::TruncatedNumber => "truncated ULEB128 value".to_owned(),
            WasmError::NumberTooLarge => "ULEB128 value is too large".to_owned(),
            WasmError::SectionBeyondFile => "WASM section extends beyond file".to_owned(),
            WasmError::CountBeyondSection => {
                "WASM export count extends beyond its section".to_owned()
            },
            WasmError::TooManyExports => "WASM section has too many exports".to_owned(),
            WasmError::TooLarge => "WASM export section is too large".to_owned(),
            WasmError::NoExportSection => "original Web WASM has no export section".to_owned(),
        }
    }
}

/// The bytes of a number in the variable-length form of the format: seven bits a byte, the least
/// significant first, with the top bit set on every byte but the last.
pub open spec fn uleb_bytes(value: nat) -> Seq<u8>
    decreases value,
{
    if value < 128 {
        seq![value as u8]
    } else {
        seq![(128 + value % 128) as u8] + uleb_bytes(value / 128)
    }
}

/// The weight of a byte of a number, by its place.
pub open spec fn uleb_weight(place: int) -> int {
    if place == 0 {
        1
    } else if place == 1 {
        128
    } else if place == 2 {
        16_384
    } else if place == 3 {
        2_097_152
    } else {
        268_435_456
    }
}

/// Reads the number whose byte at `place` stands at `cursor`, with `value` read before it. A
/// number has at most five bytes; bits beyond the thirty-second are lost.
pub open spec fn uleb_from(bytes: Seq<u8>, cursor: int, value: int, place: int) -> Result<
    (u32, usize),
    WasmError,
>
    decreases 5 - place,
{
    if place >= 5 {
        Err(WasmError::NumberTooLarge)
    } else if cursor < 0 || cursor >= bytes.len() {
        Err(WasmError::TruncatedNumber)
    } else {
        let more = value + (bytes[cursor] % 128) * uleb_weight(place);
        if bytes[cursor] < 128 {
            Ok(((more % 0x1_0000_0000) as u32, (cursor + 1) as usize))
        } else {
            uleb_from(bytes, cursor + 1, more, place + 1)
        }
    }
}

pub open spec fn uleb_at(bytes: Seq<u8>, cursor: int) -> Result<(u32, usize), WasmError> {
    uleb_from(bytes, cursor, 0, 0)
}

proof fn lemma_or_is_sum(value: u32, low: u32)
    requires
        low < 128,
    ensures
        value == 0 ==> value | (low << 0u32) == low,
        value < 128 ==> value | (low << 7u32) == value + low * 128,
        value < 16_384 ==> value | (low << 14u32) == value + low * 16_384,
        value < 2_097_152 ==> value | (low << 21u32) == value + low * 2_097_152,
        value < 268_435_456 ==> value | (low << 28u32) == value + (low % 16) * 268_435_456,
{
    assert(value == 0 ==> value | (low << 0u32) == low) by (bit_vector);
    assert(value < 128 && low < 128 ==> value | (low << 7u32) == value + low * 128) by (bit_vector);
    assert(value < 16_384 && low < 128 ==> value | (low << 14u32) == value + low * 16_384)
        by (bit_vector);
    assert(value < 2_097_152 && low < 128 ==> value | (low << 21u32) == value + low * 2_097_152)
        by (bit_vector);
    assert(value < 268_435_456 && low < 128 ==> value | (low << 28u32) == value + (low % 16)
        * 268_435_456) by (bit_vector);
}

/// Reads a number; returns it with the place behind it.
pub fn read_uleb(bytes: &[u8], cursor: usize) -> (number: Result<(u32, usize), WasmError>)
    ensures
        number == uleb_at(bytes@, cursor as int),
        number matches Ok((value, end)) ==> cursor < end <= bytes@.len(),
{
    let mut value: u32 = 0;
    let mut place: u32 = 0;
    let mut at: usize = cursor;
    let ghost mut exact: int = 0;
    while place < 5
        invariant
            place <= 5,
            place <= 4 ==> value == exact && value < uleb_weight(place as int),
            at == cursor + place,
            place == 0 || at <= bytes@.len(),
            uleb_at(bytes@, cursor as int) == uleb_from(bytes@, at as int, exact, place as int),
        decreases 5 - place,
    {
        if at >= bytes.len() {
            return Err(WasmError::TruncatedNumber);
        }
        let byte: u8 = bytes[at];
        let low: u32 = (byte & 0x7f) as u32;
        let shift: u32 = place * 7;
        proof {
            assert(byte & 0x7f == byte % 128) by (bit_vector);
            assert(byte & 0x80 == 0 <==> byte < 128) by (bit_vector);
            lemma_or_is_sum(value, low);
        }
        value = value | (low << shift);
        at = at + 1;
        proof {
            let before = exact;
            exact = exact + (byte % 128) * uleb_weight(place as int);
            if place == 4 {
                assert(shift == 28);
                assert(value == before + (low % 16) * 268_435_456);
                assert(exact == value + (low / 16) * 0x1_0000_0000);
            } else {
                assert(shift == 0 || shift == 7 || shift == 14 || shift == 21);
                assert(exact == value);
            }
            assert(exact % 0x1_0000_0000 == value);
        }
        if byte & 0x80 == 0 {
            return Ok((value, at));
        }
        place = place + 1;
    }
    Err(WasmError::NumberTooLarge)
}

/// Writes a number in its shortest form.
pub fn write_uleb(bytes: &mut Vec<u8>, value: u32)
    ensures
        final(bytes)@ == old(bytes)@ + uleb_bytes(value as nat),
{
    let ghost start = bytes@;
    let mut rest: u32 = value;
    let ghost mut written = Seq::<u8>::empty();
    assert(start + written == start);
    assert(written + uleb_bytes(value as nat) == uleb_bytes(value as nat));
    loop
        invariant
            start == old(bytes)@,
            bytes@ == start + written,
            written + uleb_bytes(rest as nat) == uleb_bytes(value as nat),
        decreases rest,
    {
        let low: u8 = (rest & 0x7f) as u8;
        let higher: u32 = rest >> 7;
        assert(rest & 0x7f == rest % 128 && rest >> 7 == rest / 128) by (bit_vector);
        if higher == 0 {
            bytes.push(low);
            assert(uleb_bytes(rest as nat) == seq![low]);
            assert(bytes@ == start + (written + seq![low]));
            return;
        }
        let byte: u8 = low | 0x80;
        assert(low < 128 ==> low | 0x80 == 128 + low) by (bit_vector);
        bytes.push(byte);
        proof {
            assert(uleb_bytes(rest as nat) == seq![byte] + uleb_bytes(higher as nat));
            assert(bytes@ == start + (written + seq![byte]));
            assert((written + seq![byte]) + uleb_bytes(higher as nat) == written + (seq![byte]
                + uleb_bytes(higher as nat)));
            written = written + seq![byte];
        }
        rest = higher;
    }
}

proof fn lemma_uleb_round_trip_from(
    before: Seq<u8>,
    after: Seq<u8>,
    rest: nat,
    value: int,
    place: int,
)
    requires
        0 <= place < 5,
        0 <= value < uleb_weight(place),
        value + rest * uleb_weight(place) <= u32::MAX,
        before.len() + uleb_bytes(rest).len() + after.len() <= usize::MAX,
    ensures
        uleb_from(before + uleb_bytes(rest) + after, before.len() as int, value, place) == Ok::<
            (u32, usize),
            WasmError,
        >(
            (
                (value + rest * uleb_weight(place)) as u32,
                (before.len() + uleb_bytes(rest).len()) as usize,
            ),
        ),
    decreases rest,
{
    let bytes = before + uleb_bytes(rest) + after;
    let at = before.len() as int;
    if rest < 128 {
        assert(bytes[at] == rest as u8);
        assert(bytes[at] % 128 == rest);
    } else {
        let first = (128 + rest % 128) as u8;
        assert(bytes[at] == first);
        assert(first % 128 == rest % 128);
        let longer = before.push(first);
        assert(bytes == longer + uleb_bytes(rest / 128) + after);
        let more = value + (rest % 128) * uleb_weight(place);
        if place == 4 {
            assert(false);
        }
        assert(uleb_weight(place + 1) == 128 * uleb_weight(place));
        assert(more + (rest / 128) * uleb_weight(place + 1) == value + rest * uleb_weight(place))
            by {
            let weight = uleb_weight(place);
            assert((rest % 128) * weight + (rest / 128) * (128 * weight) == rest * weight)
                by (nonlinear_arith)
                requires
                    rest == (rest / 128) * 128 + rest % 128,
            ;
        }
        assert(more < uleb_weight(place + 1)) by (nonlinear_arith)
            requires
                more == value + (rest % 128) * uleb_weight(place),
                value < uleb_weight(place),
                uleb_weight(place + 1) == 128 * uleb_weight(place),
                0 < uleb_weight(place),
        ;
        lemma_uleb_round_trip_from(longer, after, rest / 128, more, place + 1);
    }
}

/// A number that was written is read back, from wherever it stands.
pub proof fn lemma_uleb_round_trip(before: Seq<u8>, after: Seq<u8>, value: u32)
    requires
        before.len() + uleb_bytes(value as nat).len() + after.len() <= usize::MAX,
    ensures
        uleb_at(before + uleb_bytes(value as nat) + after, before.len() as int) == Ok::<
            (u32, usize),
            WasmError,
        >((value, (before.len() + uleb_bytes(value as nat).len()) as usize)),
{
    lemma_uleb_round_trip_from(before, after, value as nat, 0, 0);
}

pub open spec fn wasm_header() -> Seq<u8> {
    seq![0u8, 0x61u8, 0x73u8, 0x6du8, 1u8, 0u8, 0u8, 0u8]
}

/// A section: where its number stands, and where its payload begins and ends.
pub struct Section {
    pub start: int,
    pub payload_start: int,
    pub payload_end: int,
}

/// Finds the export section, looking from the section at `cursor` on.
pub open spec fn find_exports(wasm: Seq<u8>, cursor: int) -> Result<Section, WasmError>
    decreases wasm.len() - cursor,
{
    if cursor < 0 || cursor >= wasm.len() {
        Err(WasmError::NoExportSection)
    } else {
        match uleb_at(wasm, cursor + 1) {
            Err(error) => Err(error),
            Ok((length, payload_start)) => {
                let payload_end = payload_start + length;
                if payload_end > wasm.len() {
                    Err(WasmError::SectionBeyondFile)
                } else if wasm[cursor] == EXPORT_SECTION {
                    Ok(
                        Section {
                            start: cursor,
                            payload_start: payload_start as int,
                            payload_end,
                        },
                    )
                } else if payload_end > cursor {
                    find_exports(wasm, payload_end)
                } else {
                    Err(WasmError::NoExportSection)
                }
            },
        }
    }
}

/// The record of one exported function.
pub open spec fn export_record(name: Seq<u8>, function_index: u32) -> Seq<u8> {
    uleb_bytes(name.len()) + name + seq![FUNCTION_KIND] + uleb_bytes(function_index as nat)
}

/// A list of exports with one more function at its end.
pub open spec fn extended_exports(
    count: nat,
    records: Seq<u8>,
    name: Seq<u8>,
    function_index: u32,
) -> Seq<u8> {
    uleb_bytes(count + 1) + records + export_record(name, function_index)
}

/// A module whose section has been given another payload.
pub open spec fn with_payload(wasm: Seq<u8>, section: Section, payload: Seq<u8>) -> Seq<u8> {
    wasm.take(section.start) + seq![EXPORT_SECTION] + uleb_bytes(payload.len()) + payload
        + wasm.skip(section.payload_end)
}

/// A module with one more export, everything else as it was. The list of exports must still have a
/// 32-bit length; the module may be of any size.
pub open spec fn with_export(wasm: Seq<u8>, name: Seq<u8>, function_index: u32) -> Result<
    Seq<u8>,
    WasmError,
> {
    if wasm.len() < 8 || wasm.take(8) != wasm_header() {
        Err(WasmError::InvalidHeader)
    } else {
        match find_exports(wasm, 8) {
            Err(error) => Err(error),
            Ok(section) => match uleb_at(wasm, section.payload_start) {
                Err(error) => Err(error),
                Ok((count, count_end)) => if count_end > section.payload_end {
                    Err(WasmError::CountBeyondSection)
                } else if count == u32::MAX {
                    Err(WasmError::TooManyExports)
                } else {
                    let payload = extended_exports(
                        count as nat,
                        wasm.subrange(count_end as int, section.payload_end),
                        name,
                        function_index,
                    );
                    if payload.len() > u32::MAX {
                        Err(WasmError::TooLarge)
                    } else {
                        Ok(with_payload(wasm, section, payload))
                    }
                },
            },
        }
    }
}

fn append(bytes: &mut Vec<u8>, more: &[u8], from: usize, to: usize)
    requires
        from <= to <= more@.len(),
    ensures
        final(bytes)@ == old(bytes)@ + more@.subrange(from as int, to as int),
{
    let ghost start = bytes@;
    let mut index: usize = from;
    assert(start + more@.subrange(from as int, from as int) == start);
    while index < to
        invariant
            from <= index <= to <= more@.len(),
            bytes@ == start + more@.subrange(from as int, index as int),
        decreases to - index,
    {
        bytes.push(more[index]);
        index = index + 1;
        assert(bytes@ == start + more@.subrange(from as int, index as int));
    }
}

fn has_header(wasm: &[u8]) -> (valid: bool)
    ensures
        valid == (wasm@.len() >= 8 && wasm@.take(8) == wasm_header()),
{
    if wasm.len() < 8 {
        return false;
    }
    let valid = wasm[0] == 0 && wasm[1] == 0x61 && wasm[2] == 0x73 && wasm[3] == 0x6d && wasm[4]
        == 1 && wasm[5] == 0 && wasm[6] == 0 && wasm[7] == 0;
    proof {
        if valid {
            assert(wasm@.take(8) == wasm_header());
        } else {
            let header = wasm_header();
            let taken = wasm@.take(8);
            assert(taken[0] == wasm@[0] && taken[1] == wasm@[1] && taken[2] == wasm@[2] && taken[3]
                == wasm@[3] && taken[4] == wasm@[4] && taken[5] == wasm@[5] && taken[6] == wasm@[6]
                && taken[7] == wasm@[7]);
            assert(header[0] == 0 && header[1] == 0x61 && header[2] == 0x73 && header[3] == 0x6d
                && header[4] == 1 && header[5] == 0 && header[6] == 0 && header[7] == 0);
        }
    }
    valid
}

/// Adds an export for a function that the module keeps to itself. Its code, data and the numbers
/// of its functions stay byte for byte as they are.
pub fn export_internal_function(wasm: &[u8], export_name: &str, function_index: u32) -> (patched:
    Result<Vec<u8>, WasmError>)
    ensures
        match (patched, with_export(wasm@, utf8::encode_utf8(export_name@), function_index)) {
            (Ok(patched), Ok(expected)) => patched@ == expected,
            (Err(error), Err(expected)) => error == expected,
            _ => false,
        },
{
    if !has_header(wasm) {
        return Err(WasmError::InvalidHeader);
    }
    let ghost name = utf8::encode_utf8(export_name@);
    let mut cursor: usize = 8;
    while cursor < wasm.len()
        invariant
            8 <= cursor <= wasm@.len(),
            name == utf8::encode_utf8(export_name@),
            wasm@.len() >= 8 && wasm@.take(8) == wasm_header(),
            find_exports(wasm@, 8) == find_exports(wasm@, cursor as int),
        decreases wasm@.len() - cursor,
    {
        let section_start: usize = cursor;
        let section_id: u8 = wasm[cursor];
        let (section_length, payload_start) = match read_uleb(wasm, cursor + 1) {
            Ok(number) => number,
            Err(error) => return Err(error),
        };
        if section_length as usize > wasm.len() - payload_start {
            return Err(WasmError::SectionBeyondFile);
        }
        let payload_end: usize = payload_start + section_length as usize;
        if section_id == EXPORT_SECTION {
            let (export_count, count_end) = match read_uleb(wasm, payload_start) {
                Ok(number) => number,
                Err(error) => return Err(error),
            };
            if count_end > payload_end {
                return Err(WasmError::CountBeyondSection);
            }
            if export_count == u32::MAX {
                return Err(WasmError::TooManyExports);
            }
            let name_bytes = export_name.as_bytes();
            let ghost records = wasm@.subrange(count_end as int, payload_end as int);
            if name_bytes.len() > u32::MAX as usize {
                assert(extended_exports(export_count as nat, records, name, function_index).len()
                    > u32::MAX);
                return Err(WasmError::TooLarge);
            }
            let mut payload: Vec<u8> = Vec::new();
            write_uleb(&mut payload, export_count + 1);
            append(&mut payload, wasm, count_end, payload_end);
            write_uleb(&mut payload, name_bytes.len() as u32);
            append(&mut payload, name_bytes, 0, name_bytes.len());
            payload.push(FUNCTION_KIND);
            write_uleb(&mut payload, function_index);
            proof {
                assert(name.subrange(0, name.len() as int) == name);
                assert(payload@ == extended_exports(
                    export_count as nat,
                    records,
                    name,
                    function_index,
                ));
            }
            if payload.len() > u32::MAX as usize {
                return Err(WasmError::TooLarge);
            }

            let mut patched: Vec<u8> = Vec::new();
            append(&mut patched, wasm, 0, section_start);
            patched.push(section_id);
            write_uleb(&mut patched, payload.len() as u32);
            append(&mut patched, payload.as_slice(), 0, payload.len());
            append(&mut patched, wasm, payload_end, wasm.len());
            proof {
                let section = Section {
                    start: section_start as int,
                    payload_start: payload_start as int,
                    payload_end: payload_end as int,
                };
                assert(wasm@.subrange(0, section_start as int) == wasm@.take(section_start as int));
                assert(payload@.subrange(0, payload@.len() as int) == payload@);
                assert(wasm@.subrange(payload_end as int, wasm@.len() as int) == wasm@.skip(
                    payload_end as int,
                ));
                assert(patched@ == with_payload(wasm@, section, payload@));
            }
            return Ok(patched);
        }
        cursor = payload_end;
    }
    Err(WasmError::NoExportSection)
}

proof fn lemma_uleb_reads_its_bytes_only(
    bytes: Seq<u8>,
    other: Seq<u8>,
    cursor: int,
    value: int,
    place: int,
)
    requires
        0 <= cursor,
        bytes.len() <= usize::MAX,
        uleb_from(bytes, cursor, value, place) is Ok,
        uleb_from(bytes, cursor, value, place)->Ok_0.1 <= other.len(),
        forall|i: int|
            cursor <= i < uleb_from(bytes, cursor, value, place)->Ok_0.1 ==> #[trigger] other[i]
                == bytes[i],
    ensures
        uleb_from(other, cursor, value, place) == uleb_from(bytes, cursor, value, place),
        cursor < uleb_from(bytes, cursor, value, place)->Ok_0.1 <= bytes.len(),
    decreases 5 - place,
{
    if place < 5 && cursor < bytes.len() {
        if bytes[cursor] < 128 {
            assert(other[cursor] == bytes[cursor]);
        } else {
            let more = value + (bytes[cursor] % 128) * uleb_weight(place);
            lemma_uleb_end(bytes, cursor + 1, more, place + 1);
            lemma_uleb_reads_its_bytes_only(bytes, other, cursor + 1, more, place + 1);
            assert(other[cursor] == bytes[cursor]);
        }
    }
}

proof fn lemma_uleb_end(bytes: Seq<u8>, cursor: int, value: int, place: int)
    requires
        0 <= cursor,
        bytes.len() <= usize::MAX,
        uleb_from(bytes, cursor, value, place) is Ok,
    ensures
        cursor < uleb_from(bytes, cursor, value, place)->Ok_0.1 <= bytes.len(),
    decreases 5 - place,
{
    if place < 5 && cursor < bytes.len() && bytes[cursor] >= 128 {
        lemma_uleb_end(
            bytes,
            cursor + 1,
            value + (bytes[cursor] % 128) * uleb_weight(place),
            place + 1,
        );
    }
}

proof fn lemma_exports_lie_ahead(wasm: Seq<u8>, cursor: int)
    requires
        0 <= cursor,
        wasm.len() <= usize::MAX,
        find_exports(wasm, cursor) is Ok,
    ensures
        ({
            let section = find_exports(wasm, cursor)->Ok_0;
            &&& cursor <= section.start < section.payload_start <= section.payload_end <= wasm.len()
            &&& wasm[section.start] == EXPORT_SECTION
        }),
    decreases wasm.len() - cursor,
{
    let (length, payload_start) = uleb_at(wasm, cursor + 1)->Ok_0;
    lemma_uleb_end(wasm, cursor + 1, 0, 0);
    if wasm[cursor] != EXPORT_SECTION {
        lemma_exports_lie_ahead(wasm, payload_start + length);
    }
}

proof fn lemma_same_way_to_the_exports(
    wasm: Seq<u8>,
    other: Seq<u8>,
    cursor: int,
    length: u32,
    payload_start: usize,
)
    requires
        0 <= cursor,
        wasm.len() <= usize::MAX,
        other.len() <= usize::MAX,
        find_exports(wasm, cursor) is Ok,
        find_exports(wasm, cursor)->Ok_0.start < other.len(),
        other.take(find_exports(wasm, cursor)->Ok_0.start) == wasm.take(
            find_exports(wasm, cursor)->Ok_0.start,
        ),
        other[find_exports(wasm, cursor)->Ok_0.start] == EXPORT_SECTION,
        uleb_at(other, find_exports(wasm, cursor)->Ok_0.start + 1) == Ok::<(u32, usize), WasmError>(
            (length, payload_start),
        ),
        payload_start + length <= other.len(),
    ensures
        find_exports(other, cursor) == Ok::<Section, WasmError>(
            Section {
                start: find_exports(wasm, cursor)->Ok_0.start,
                payload_start: payload_start as int,
                payload_end: payload_start + length,
            },
        ),
    decreases wasm.len() - cursor,
{
    let section = find_exports(wasm, cursor)->Ok_0;
    lemma_exports_lie_ahead(wasm, cursor);
    let (its_length, its_payload) = uleb_at(wasm, cursor + 1)->Ok_0;
    lemma_uleb_end(wasm, cursor + 1, 0, 0);
    if wasm[cursor] != EXPORT_SECTION {
        let next = its_payload + its_length;
        lemma_exports_lie_ahead(wasm, next);
        assert forall|i: int| cursor <= i < its_payload implies #[trigger] other[i] == wasm[i] by {
            assert(other.take(section.start)[i] == wasm.take(section.start)[i]);
        }
        lemma_uleb_reads_its_bytes_only(wasm, other, cursor + 1, 0, 0);
        lemma_same_way_to_the_exports(wasm, other, next, length, payload_start);
    }
}

/// The module with one more export starts and ends as it did; its export section stands in the
/// same place, counts one more, and holds the old records followed by the new one.
pub proof fn lemma_one_export_is_added(wasm: Seq<u8>, name: Seq<u8>, function_index: u32)
    requires
        wasm.len() <= usize::MAX,
        with_export(wasm, name, function_index) is Ok,
        with_export(wasm, name, function_index)->Ok_0.len() <= usize::MAX,
    ensures
        ({
            let patched = with_export(wasm, name, function_index)->Ok_0;
            let before = find_exports(wasm, 8)->Ok_0;
            let (count, count_end) = uleb_at(wasm, before.payload_start)->Ok_0;
            &&& find_exports(patched, 8) matches Ok(after)
            &&& after.start == before.start
            &&& patched.take(after.start) == wasm.take(before.start)
            &&& patched.skip(after.payload_end) == wasm.skip(before.payload_end)
            &&& uleb_at(patched, after.payload_start) matches Ok((new_count, new_count_end))
            &&& new_count == count + 1
            &&& patched.subrange(new_count_end as int, after.payload_end) == wasm.subrange(
                count_end as int,
                before.payload_end,
            ) + export_record(name, function_index)
        }),
{
    let patched = with_export(wasm, name, function_index)->Ok_0;
    let before = find_exports(wasm, 8)->Ok_0;
    lemma_exports_lie_ahead(wasm, 8);
    let (count, count_end) = uleb_at(wasm, before.payload_start)->Ok_0;
    lemma_uleb_end(wasm, before.payload_start, 0, 0);
    let records = wasm.subrange(count_end as int, before.payload_end);
    let record = export_record(name, function_index);
    let payload = extended_exports(count as nat, records, name, function_index);
    let head = wasm.take(before.start) + seq![EXPORT_SECTION];
    let tail = wasm.skip(before.payload_end);
    let size = uleb_bytes(payload.len());
    assert(patched == head + size + (payload + tail));
    lemma_uleb_round_trip(head, payload + tail, payload.len() as u32);
    let payload_start = (head.len() + size.len()) as usize;
    assert(patched.take(before.start) == wasm.take(before.start));
    assert(patched[before.start] == EXPORT_SECTION);
    lemma_same_way_to_the_exports(wasm, patched, 8, payload.len() as u32, payload_start);
    let new_count = uleb_bytes((count + 1) as nat);
    assert(patched == (head + size) + new_count + (records + record + tail));
    lemma_uleb_round_trip(head + size, records + record + tail, (count + 1) as u32);
    let new_count_end = payload_start + new_count.len();
    assert(patched.subrange(new_count_end, payload_start + payload.len()) == records + record);
    assert(patched.skip(payload_start + payload.len()) == tail);
}

/// Whether the bytes from `cursor` on are whole sections, none of them the export section.
pub open spec fn has_no_exports(bytes: Seq<u8>, cursor: int) -> bool
    decreases bytes.len() - cursor,
{
    cursor == bytes.len() || {
        &&& 0 <= cursor < bytes.len()
        &&& bytes[cursor] != EXPORT_SECTION
        &&& uleb_at(bytes, cursor + 1) matches Ok((length, payload_start))
        &&& cursor < payload_start + length <= bytes.len()
        &&& has_no_exports(bytes, payload_start + length)
    }
}

proof fn lemma_exports_come_after(before: Seq<u8>, wasm: Seq<u8>, cursor: int)
    requires
        0 <= cursor <= before.len() <= wasm.len() <= usize::MAX,
        wasm.take(before.len() as int) == before,
        has_no_exports(before, cursor),
    ensures
        find_exports(wasm, cursor) == find_exports(wasm, before.len() as int),
    decreases before.len() - cursor,
{
    if cursor < before.len() {
        let (length, payload_start) = uleb_at(before, cursor + 1)->Ok_0;
        lemma_uleb_end(before, cursor + 1, 0, 0);
        assert forall|i: int| cursor <= i < payload_start implies #[trigger] wasm[i]
            == before[i] by {
            assert(wasm.take(before.len() as int)[i] == wasm[i]);
        }
        lemma_uleb_reads_its_bytes_only(before, wasm, cursor + 1, 0, 0);
        lemma_exports_come_after(before, wasm, payload_start + length);
    }
}

/// A module is its header with sections, its export section, and whatever follows. With one more
/// export, all that stands before the export section and after it stays byte for byte, and so do
/// the records in it; only the count and the length of the section change, and the new record
/// comes last.
pub proof fn lemma_only_the_exports_change(
    before: Seq<u8>,
    count: u32,
    records: Seq<u8>,
    after: Seq<u8>,
    name: Seq<u8>,
    function_index: u32,
)
    requires
        before.len() >= 8,
        before.take(8) == wasm_header(),
        has_no_exports(before, 8),
        count < u32::MAX,
        (uleb_bytes(count as nat) + records).len() <= u32::MAX,
        extended_exports(count as nat, records, name, function_index).len() <= u32::MAX,
        (before + seq![EXPORT_SECTION] + uleb_bytes((uleb_bytes(count as nat) + records).len())
            + uleb_bytes(count as nat) + records + after).len() <= usize::MAX,
    ensures
        ({
            let payload = extended_exports(count as nat, records, name, function_index);
            with_export(
                before + seq![EXPORT_SECTION] + uleb_bytes(
                    (uleb_bytes(count as nat) + records).len(),
                ) + uleb_bytes(count as nat) + records + after,
                name,
                function_index,
            ) == Ok::<Seq<u8>, WasmError>(
                before + seq![EXPORT_SECTION] + uleb_bytes(payload.len()) + payload + after,
            )
        }),
{
    let counted = uleb_bytes(count as nat);
    let size = (counted + records).len();
    let sized = uleb_bytes(size);
    let head = before + seq![EXPORT_SECTION];
    let wasm = head + sized + counted + records + after;
    assert(wasm.take(before.len() as int) == before);
    assert(wasm.take(8) == before.take(8));
    lemma_exports_come_after(before, wasm, 8);
    let start = before.len() as int;
    assert(wasm[start] == EXPORT_SECTION);
    assert(wasm == head + sized + (counted + records + after));
    lemma_uleb_round_trip(head, counted + records + after, size as u32);
    assert(wasm == (head + sized) + counted + (records + after));
    lemma_uleb_round_trip(head + sized, records + after, count);
    let payload_start = (head.len() + sized.len()) as int;
    let payload_end = payload_start + size;
    let section = Section { start, payload_start, payload_end };
    assert(find_exports(wasm, 8) == Ok::<Section, WasmError>(section));
    assert(wasm.subrange(payload_start + counted.len(), payload_end) == records);
    assert(wasm.skip(payload_end) == after);
}

/// What the host does for an imported function.
#[derive(Clone, Copy, Debug, PartialEq, Eq, Structural)]
pub enum ImportBehavior {
    Stub,
    CaptureUpload,
    FillEntropy,
}

/// Texture uploads are captured and requests for entropy answered; every other import only has
/// to exist.
pub open spec fn behavior_of(name: Seq<char>) -> ImportBehavior {
    if name == "__wbg_texImage2D_1c4b87cd146e7590"@ {
        ImportBehavior::CaptureUpload
    } else if name == "__wbg_getRandomValues_1ef11e888e5228e9"@ || name
        == "__wbg_randomFillSync_1b52c8482374c55b"@ {
        ImportBehavior::FillEntropy
    } else {
        ImportBehavior::Stub
    }
}

/// What an imported function of this name does.
pub fn import_behavior(name: &str) -> (behavior: ImportBehavior)
    ensures
        behavior == behavior_of(name@),
{
    if same_text(name, "__wbg_texImage2D_1c4b87cd146e7590") {
        ImportBehavior::CaptureUpload
    } else if same_text(name, "__wbg_getRandomValues_1ef11e888e5228e9") || same_text(
        name,
        "__wbg_randomFillSync_1b52c8482374c55b",
    ) {
        ImportBehavior::FillEntropy
    } else {
        ImportBehavior::Stub
    }
}

/// Why a call from the module is refused.
#[derive(Clone, Copy, Debug, PartialEq, Eq, Structural)]
pub enum HostCallError {
    ParameterCount { received: usize, wanted: usize },
    NotI32 { index: usize },
    InvalidParameter { index: usize, actual: i32, expected: i32 },
    NegativePointer,
    NegativeLength,
    NoMemory,
    BeyondMemory { start: usize, end: usize, size: usize },
}

/// What is said of an error in a call of an import.
pub open spec fn host_call_text(error: HostCallError, import_name: Seq<char>) -> Seq<char> {
    match error {
        HostCallError::ParameterCount { received, wanted } => {
            import_name + " received "@ + text::decimal_text(received as nat)
                + " parameters, expected "@ + text::decimal_text(wanted as nat)
        },
        HostCallError::NotI32 { index } => {
            import_name + " parameter "@ + text::decimal_text(index as nat) + " is not i32"@
        },
        HostCallError::InvalidParameter { index, actual, expected } => {
            import_name + " received invalid "@ + label_of(index as int) + " "@
                + text::signed_text(actual as int) + ", expected "@
                + text::signed_text(expected as int)
        },
        HostCallError::NegativePointer => import_name + " received negative guest pointer"@,
        HostCallError::NegativeLength => import_name + " received negative length"@,
        HostCallError::NoMemory => import_name + " could not access guest memory"@,
        HostCallError::BeyondMemory { start, end, size } => {
            import_name + " guest range "@ + text::decimal_text(start as nat) + ".."@
                + text::decimal_text(end as nat) + " exceeds memory size "@
                + text::decimal_text(size as nat)
        },
    }
}

impl HostCallError {
    /// What is said of the error in a call of this import.
    pub fn message(self, import_name: &str) -> (message: String)
        ensures
            message@ == host_call_text(self, import_name@),
    {
        match self {
            HostCallError::ParameterCount { received, wanted } => {
                let mut message = import_name.to_owned();
                message.append(" received ");
                message.append(text::decimal_string(received as u64).as_str());
                message.append(" parameters, expected ");
                message.append(text::decimal_string(wanted as u64).as_str());
                message
            },
            HostCallError::NotI32 { index } => {
                let mut message = import_name.to_owned();
                message.append(" parameter ");
                message.append(text::decimal_string(index as u64).as_str());
                message.append(" is not i32");
                message
            },
            HostCallError::InvalidParameter { index, actual, expected } => {
                let mut message = import_name.to_owned();
                message.append(" received invalid ");
                message.append(parameter_label(index));
                message.append(" ");
                message.append(text::signed_string(actual as i64).as_str());
                message.append(", expected ");
                message.append(text::signed_string(expected as i64).as_str());
                message
            },
            HostCallError::NegativePointer => {
                let mut message = import_name.to_owned();
                message.append(" received negative guest pointer");
                message
            },
            HostCallError::NegativeLength => {
                let mut message = import_name.to_owned();
                message.append(" received negative length");
                message
            },
            HostCallError::NoMemory => {
                let mut message = import_name.to_owned();
                message.append(" could not access guest memory");
                message
            },
            HostCallError::BeyondMemory { start, end, size } => {
                let mut message = import_name.to_owned();
                message.append(" guest range ");
                message.append(text::decimal_string(start as u64).as_str());
                message.append("..");
                message.append(text::decimal_string(end as u64).as_str());
                message.append(" exceeds memory size ");
                message.append(text::decimal_string(size as u64).as_str());
                message
            },
        }
    }
}

/// What a parameter of a texture upload is called.
pub open spec fn label_of(index: int) -> Seq<char> {
    if index == 1 {
        "target"@
    } else if index == 2 {
        "level"@
    } else if index == 3 {
        "internalformat"@
    } else if index == 4 {
        "width"@
    } else if index == 5 {
        "height"@
    } else if index == 6 {
        "border"@
    } else if index == 7 {
        "format"@
    } else if index == 8 {
        "type"@
    } else {
        "length"@
    }
}

fn parameter_label(index: usize) -> (label: &'static str)
    ensures
        label@ == label_of(index as int),
{
    if index == 1 {
        "target"
    } else if index == 2 {
        "level"
    } else if index == 3 {
        "internalformat"
    } else if index == 4 {
        "width"
    } else if index == 5 {
        "height"
    } else if index == 6 {
        "border"
    } else if index == 7 {
        "format"
    } else if index == 8 {
        "type"
    } else {
        "length"
    }
}

pub open spec fn parameter(params: Seq<Option<i32>>, index: int) -> Result<i32, HostCallError> {
    if 0 <= index < params.len() && params[index] is Some {
        Ok(params[index]->0)
    } else {
        Err(HostCallError::NotI32 { index: index as usize })
    }
}

/// A parameter that has to be a 32-bit integer; one of another type is `None`.
pub fn i32_parameter(params: &[Option<i32>], index: usize) -> (value: Result<i32, HostCallError>)
    ensures
        value == parameter(params@, index as int),
{
    if index < params.len() {
        match params[index] {
            Some(value) => Ok(value),
            None => Err(HostCallError::NotI32 { index }),
        }
    } else {
        Err(HostCallError::NotI32 { index })
    }
}

/// The part of the module's memory that two parameters name.
pub open spec fn guest_range(
    params: Seq<Option<i32>>,
    pointer_index: int,
    length_index: int,
    memory_size: Option<usize>,
) -> Result<(usize, usize), HostCallError> {
    match (parameter(params, pointer_index), parameter(params, length_index)) {
        (Err(error), _) => Err(error),
        (_, Err(error)) => Err(error),
        (Ok(pointer), Ok(length)) => if pointer < 0 {
            Err(HostCallError::NegativePointer)
        } else if length < 0 {
            Err(HostCallError::NegativeLength)
        } else {
            match memory_size {
                None => Err(HostCallError::NoMemory),
                Some(size) => if pointer + length > size {
                    Err(
                        HostCallError::BeyondMemory {
                            start: pointer as usize,
                            end: (pointer + length) as usize,
                            size,
                        },
                    )
                } else {
                    Ok((pointer as usize, length as usize))
                },
            }
        },
    }
}

/// Checks that two parameters name a part of the module's memory, which may be missing.
pub fn checked_guest_range(
    params: &[Option<i32>],
    pointer_index: usize,
    length_index: usize,
    memory_size: Option<usize>,
) -> (range: Result<(usize, usize), HostCallError>)
    ensures
        range == guest_range(params@, pointer_index as int, length_index as int, memory_size),
        range matches Ok((start, length)) ==> memory_size is Some && start + length
            <= memory_size->0,
{
    let pointer: i32 = match i32_parameter(params, pointer_index) {
        Ok(pointer) => pointer,
        Err(error) => return Err(error),
    };
    let length: i32 = match i32_parameter(params, length_index) {
        Ok(length) => length,
        Err(error) => return Err(error),
    };
    if pointer < 0 {
        return Err(HostCallError::NegativePointer);
    }
    if length < 0 {
        return Err(HostCallError::NegativeLength);
    }
    let start: usize = pointer as usize;
    let end: usize = start + length as usize;
    match memory_size {
        None => Err(HostCallError::NoMemory),
        Some(size) => {
            if end > size {
                Err(HostCallError::BeyondMemory { start, end, size })
            } else {
                Ok((start, length as usize))
            }
        },
    }
}

/// The parameters of a texture upload that are fixed, in the order in which they are checked.
pub open spec fn upload_parameters() -> Seq<(int, i32)> {
    seq![
        (1, GL_TEXTURE_2D),
        (2, 0),
        (3, GL_RGBA),
        (4, GRID_SIZE as i32),
        (5, GRID_SIZE as i32),
        (6, 0),
        (7, GL_RGBA),
        (8, GL_UNSIGNED_BYTE),
        (10, PIXEL_BYTES as i32),
    ]
}

/// The first fixed parameter, from the given one on, that is not what it should be.
pub open spec fn upload_mismatch(params: Seq<Option<i32>>, from: int) -> Option<HostCallError>
    decreases upload_parameters().len() - from,
{
    if from < 0 || from >= upload_parameters().len() {
        None
    } else {
        let (index, expected) = upload_parameters()[from];
        match parameter(params, index) {
            Err(error) => Some(error),
            Ok(actual) => if actual != expected {
                Some(HostCallError::InvalidParameter { index: index as usize, actual, expected })
            } else {
                upload_mismatch(params, from + 1)
            },
        }
    }
}

/// Where the raster of a texture upload stands in the module's memory.
pub open spec fn texture_upload(params: Seq<Option<i32>>, memory_size: Option<usize>) -> Result<
    usize,
    HostCallError,
> {
    if params.len() != 11 {
        Err(HostCallError::ParameterCount { received: params.len() as usize, wanted: 11 })
    } else {
        match upload_mismatch(params, 0) {
            Some(error) => Err(error),
            None => match guest_range(params, 9, 10, memory_size) {
                Ok((start, _)) => Ok(start),
                Err(error) => Err(error),
            },
        }
    }
}

/// The part of the module's memory that a request for entropy names. The first parameter is a
/// handle that means nothing here.
pub open spec fn entropy_request(params: Seq<Option<i32>>, memory_size: Option<usize>) -> Result<
    (usize, usize),
    HostCallError,
> {
    if params.len() != 3 {
        Err(HostCallError::ParameterCount { received: params.len() as usize, wanted: 3 })
    } else {
        guest_range(params, 1, 2, memory_size)
    }
}

/// Checks the parameters of a texture upload. Only one raster of [`PIXEL_BYTES`] bytes is taken;
/// returns where it stands in the module's memory.
pub fn check_texture_upload(params: &[Option<i32>], memory_size: Option<usize>) -> (pointer: Result<
    usize,
    HostCallError,
>)
    ensures
        pointer == texture_upload(params@, memory_size),
        pointer matches Ok(start) ==> memory_size is Some && start + PIXEL_BYTES <= memory_size->0,
{
    if params.len() != 11 {
        return Err(HostCallError::ParameterCount { received: params.len(), wanted: 11 });
    }
    let expectations: [(usize, i32); 9] = [
        (1, GL_TEXTURE_2D),
        (2, 0),
        (3, GL_RGBA),
        (4, GRID_SIZE as i32),
        (5, GRID_SIZE as i32),
        (6, 0),
        (7, GL_RGBA),
        (8, GL_UNSIGNED_BYTE),
        (10, PIXEL_BYTES as i32),
    ];
    let mut at: usize = 0;
    while at < 9
        invariant
            at <= 9,
            params@.len() == 11,
            forall|i: int|
                0 <= i < 9 ==> (#[trigger] expectations@[i]).0 == upload_parameters()[i].0
                    && expectations@[i].1 == upload_parameters()[i].1,
            upload_mismatch(params@, 0) == upload_mismatch(params@, at as int),
            at == 9 ==> params@[10] == Some(PIXEL_BYTES as i32),
        decreases 9 - at,
    {
        let (index, expected) = expectations[at];
        match i32_parameter(params, index) {
            Err(error) => return Err(error),
            Ok(actual) => {
                if actual != expected {
                    return Err(HostCallError::InvalidParameter { index, actual, expected });
                }
            },
        }
        at = at + 1;
    }
    match checked_guest_range(params, 9, 10, memory_size) {
        Ok((start, _)) => Ok(start),
        Err(error) => Err(error),
    }
}

/// Checks the parameters of a request for entropy; returns the memory to fill.
pub fn check_entropy_request(params: &[Option<i32>], memory_size: Option<usize>) -> (range: Result<
    (usize, usize),
    HostCallError,
>)
    ensures
        range == entropy_request(params@, memory_size),
        range matches Ok((start, length)) ==> memory_size is Some && start + length
            <= memory_size->0,
{
    if params.len() != 3 {
        return Err(HostCallError::ParameterCount { received: params.len(), wanted: 3 });
    }
    checked_guest_range(params, 1, 2, memory_size)
}

/// Steps at most once for a new time bucket. Buckets that nobody observed are not made up for.
pub fn advance_observed_bucket(last_tick: &mut Option<u64>, tick: u64) -> (advanced: bool)
    ensures
        advanced == (*old(last_tick) matches Some(last) ==> tick > last),
        *final(last_tick) == if advanced {
            Some(tick)
        } else {
            *old(last_tick)
        },
{
    if let Some(last) = *last_tick {
        if tick <= last {
            return false;
        }
    }
    *last_tick = Some(tick);
    true
}

#[derive(Clone, Copy, Debug, PartialEq, Eq, Structural)]
pub enum WaterError {
    NoInitialUploads,
    UnexpectedUploads { count: usize },
}

/// What is said of an error.
pub open spec fn water_text(error: WaterError) -> Seq<char> {
    match error {
        WaterError::NoInitialUploads => {
            "original Web water function produced no initial texture uploads"@
        },
        WaterError::UnexpectedUploads { count } => {
            "original Web water function produced "@ + text::decimal_text(count as nat)
                + " texture uploads, expected 0 or 2"@
        },
    }
}

impl WaterError {
    /// What is said of the error.
    pub fn message(self) -> (message: String)
        ensures
            message@ == water_text(self),
    {
        match self {
            WaterError::NoInitialUploads => {
                "original Web water function produced no initial texture uploads".to_owned()
            },
            WaterError::UnexpectedUploads { count } => {
                let mut message = "original Web water function produced ".to_owned();
                message.append(text::decimal_string(count as u64).as_str());
                message.append(" texture uploads, expected 0 or 2");
                message
            },
        }
    }
}

/// What is wrong with the uploads of one step, where `kept` are the rasters from before.
pub open spec fn settling_fault(
    kept: Option<(Seq<u8>, Seq<u8>)>,
    uploads: Seq<Seq<u8>>,
) -> Option<WaterError> {
    if uploads.len() == 2 || (uploads.len() == 0 && kept is Some) {
        None
    } else if uploads.len() == 0 {
        Some(WaterError::NoInitialUploads)
    } else {
        Some(WaterError::UnexpectedUploads { count: uploads.len() as usize })
    }
}

/// The rasters that are kept after the uploads of one step.
pub open spec fn settled(kept: Option<(Seq<u8>, Seq<u8>)>, uploads: Seq<Seq<u8>>) -> Option<
    (Seq<u8>, Seq<u8>),
> {
    if uploads.len() == 2 {
        Some((uploads[0], uploads[1]))
    } else {
        kept
    }
}

/// The last pair of rasters that the water simulation uploaded.
pub struct WaterCapture {
    pub last_uploads: Option<(Vec<u8>, Vec<u8>)>,
}

impl WaterCapture {
    pub open spec fn rasters(self) -> Option<(Seq<u8>, Seq<u8>)> {
        match self.last_uploads {
            Some((still, flowing)) => Some((still@, flowing@)),
            None => None,
        }
    }

    pub fn new() -> (capture: WaterCapture)
        ensures
            capture.rasters() is None,
    {
        WaterCapture { last_uploads: None }
    }

    /// Takes what one step uploaded: a new pair, or nothing once there is a pair to keep.
    pub fn settle(&mut self, uploads: Vec<Vec<u8>>) -> (settled: Result<(), WaterError>)
        ensures
            ({
                let seen = uploads@.map_values(|upload: Vec<u8>| upload@);
                &&& settled == match settling_fault(old(self).rasters(), seen) {
                    Some(error) => Err::<(), WaterError>(error),
                    None => Ok(()),
                }
                &&& final(self).rasters() == self::settled(old(self).rasters(), seen)
            }),
            settled is Ok ==> final(self).rasters() is Some,
    {
        let ghost seen = uploads@.map_values(|upload: Vec<u8>| upload@);
        assert(seen.len() == uploads@.len());
        let mut uploads = uploads;
        let count: usize = uploads.len();
        if count == 2 {
            let flowing = uploads.swap_remove(1);
            let still = uploads.swap_remove(0);
            self.last_uploads = Some((still, flowing));
            Ok(())
        } else if count == 0 {
            if self.last_uploads.is_some() {
                Ok(())
            } else {
                Err(WaterError::NoInitialUploads)
            }
        } else {
            Err(WaterError::UnexpectedUploads { count })
        }
    }
}

/// Where the state of the lava simulation says whether the lava flows.
pub const LAVA_FLOWING_OFFSET: usize = 4_100;

/// The state of the lava simulation before its first step: zero throughout, but for the flag of
/// lava that flows.
pub open spec fn first_lava_state(flowing: bool) -> Seq<u8> {
    Seq::new(
        STATE_BYTES as nat,
        |i: int|
            if flowing && i == LAVA_FLOWING_OFFSET {
                1u8
            } else {
                0u8
            },
    )
}

/// Makes the state of the lava simulation before its first step.
pub fn lava_state(flowing: bool) -> (state: Vec<u8>)
    ensures
        state@ == first_lava_state(flowing),
{
    let mut state: Vec<u8> = vec![0u8; STATE_BYTES];
    if flowing {
        state.set(LAVA_FLOWING_OFFSET, 1);
    }
    state
}

pub const WATER_FIELD_COUNT: usize = 5;

/// The fields of the water simulation's state that are set before its first step, by their
/// offsets: where the raster stands and how long it is, and the format and size of an upload.
pub open spec fn water_fields(pixels: i32) -> Seq<(usize, i32)> {
    seq![
        (92usize, pixels),
        (100usize, PIXEL_BYTES as i32),
        (104usize, GL_RGBA),
        (108usize, GRID_SIZE as i32),
        (112usize, GRID_SIZE as i32),
    ]
}

/// Lists the fields of the water simulation's state that are set before its first step.
pub fn water_state_fields(pixels: i32) -> (fields: Vec<(usize, i32)>)
    ensures
        fields@ == water_fields(pixels),
{
    vec![
        (92, pixels),
        (100, PIXEL_BYTES as i32),
        (104, GL_RGBA),
        (108, GRID_SIZE as i32),
        (112, GRID_SIZE as i32),
    ]
}

} // verus!
