//! The list of block textures: the width of the atlas, the number of its blocks, and a line for
//! each block.

use vstd::prelude::*;
use vstd::slice::slice_to_vec;
use vstd::string::StringExecFns;

use crate::text;
use crate::text::NumberError;

verus! {

pub const ATLAS_DIMENSION: u32 = 512;

pub const TILE_DIMENSION: u32 = 16;

/// Why a block list cannot be used.
#[derive(Clone, Copy, Debug, PartialEq, Eq, Structural)]
pub enum LayoutError {
    MissingLineWidth,
    /// The line width is no 32-bit number.
    LineWidth(NumberError),
    MissingSlotCount,
    /// The slot count is no 32-bit number.
    SlotCount(NumberError),
    ZeroDimension,
    /// The line width does not belong to the atlas.
    AtlasWidth(u32),
    /// More blocks are declared than the atlas has room for.
    AtlasHeight(u32),
    /// The width of the atlas in pixels is no 32-bit number.
    AtlasOverflow,
    /// The entry of this index has no row.
    MissingRow(usize),
    /// The row of this entry is no 32-bit number.
    Row(usize, NumberError),
    /// The entry of this index has no column.
    MissingColumn(usize),
    /// The column of this entry is no 32-bit number.
    Column(usize, NumberError),
    /// The entry of this index has no name or lies outside the atlas.
    InvalidEntry(usize),
    /// The number of entries is not the declared one.
    Listed { declared: u32, listed: usize },
}

/// Who reads a block list. Each says in its own words what is wrong with one.
#[derive(Clone, Copy, Debug, PartialEq, Eq, Structural)]
pub enum ListReader {
    Blocks,
    Bounce,
    Cube,
}

/// What a reader says of a line that should hold a number, by the name of the number.
pub open spec fn header_text(
    reader: ListReader,
    name: Seq<char>,
    error: Option<NumberError>,
) -> Seq<char> {
    match (reader, error) {
        (ListReader::Cube, None) => "full_blocks.txt is missing its "@ + name,
        (ListReader::Cube, Some(error)) => text::number_text(error),
        (_, None) => "full_blocks.txt is missing "@ + name,
        (_, Some(error)) => {
            "cannot parse "@ + name + " in full_blocks.txt: "@ + text::number_text(error)
        },
    }
}

/// What a reader says of an error.
pub open spec fn layout_text(reader: ListReader, error: LayoutError) -> Seq<char> {
    match error {
        LayoutError::MissingLineWidth => header_text(reader, "line width"@, None),
        LayoutError::LineWidth(error) => header_text(reader, "line width"@, Some(error)),
        LayoutError::MissingSlotCount => header_text(reader, "slot count"@, None),
        LayoutError::SlotCount(error) => header_text(reader, "slot count"@, Some(error)),
        LayoutError::ZeroDimension => if reader is Cube {
            "full_blocks.txt has a zero line width or slot count"@
        } else {
            "full_blocks.txt must contain non-zero dimensions"@
        },
        LayoutError::AtlasWidth(width) => {
            let told = if reader is Bounce {
                " does not describe the 512px atlas"@
            } else {
                " does not describe a 512px, 16px-tile atlas"@
            };
            "full_blocks.txt line width "@ + text::decimal_text(width as nat) + told
        },
        LayoutError::AtlasHeight(count) => {
            "full_blocks.txt has "@ + text::decimal_text(count as nat)
                + " slots, exceeding the 512x512 atlas"@
        },
        LayoutError::AtlasOverflow => "atlas width overflow"@,
        LayoutError::MissingRow(index) => {
            "missing row in full_blocks.txt entry "@ + text::decimal_text(index as nat)
        },
        LayoutError::Row(_, error) => text::number_text(error),
        LayoutError::MissingColumn(index) => {
            "missing column in full_blocks.txt entry "@ + text::decimal_text(index as nat)
        },
        LayoutError::Column(_, error) => text::number_text(error),
        LayoutError::InvalidEntry(index) => {
            "invalid tile entry "@ + text::decimal_text(index as nat) + " in full_blocks.txt"@
        },
        LayoutError::Listed { declared, listed } => if reader is Cube {
            "full_blocks.txt slot count does not match its records"@
        } else {
            "full_blocks.txt declares "@ + text::decimal_text(declared as nat)
                + " slots but contains "@ + text::decimal_text(listed as nat) + " entries"@
        },
    }
}

fn header_message(reader: ListReader, name: &'static str, error: Option<NumberError>) -> (message:
    String)
    ensures
        message@ == header_text(reader, name@, error),
{
    match (reader, error) {
        (ListReader::Cube, None) => {
            let mut message = "full_blocks.txt is missing its ".to_owned();
            message.append(name);
            message
        },
        (ListReader::Cube, Some(error)) => error.message().to_owned(),
        (_, None) => {
            let mut message = "full_blocks.txt is missing ".to_owned();
            message.append(name);
            message
        },
        (_, Some(error)) => {
            let mut message = "cannot parse ".to_owned();
            message.append(name);
            message.append(" in full_blocks.txt: ");
            message.append(error.message());
            message
        },
    }
}

impl LayoutError {
    /// What a reader says of the error.
    pub fn message(self, reader: ListReader) -> (message: String)
        ensures
            message@ == layout_text(reader, self),
    {
        match self {
            LayoutError::MissingLineWidth => header_message(reader, "line width", None),
            LayoutError::LineWidth(error) => header_message(reader, "line width", Some(error)),
            LayoutError::MissingSlotCount => header_message(reader, "slot count", None),
            LayoutError::SlotCount(error) => header_message(reader, "slot count", Some(error)),
            LayoutError::ZeroDimension => match reader {
                ListReader::Cube => {
                    "full_blocks.txt has a zero line width or slot count".to_owned()
                },
                _ => "full_blocks.txt must contain non-zero dimensions".to_owned(),
            },
            LayoutError::AtlasWidth(width) => {
                let mut message = "full_blocks.txt line width ".to_owned();
                message.append(text::decimal_string(width as u64).as_str());
                match reader {
                    ListReader::Bounce => message.append(" does not describe the 512px atlas"),
                    _ => message.append(" does not describe a 512px, 16px-tile atlas"),
                }
                message
            },
            LayoutError::AtlasHeight(count) => {
                let mut message = "full_blocks.txt has ".to_owned();
                message.append(text::decimal_string(count as u64).as_str());
                message.append(" slots, exceeding the 512x512 atlas");
                message
            },
            LayoutError::AtlasOverflow => "atlas width overflow".to_owned(),
            LayoutError::MissingRow(index) => {
                let mut message = "missing row in full_blocks.txt entry ".to_owned();
                message.append(text::decimal_string(index as u64).as_str());
                message
            },
            LayoutError::Row(_, error) => error.message().to_owned(),
            LayoutError::MissingColumn(index) => {
                let mut message = "missing column in full_blocks.txt entry ".to_owned();
                message.append(text::decimal_string(index as u64).as_str());
                message
            },
            LayoutError::Column(_, error) => error.message().to_owned(),
            LayoutError::InvalidEntry(index) => {
                let mut message = "invalid tile entry ".to_owned();
                message.append(text::decimal_string(index as u64).as_str());
                message.append(" in full_blocks.txt");
                message
            },
            LayoutError::Listed { declared, listed } => match reader {
                ListReader::Cube => {
                    "full_blocks.txt slot count does not match its records".to_owned()
                },
                _ => {
                    let mut message = "full_blocks.txt declares ".to_owned();
                    message.append(text::decimal_string(declared as u64).as_str());
                    message.append(" slots but contains ");
                    message.append(text::decimal_string(listed as u64).as_str());
                    message.append(" entries");
                    message
                },
            },
        }
    }
}

/// The lines in which something other than white space stands.
pub open spec fn nonblank(lines: Seq<Seq<char>>) -> Seq<Seq<char>>
    decreases lines.len(),
{
    if lines.len() == 0 {
        Seq::empty()
    } else {
        let before = nonblank(lines.drop_last());
        if text::trimmed(lines.last()).len() > 0 {
            before.push(lines.last())
        } else {
            before
        }
    }
}

/// The entries of a block list: its lines after the two numbers, without blank ones.
pub open spec fn entries(lines: Seq<Seq<char>>) -> Seq<Seq<char>> {
    if lines.len() < 2 {
        Seq::empty()
    } else {
        nonblank(lines.skip(2))
    }
}

/// The number that a line spells, without the white space around it where that is allowed.
pub open spec fn line_number(line: Seq<char>, trims: bool) -> Result<nat, NumberError> {
    if trims {
        text::number_read(text::trimmed(line), u32::MAX as nat)
    } else {
        text::number_read(line, u32::MAX as nat)
    }
}

/// The line width and the slot count that a block list declares.
pub open spec fn declared(lines: Seq<Seq<char>>, trims: bool) -> Result<(u32, u32), LayoutError> {
    if lines.len() == 0 {
        Err(LayoutError::MissingLineWidth)
    } else {
        match line_number(lines[0], trims) {
            Err(error) => Err(LayoutError::LineWidth(error)),
            Ok(width) => if lines.len() == 1 {
                Err(LayoutError::MissingSlotCount)
            } else {
                match line_number(lines[1], trims) {
                    Err(error) => Err(LayoutError::SlotCount(error)),
                    Ok(count) => Ok((width as u32, count as u32)),
                }
            },
        }
    }
}

/// A declaration of neither zero, with as many entries as it declares.
pub open spec fn complete(
    declaration: Result<(u32, u32), LayoutError>,
    listed: nat,
) -> Result<(u32, u32), LayoutError> {
    match declaration {
        Err(error) => Err(error),
        Ok((width, count)) => if width == 0 || count == 0 {
            Err(LayoutError::ZeroDimension)
        } else if listed != count {
            Err(LayoutError::Listed { declared: count, listed: listed as usize })
        } else {
            Ok((width, count))
        },
    }
}

fn read_number(line: &Vec<char>, trims: bool) -> (number: Result<u32, NumberError>)
    ensures
        number == match line_number(line@, trims) {
            Ok(value) => Ok::<u32, NumberError>(value as u32),
            Err(error) => Err(error),
        },
{
    let parsed = if trims {
        text::read_unsigned(&text::trim(line), u32::MAX as u64)
    } else {
        text::read_unsigned(line, u32::MAX as u64)
    };
    proof {
        text::lemma_a_read_number_fits(text::trimmed(line@), u32::MAX as nat);
        text::lemma_a_read_number_fits(line@, u32::MAX as nat);
    }
    match parsed {
        Ok(number) => Ok(number as u32),
        Err(error) => Err(error),
    }
}

/// Reads the two numbers at the head of a block list.
pub fn read_declaration(lines: &Vec<Vec<char>>, trims: bool) -> (declaration: Result<
    (u32, u32),
    LayoutError,
>)
    ensures
        declaration == declared(text::texts(lines@), trims),
{
    assert(text::texts(lines@).len() == lines@.len());
    if lines.len() == 0 {
        return Err(LayoutError::MissingLineWidth);
    }
    assert(text::texts(lines@)[0] == lines@[0]@);
    let width = match read_number(&lines[0], trims) {
        Ok(width) => width,
        Err(error) => return Err(LayoutError::LineWidth(error)),
    };
    if lines.len() == 1 {
        return Err(LayoutError::MissingSlotCount);
    }
    assert(text::texts(lines@)[1] == lines@[1]@);
    match read_number(&lines[1], trims) {
        Ok(count) => Ok((width, count)),
        Err(error) => Err(LayoutError::SlotCount(error)),
    }
}

/// Collects the entries of a block list.
pub fn list_entries(lines: &Vec<Vec<char>>) -> (listed: Vec<Vec<char>>)
    ensures
        text::texts(listed@) == entries(text::texts(lines@)),
{
    let mut listed: Vec<Vec<char>> = Vec::new();
    let ghost rest = text::texts(lines@).skip(2);
    if lines.len() < 2 {
        assert(text::texts(lines@).len() == lines@.len());
        assert(text::texts(listed@) == Seq::<Seq<char>>::empty());
        return listed;
    }
    let mut index: usize = 2;
    assert(rest.take(0) == Seq::<Seq<char>>::empty());
    assert(text::texts(listed@) == nonblank(rest.take(0)));
    while index < lines.len()
        invariant
            2 <= index <= lines@.len(),
            rest == text::texts(lines@).skip(2),
            text::texts(listed@) == nonblank(rest.take(index - 2)),
        decreases lines@.len() - index,
    {
        let ghost longer = rest.take(index - 1);
        proof {
            assert(longer.drop_last() == rest.take(index - 2));
            assert(longer.last() == lines@[index as int]@);
        }
        let ghost before = listed@;
        if !text::is_blank(&lines[index]) {
            let line = slice_to_vec(lines[index].as_slice());
            listed.push(line);
            assert(text::texts(listed@) == text::texts(before).push(line@));
        }
        index = index + 1;
    }
    assert(rest.take(lines@.len() - 2) == rest);
    listed
}

/// Reads a block list whose entries are only counted.
pub fn read_layout(list: &str, trims: bool) -> (layout: Result<(u32, u32), LayoutError>)
    ensures
        layout == complete(
            declared(text::lines(list@), trims),
            entries(text::lines(list@)).len(),
        ),
{
    let lines = text::split_lines(list);
    let (width, count) = read_declaration(&lines, trims)?;
    if width == 0 || count == 0 {
        return Err(LayoutError::ZeroDimension);
    }
    let listed = list_entries(&lines);
    let found: usize = listed.len();
    assert(text::texts(listed@).len() == found);
    if found as u64 != count as u64 {
        return Err(LayoutError::Listed { declared: count, listed: found });
    }
    Ok((width, count))
}

} // verus!
