//! Text as the configuration files and the command line hold it: lines, blanks and numbers.

use vstd::prelude::*;
use vstd::slice::{slice_subrange, slice_to_vec};
use vstd::string::StringExecFns;
use vstd::utf8;

verus! {

pub open spec fn is_digit(c: char) -> bool {
    '0' <= c <= '9'
}

/// The value of decimal digits, the most significant first.
pub open spec fn decimal_value(digits: Seq<char>) -> nat
    decreases digits.len(),
{
    if digits.len() == 0 {
        0
    } else {
        10 * decimal_value(digits.drop_last()) + (digits.last() as nat - '0' as nat) as nat
    }
}

/// The digits of a number that may carry a plus sign.
pub open spec fn unsigned_digits(text: Seq<char>) -> Seq<char> {
    if text.len() > 0 && text[0] == '+' {
        text.skip(1)
    } else {
        text
    }
}

/// The unsigned number that a text spells: an optional plus sign and at least one digit, with
/// nothing before, between or after them, and no more than `max`.
pub open spec fn unsigned_number(text: Seq<char>, max: nat) -> Option<nat> {
    let digits = unsigned_digits(text);
    if digits.len() > 0 && (forall|i: int| 0 <= i < digits.len() ==> is_digit(#[trigger] digits[i]))
        && decimal_value(digits) <= max {
        Some(decimal_value(digits))
    } else {
        None
    }
}

proof fn lemma_value_grows(digits: Seq<char>, count: int)
    requires
        0 <= count <= digits.len(),
    ensures
        decimal_value(digits.take(count)) <= decimal_value(digits),
    decreases digits.len() - count,
{
    if count < digits.len() {
        assert(digits.take(count + 1).drop_last() == digits.take(count));
        lemma_value_grows(digits, count + 1);
    } else {
        assert(digits.take(count) == digits);
    }
}

/// Why a text spells no unsigned number.
#[derive(Clone, Copy, Debug, PartialEq, Eq, Structural)]
pub enum NumberError {
    Empty,
    InvalidDigit,
    TooLarge,
}

/// What is said of a text that spells no number.
pub open spec fn number_text(error: NumberError) -> Seq<char> {
    match error {
        NumberError::Empty => "cannot parse integer from empty string"@,
        NumberError::InvalidDigit => "invalid digit found in string"@,
        NumberError::TooLarge => "number too large to fit in target type"@,
    }
}

impl NumberError {
    /// What is said of the error.
    pub fn message(self) -> (message: &'static str)
        ensures
            message@ == number_text(self),
    {
        match self {
            NumberError::Empty => "cannot parse integer from empty string",
            NumberError::InvalidDigit => "invalid digit found in string",
            NumberError::TooLarge => "number too large to fit in target type",
        }
    }
}

/// The first fault among some digits, from the left: a character that is no digit, or a digit with
/// which the value exceeds `max`.
pub open spec fn first_fault(digits: Seq<char>, max: nat, count: int) -> Option<NumberError>
    decreases count,
{
    if count <= 0 {
        None
    } else {
        match first_fault(digits, max, count - 1) {
            Some(error) => Some(error),
            None => if !is_digit(digits[count - 1]) {
                Some(NumberError::InvalidDigit)
            } else if decimal_value(digits.take(count)) > max {
                Some(NumberError::TooLarge)
            } else {
                None
            },
        }
    }
}

/// The unsigned number that a text spells, or its first fault. A plus sign alone is an invalid
/// digit.
pub open spec fn number_read(text: Seq<char>, max: nat) -> Result<nat, NumberError> {
    let digits = unsigned_digits(text);
    if text.len() == 0 {
        Err(NumberError::Empty)
    } else if digits.len() == 0 {
        Err(NumberError::InvalidDigit)
    } else {
        match first_fault(digits, max, digits.len() as int) {
            Some(error) => Err(error),
            None => Ok(decimal_value(digits)),
        }
    }
}

proof fn lemma_faultless(digits: Seq<char>, max: nat, count: int)
    requires
        0 <= count <= digits.len(),
    ensures
        first_fault(digits, max, count) is None <==> decimal_value(digits.take(count)) <= max && (
        forall|i: int| 0 <= i < count ==> is_digit(#[trigger] digits[i])),
    decreases count,
{
    if count > 0 {
        lemma_faultless(digits, max, count - 1);
        assert(digits.take(count).take(count - 1) == digits.take(count - 1));
        lemma_value_grows(digits.take(count), count - 1);
    } else {
        assert(digits.take(0) == Seq::<char>::empty());
    }
}

proof fn lemma_first_fault_stays(digits: Seq<char>, max: nat, upto: int, count: int)
    requires
        0 <= upto <= count,
        first_fault(digits, max, upto) is Some,
    ensures
        first_fault(digits, max, count) == first_fault(digits, max, upto),
    decreases count - upto,
{
    if upto < count {
        lemma_first_fault_stays(digits, max, upto, count - 1);
    }
}

/// A text spells a number exactly where reading it finds no fault, and it is the number that is
/// read.
pub proof fn lemma_a_faultless_text_spells_its_number(text: Seq<char>, max: nat)
    ensures
        unsigned_number(text, max) == match number_read(text, max) {
            Ok(value) => Some(value),
            Err(_) => None,
        },
{
    let digits = unsigned_digits(text);
    lemma_faultless(digits, max, digits.len() as int);
    assert(digits.take(digits.len() as int) == digits);
}

/// A number that is read is not larger than allowed.
pub proof fn lemma_a_read_number_fits(text: Seq<char>, max: nat)
    ensures
        number_read(text, max) matches Ok(value) ==> value <= max,
{
    let digits = unsigned_digits(text);
    lemma_faultless(digits, max, digits.len() as int);
    assert(digits.take(digits.len() as int) == digits);
}

/// Reads an unsigned decimal number, or says what its first fault is.
pub fn read_unsigned(text: &Vec<char>, max: u64) -> (number: Result<u64, NumberError>)
    ensures
        number == match number_read(text@, max as nat) {
            Ok(value) => Ok::<u64, NumberError>(value as u64),
            Err(error) => Err(error),
        },
{
    if text.len() == 0 {
        return Err(NumberError::Empty);
    }
    let start: usize = if text[0] == '+' {
        1
    } else {
        0
    };
    let ghost digits = unsigned_digits(text@);
    if text.len() == start {
        return Err(NumberError::InvalidDigit);
    }
    let mut value: u64 = 0;
    let mut index: usize = start;
    assert(digits.take(0) == Seq::<char>::empty());
    while index < text.len()
        invariant
            start <= index <= text.len(),
            start < text.len(),
            start == 0 || start == 1,
            digits == text@.skip(start as int),
            digits == unsigned_digits(text@),
            first_fault(digits, max as nat, index - start) is None,
            value == decimal_value(digits.take(index - start)),
            value <= max,
        decreases text.len() - index,
    {
        let c = text[index];
        assert(digits[index - start] == c);
        let ghost longer = digits.take(index - start + 1);
        assert(longer.drop_last() == digits.take(index - start));
        if c < '0' || '9' < c {
            proof {
                lemma_first_fault_stays(
                    digits,
                    max as nat,
                    index - start + 1,
                    digits.len() as int,
                );
            }
            return Err(NumberError::InvalidDigit);
        }
        let digit: u64 = (c as u32 - '0' as u32) as u64;
        if value > (u64::MAX - digit) / 10 || value * 10 + digit > max {
            proof {
                lemma_first_fault_stays(
                    digits,
                    max as nat,
                    index - start + 1,
                    digits.len() as int,
                );
            }
            return Err(NumberError::TooLarge);
        }
        value = value * 10 + digit;
        index = index + 1;
    }
    assert(digits.take(digits.len() as int) == digits);
    Ok(value)
}

/// Reads an unsigned decimal number.
pub fn parse_unsigned(text: &Vec<char>, max: u64) -> (number: Option<u64>)
    ensures
        number == match unsigned_number(text@, max as nat) {
            Some(value) => Some(value as u64),
            None => None,
        },
{
    proof {
        lemma_a_faultless_text_spells_its_number(text@, max as nat);
    }
    match read_unsigned(text, max) {
        Ok(value) => Some(value),
        Err(_) => None,
    }
}

/// The characters of a text.
pub fn chars_of(text: &str) -> (chars: Vec<char>)
    ensures
        chars@ == text@,
{
    let mut chars: Vec<char> = Vec::new();
    for c in iter: text.chars()
        invariant
            chars@ == text@.take(iter.index()),
            iter.seq() == text@,
    {
        assert(text@.take(iter.index() + 1) == text@.take(iter.index()).push(c));
        chars.push(c);
    }
    assert(text@.take(text@.len() as int) == text@);
    chars
}

/// Calls `String::from_iter` on the characters. The string holds exactly these characters, in
/// their order.
#[verifier::external_body]
pub(crate) fn string_of(chars: &[char]) -> (text: String)
    ensures
        text@ == chars@,
{
    String::from_iter(chars)
}

/// Whether two texts hold the same characters.
pub fn same_text(left: &str, right: &str) -> (same: bool)
    ensures
        same == (left@ == right@),
{
    let same = same_bytes(left.as_bytes(), right.as_bytes());
    proof {
        utf8::encode_utf8_decode_utf8(left@);
        utf8::encode_utf8_decode_utf8(right@);
    }
    same
}

pub fn same_bytes(left: &[u8], right: &[u8]) -> (same: bool)
    ensures
        same == (left@ == right@),
{
    if left.len() != right.len() {
        return false;
    }
    let mut index: usize = 0;
    while index < left.len()
        invariant
            index <= left.len() == right.len(),
            forall|i: int| 0 <= i < index ==> left@[i] == right@[i],
        decreases left.len() - index,
    {
        if left[index] != right[index] {
            return false;
        }
        index = index + 1;
    }
    assert(left@ == right@);
    true
}

/// Where the first line feed of a text stands, or the length of a text without one.
pub open spec fn first_line_feed(text: Seq<char>) -> int
    decreases text.len(),
{
    if text.len() == 0 || text[0] == '\n' {
        0
    } else {
        1 + first_line_feed(text.skip(1))
    }
}

/// A line without the carriage return that may stand before its line feed.
pub open spec fn without_carriage_return(line: Seq<char>) -> Seq<char> {
    if line.len() > 0 && line.last() == '\r' {
        line.drop_last()
    } else {
        line
    }
}

/// The lines of a text. A line feed, with or without a carriage return before it, ends a line;
/// the last line need not be ended.
pub open spec fn lines(text: Seq<char>) -> Seq<Seq<char>>
    decreases text.len(),
{
    let end = first_line_feed(text);
    if text.len() == 0 {
        Seq::empty()
    } else if end < text.len() && end >= 0 {
        seq![without_carriage_return(text.take(end))] + lines(text.skip(end + 1))
    } else {
        seq![text]
    }
}

/// The characters with the Unicode property `White_Space`.
pub open spec fn is_whitespace(c: char) -> bool {
    ||| '\u{9}' <= c <= '\u{d}'
    ||| c == ' '
    ||| c == '\u{85}'
    ||| c == '\u{a0}'
    ||| c == '\u{1680}'
    ||| '\u{2000}' <= c <= '\u{200a}'
    ||| c == '\u{2028}'
    ||| c == '\u{2029}'
    ||| c == '\u{202f}'
    ||| c == '\u{205f}'
    ||| c == '\u{3000}'
}

pub open spec fn trimmed_start(text: Seq<char>) -> Seq<char>
    decreases text.len(),
{
    if text.len() > 0 && is_whitespace(text[0]) {
        trimmed_start(text.skip(1))
    } else {
        text
    }
}

pub open spec fn trimmed_end(text: Seq<char>) -> Seq<char>
    decreases text.len(),
{
    if text.len() > 0 && is_whitespace(text.last()) {
        trimmed_end(text.drop_last())
    } else {
        text
    }
}

/// A text without the white space around it.
pub open spec fn trimmed(text: Seq<char>) -> Seq<char> {
    trimmed_end(trimmed_start(text))
}

/// The texts that a list of character vectors holds.
pub open spec fn texts(lines: Seq<Vec<char>>) -> Seq<Seq<char>> {
    lines.map_values(|line: Vec<char>| line@)
}

proof fn lemma_first_line_feed(text: Seq<char>, end: int)
    requires
        0 <= end <= text.len(),
        forall|i: int| 0 <= i < end ==> text[i] != '\n',
        end < text.len() ==> text[end] == '\n',
    ensures
        first_line_feed(text) == end,
    decreases text.len(),
{
    if text.len() > 0 && text[0] != '\n' {
        lemma_first_line_feed(text.skip(1), end - 1);
    }
}

/// Splits a text into its lines.
pub fn split_lines(text: &str) -> (split: Vec<Vec<char>>)
    ensures
        texts(split@) == lines(text@),
{
    let chars = chars_of(text);
    let mut split: Vec<Vec<char>> = Vec::new();
    let mut start: usize = 0;
    assert(chars@.skip(0) == chars@);
    assert(texts(split@) == Seq::<Seq<char>>::empty());
    while start < chars.len()
        invariant
            start <= chars@.len(),
            chars@ == text@,
            texts(split@) + lines(chars@.skip(start as int)) == lines(text@),
        decreases chars@.len() - start,
    {
        let ghost rest = chars@.skip(start as int);
        let mut end: usize = start;
        while end < chars.len() && chars[end] != '\n'
            invariant
                start <= end <= chars@.len(),
                forall|i: int| start <= i < end ==> chars@[i] != '\n',
            decreases chars@.len() - end,
        {
            end = end + 1;
        }
        proof {
            lemma_first_line_feed(rest, end - start);
        }
        let ghost before = split@;
        if end < chars.len() {
            let stop: usize = if end > start && chars[end - 1] == '\r' {
                end - 1
            } else {
                end
            };
            let line = slice_to_vec(slice_subrange(chars.as_slice(), start, stop));
            assert(line@ == without_carriage_return(rest.take(end - start)));
            split.push(line);
            proof {
                assert(rest.skip(end - start + 1) == chars@.skip(end + 1));
                assert(texts(split@) == texts(before).push(line@));
                assert(lines(rest) == seq![line@] + lines(chars@.skip(end + 1)));
                assert(texts(before) + (seq![line@] + lines(chars@.skip(end + 1))) == texts(
                    before,
                ).push(line@) + lines(chars@.skip(end + 1)));
            }
            start = end + 1;
        } else {
            let line = slice_to_vec(slice_subrange(chars.as_slice(), start, end));
            assert(line@ == rest);
            split.push(line);
            proof {
                assert(texts(split@) == texts(before).push(line@));
                assert(lines(rest) == seq![line@]);
                assert(texts(before) + seq![line@] == texts(before).push(line@));
                assert(chars@.skip(end as int) == Seq::<char>::empty());
                assert(lines(chars@.skip(end as int)) == Seq::<Seq<char>>::empty());
            }
            start = end;
        }
    }
    proof {
        assert(chars@.skip(start as int) == Seq::<char>::empty());
        assert(lines(chars@.skip(start as int)) == Seq::<Seq<char>>::empty());
        assert(texts(split@) + Seq::<Seq<char>>::empty() == texts(split@));
    }
    split
}

fn is_white(c: char) -> (white: bool)
    ensures
        white == is_whitespace(c),
{
    ('\u{9}' <= c && c <= '\u{d}') || c == ' ' || c == '\u{85}' || c == '\u{a0}' || c
        == '\u{1680}' || ('\u{2000}' <= c && c <= '\u{200a}') || c == '\u{2028}' || c == '\u{2029}'
        || c == '\u{202f}' || c == '\u{205f}' || c == '\u{3000}'
}

/// Removes the white space around a text.
pub fn trim(chars: &Vec<char>) -> (result: Vec<char>)
    ensures
        result@ == trimmed(chars@),
{
    let mut start: usize = 0;
    assert(chars@.skip(0) == chars@);
    while start < chars.len() && is_white(chars[start])
        invariant
            start <= chars@.len(),
            trimmed_start(chars@) == trimmed_start(chars@.skip(start as int)),
        decreases chars@.len() - start,
    {
        assert(chars@.skip(start as int).skip(1) == chars@.skip(start + 1));
        start = start + 1;
    }
    let ghost rest = chars@.skip(start as int);
    let mut end: usize = chars.len();
    assert(chars@.subrange(start as int, end as int) == rest);
    while start < end && is_white(chars[end - 1])
        invariant
            start <= end <= chars@.len(),
            trimmed_end(rest) == trimmed_end(chars@.subrange(start as int, end as int)),
        decreases end - start,
    {
        assert(chars@.subrange(start as int, end as int).drop_last() == chars@.subrange(
            start as int,
            end - 1,
        ));
        end = end - 1;
    }
    slice_to_vec(slice_subrange(chars.as_slice(), start, end))
}

/// The decimal spelling of a number.
pub open spec fn decimal_text(number: nat) -> Seq<char>
    decreases number,
{
    let digit = seq![('0' as nat + number % 10) as char];
    if number < 10 {
        digit
    } else {
        decimal_text(number / 10) + digit
    }
}

/// Spells a number in decimal.
pub fn decimal_string(number: u64) -> (spelled: String)
    ensures
        spelled@ == decimal_text(number as nat),
{
    let chars = decimal_chars(number);
    string_of(chars.as_slice())
}

fn decimal_chars(number: u64) -> (chars: Vec<char>)
    ensures
        chars@ == decimal_text(number as nat),
    decreases number,
{
    let mut chars: Vec<char> = Vec::new();
    if number >= 10 {
        chars = decimal_chars(number / 10);
    }
    let digit: u8 = (number % 10) as u8;
    chars.push((48 + digit) as char);
    assert(chars@ == decimal_text(number as nat));
    chars
}

/// The decimal spelling of a number that may be negative.
pub open spec fn signed_text(number: int) -> Seq<char> {
    if number < 0 {
        "-"@ + decimal_text((-number) as nat)
    } else {
        decimal_text(number as nat)
    }
}

/// Spells a number that may be negative in decimal.
pub fn signed_string(number: i64) -> (spelled: String)
    ensures
        spelled@ == signed_text(number as int),
{
    if number < 0 {
        let magnitude: u64 = (-(number + 1)) as u64 + 1;
        let mut spelled = "-".to_owned();
        spelled.append(decimal_string(magnitude).as_str());
        spelled
    } else {
        decimal_string(number as u64)
    }
}

/// How `{:?}` spells a text: in quotes, with the characters that need it escaped.
pub uninterp spec fn quoted_text(text: Seq<char>) -> Seq<char>;

/// Formats a text with `format!("{:?}", ..)`, the `Debug` of `str`.
#[verifier::external_body]
pub(crate) fn quoted(text: &str) -> (spelled: String)
    ensures
        spelled@ == quoted_text(text@),
{
    format!("{text:?}")
}

/// Whether nothing but white space stands in a text.
pub fn is_blank(chars: &Vec<char>) -> (blank: bool)
    ensures
        blank == (trimmed(chars@).len() == 0),
{
    trim(chars).len() == 0
}

/// Where the first white space of a text stands, or the length of a text without any.
pub open spec fn first_whitespace(text: Seq<char>) -> int
    decreases text.len(),
{
    if text.len() == 0 || is_whitespace(text[0]) {
        0
    } else {
        1 + first_whitespace(text.skip(1))
    }
}

/// The words of a text, which white space separates.
pub open spec fn words(text: Seq<char>) -> Seq<Seq<char>>
    decreases text.len(),
{
    let end = first_whitespace(text);
    if text.len() == 0 {
        Seq::empty()
    } else if 0 < end <= text.len() {
        seq![text.take(end)] + words(text.skip(end))
    } else {
        words(text.skip(1))
    }
}

proof fn lemma_first_whitespace(text: Seq<char>, end: int)
    requires
        0 <= end <= text.len(),
        forall|i: int| 0 <= i < end ==> !is_whitespace(#[trigger] text[i]),
        end < text.len() ==> is_whitespace(text[end]),
    ensures
        first_whitespace(text) == end,
    decreases text.len(),
{
    if text.len() > 0 && !is_whitespace(text[0]) {
        assert(forall|i: int| 0 <= i < end - 1 ==> text.skip(1)[i] == text[i + 1]);
        lemma_first_whitespace(text.skip(1), end - 1);
    }
}

/// Splits a text into its words.
pub fn split_words(chars: &Vec<char>) -> (split: Vec<Vec<char>>)
    ensures
        texts(split@) == words(chars@),
{
    let mut split: Vec<Vec<char>> = Vec::new();
    let mut start: usize = 0;
    assert(chars@.skip(0) == chars@);
    assert(texts(split@) == Seq::<Seq<char>>::empty());
    while start < chars.len()
        invariant
            start <= chars@.len(),
            texts(split@) + words(chars@.skip(start as int)) == words(chars@),
        decreases chars@.len() - start,
    {
        let ghost rest = chars@.skip(start as int);
        let mut end: usize = start;
        while end < chars.len() && !is_white(chars[end])
            invariant
                start <= end <= chars@.len(),
                forall|i: int| start <= i < end ==> !is_whitespace(#[trigger] chars@[i]),
            decreases chars@.len() - end,
        {
            end = end + 1;
        }
        proof {
            assert(forall|i: int| 0 <= i < end - start ==> rest[i] == chars@[start + i]);
            lemma_first_whitespace(rest, end - start);
        }
        if start < end {
            let ghost before = split@;
            let word = slice_to_vec(slice_subrange(chars.as_slice(), start, end));
            assert(word@ == rest.take(end - start));
            split.push(word);
            proof {
                assert(rest.skip(end - start) == chars@.skip(end as int));
                assert(texts(split@) == texts(before).push(word@));
                assert(texts(before) + (seq![word@] + words(chars@.skip(end as int))) == texts(
                    before,
                ).push(word@) + words(chars@.skip(end as int)));
            }
            start = end;
        } else {
            assert(rest.skip(1) == chars@.skip(start + 1));
            start = start + 1;
        }
    }
    proof {
        assert(chars@.skip(start as int) == Seq::<char>::empty());
        assert(texts(split@) + Seq::<Seq<char>>::empty() == texts(split@));
    }
    split
}

/// Calls `String::from_utf8`. It succeeds exactly on UTF-8, with the text that the bytes encode.
#[verifier::external_body]
pub(crate) fn decode(bytes: Vec<u8>) -> (text: Option<String>)
    ensures
        match text {
            Some(text) => utf8::valid_utf8(bytes@) && text@ == utf8::decode_utf8(bytes@),
            None => !utf8::valid_utf8(bytes@),
        },
{
    String::from_utf8(bytes).ok()
}

} // verus!
