//! Numbers, lines and words: how they are read from texts and written to them.

use vstd::prelude::*;

use crate::text;
use crate::text::NumberError;

verus! {

/// A text without anything else in it than a decimal digit of this value.
pub open spec fn digit_of(value: int) -> char {
    (48 + value) as char
}

proof fn lemma_push_digit(digits: Seq<char>, last: char)
    ensures
        text::decimal_value(digits.push(last)) == 10 * text::decimal_value(digits) + (last as nat
            - '0' as nat) as nat,
{
    assert(digits.push(last).drop_last() == digits);
}

/// A digit behind a number multiplies it by ten and adds itself, as long as the number stays in
/// range; beyond the range nothing is read. A lone digit is its own value, and nothing spells
/// nothing.
pub proof fn lemma_a_digit_shifts_the_number(
    shorter: Vec<char>,
    longer: Vec<char>,
    single: Vec<char>,
    nothing: Vec<char>,
    digit: int,
    max: u64,
    read: Option<u64>,
    read_longer: Option<u64>,
    read_single: Option<u64>,
    read_nothing: Option<u64>,
)
    requires
        0 <= digit <= 9,
        longer@ == shorter@.push(digit_of(digit)),
        single@ == seq![digit_of(digit)],
        nothing@.len() == 0,
        call_ensures(text::parse_unsigned, (&shorter, max), read),
        call_ensures(text::parse_unsigned, (&longer, max), read_longer),
        call_ensures(text::parse_unsigned, (&single, max), read_single),
        call_ensures(text::parse_unsigned, (&nothing, max), read_nothing),
    ensures
        read is Some && 10 * read->0 + digit <= max ==> read_longer is Some && read_longer->0 == 10
            * read->0 + digit,
        read is Some && 10 * read->0 + digit > max ==> read_longer is None,
        digit <= max ==> read_single is Some && read_single->0 == digit,
        read_nothing is None,
{
    let digits = text::unsigned_digits(shorter@);
    let last = digit_of(digit);
    assert(last as int == 48 + digit);
    lemma_push_digit(digits, last);
    lemma_push_digit(Seq::<char>::empty(), last);
    assert(Seq::<char>::empty().push(last) == single@);
    assert(text::unsigned_digits(single@) == single@);
    assert(text::unsigned_digits(nothing@) == nothing@);
    if shorter@.len() > 0 {
        if shorter@[0] == '+' {
            assert(longer@.skip(1) == shorter@.skip(1).push(last));
        }
        assert(text::unsigned_digits(longer@) == digits.push(last));
        if read is Some {
            assert forall|i: int| 0 <= i < digits.push(last).len() implies text::is_digit(
                #[trigger] digits.push(last)[i],
            ) by {
                if i < digits.len() {
                    assert(text::is_digit(digits[i]));
                }
            }
        }
    }
}

/// One plus sign before a number changes nothing. Any character that is no digit, anywhere behind
/// it, spoils the number.
pub proof fn lemma_a_plus_sign_changes_nothing(
    plain: Vec<char>,
    signed: Vec<char>,
    spoiled: Vec<char>,
    place: int,
    max: u64,
    read: Option<u64>,
    read_signed: Option<u64>,
    read_spoiled: Option<u64>,
)
    requires
        plain@.len() > 0,
        plain@[0] != '+',
        signed@ == seq!['+'] + plain@,
        call_ensures(text::parse_unsigned, (&plain, max), read),
        call_ensures(text::parse_unsigned, (&signed, max), read_signed),
        0 <= place < spoiled@.len(),
        place == 0 ==> spoiled@[0] != '+',
        !(48 <= spoiled@[place] as int <= 57),
        call_ensures(text::parse_unsigned, (&spoiled, max), read_spoiled),
    ensures
        read == read_signed,
        read_spoiled is None,
{
    assert(signed@.skip(1) == plain@);
    let digits = text::unsigned_digits(spoiled@);
    if spoiled@[0] == '+' {
        assert(digits[place - 1] == spoiled@[place]);
        assert(!text::is_digit(digits[place - 1]));
    } else {
        assert(!text::is_digit(digits[place]));
    }
}

/// Reading a number and telling why it cannot be read agree: one gives a number exactly where the
/// other does, and the same. An empty text is told apart from one with a wrong character, and that
/// from a number that is too large.
pub proof fn lemma_a_refused_number_has_its_reason(
    text: Vec<char>,
    max: u64,
    read: Option<u64>,
    told: Result<u64, NumberError>,
)
    requires
        call_ensures(text::parse_unsigned, (&text, max), read),
        call_ensures(text::read_unsigned, (&text, max), told),
    ensures
        read is Some <==> told is Ok,
        read is Some ==> read->0 == told->Ok_0,
        text@.len() == 0 <==> told == Err::<u64, NumberError>(NumberError::Empty),
        told is Err && told->Err_0 is TooLarge ==> exists|i: int|
            0 <= i < text@.len() && 48 <= #[trigger] text@[i] as int <= 57,
        text@.len() > 0 && text@[0] != '+' && !(48 <= text@[0] as int <= 57) ==> told == Err::<
            u64,
            NumberError,
        >(NumberError::InvalidDigit),
        text@.len() == 1 && text@[0] == '+' ==> told == Err::<u64, NumberError>(
            NumberError::InvalidDigit,
        ),
{
    text::lemma_a_faultless_text_spells_its_number(text@, max as nat);
    text::lemma_a_read_number_fits(text@, max as nat);
    let digits = text::unsigned_digits(text@);
    lemma_fault_kinds(digits, max as nat, digits.len() as int);
    if text@.len() > 0 && text@[0] != '+' && !(48 <= text@[0] as int <= 57) {
        lemma_first_character(digits, max as nat, digits.len() as int);
    }
    if told is Err && told->Err_0 is TooLarge {
        let i = choose|i: int| 0 <= i < digits.len() && text::is_digit(#[trigger] digits[i]);
        if text@[0] == '+' {
            assert(text@[i + 1] == digits[i]);
        } else {
            assert(text@[i] == digits[i]);
        }
    }
}

proof fn lemma_fault_kinds(digits: Seq<char>, max: nat, count: int)
    requires
        0 <= count <= digits.len(),
    ensures
        text::first_fault(digits, max, count) != Some(NumberError::Empty),
        text::first_fault(digits, max, count) == Some(NumberError::TooLarge) ==> exists|i: int|
            0 <= i < digits.len() && text::is_digit(#[trigger] digits[i]),
    decreases count,
{
    if count > 0 {
        lemma_fault_kinds(digits, max, count - 1);
    }
}

proof fn lemma_first_character(digits: Seq<char>, max: nat, count: int)
    requires
        1 <= count <= digits.len(),
        !text::is_digit(digits[0]),
    ensures
        text::first_fault(digits, max, count) == Some(NumberError::InvalidDigit),
    decreases count,
{
    if count > 1 {
        lemma_first_character(digits, max, count - 1);
    } else {
        reveal_with_fuel(text::first_fault, 2);
    }
}

proof fn lemma_spelled_digits(number: nat)
    ensures
        text::decimal_text(number).len() > 0,
        forall|i: int|
            0 <= i < text::decimal_text(number).len() ==> text::is_digit(
                #[trigger] text::decimal_text(number)[i],
            ),
        text::decimal_value(text::decimal_text(number)) == number,
        text::decimal_text(number)[0] == '0' ==> number == 0,
    decreases number,
{
    let last = ('0' as nat + number % 10) as char;
    if number >= 10 {
        lemma_spelled_digits(number / 10);
        assert(text::decimal_text(number) == text::decimal_text(number / 10).push(last));
        lemma_push_digit(text::decimal_text(number / 10), last);
        assert forall|i: int| 0 <= i < text::decimal_text(number).len() implies text::is_digit(
            #[trigger] text::decimal_text(number)[i],
        ) by {
            if i < text::decimal_text(number / 10).len() {
                assert(text::is_digit(text::decimal_text(number / 10)[i]));
            }
        }
    } else {
        lemma_push_digit(Seq::<char>::empty(), last);
        assert(Seq::<char>::empty().push(last) == text::decimal_text(number));
    }
}

/// A number that is spelled is read back as it was, and it does not begin with a needless zero. A
/// negative number has a minus sign before the spelling of its size.
pub proof fn lemma_a_spelled_number_is_read_back(
    number: u64,
    negative: i64,
    spelled: String,
    spelled_negative: String,
    size: String,
    chars: Vec<char>,
    read: Option<u64>,
)
    requires
        call_ensures(text::decimal_string, (number,), spelled),
        chars@ == spelled@,
        call_ensures(text::parse_unsigned, (&chars, u64::MAX), read),
        call_ensures(text::signed_string, (negative,), spelled_negative),
        negative < 0,
        call_ensures(text::decimal_string, ((-negative) as u64,), size),
    ensures
        read == Some(number),
        spelled@.len() > 1 ==> spelled@[0] != '0',
        spelled_negative@ == seq!['-'] + size@,
{
    lemma_spelled_digits(number as nat);
    let digits = text::decimal_text(number as nat);
    assert(text::is_digit(digits[0]));
    assert(text::unsigned_digits(digits) == digits);
    reveal_strlit("-");
    assert("-"@ == seq!['-']);
    if spelled@.len() > 1 && spelled@[0] == '0' {
        assert(number == 0);
        assert(digits.len() == 1);
    }
}

proof fn lemma_line_feed_at(text: Seq<char>, end: int)
    requires
        0 <= end <= text.len(),
        forall|i: int| 0 <= i < end ==> #[trigger] text[i] != '\n',
        end < text.len() ==> text[end] == '\n',
    ensures
        text::first_line_feed(text) == end,
    decreases text.len(),
{
    if text.len() > 0 && text[0] != '\n' {
        assert forall|i: int| 0 <= i < end - 1 implies #[trigger] text.skip(1)[i] != '\n' by {
            assert(text.skip(1)[i] == text[i + 1]);
        }
        lemma_line_feed_at(text.skip(1), end - 1);
    }
}

/// A line feed ends a line, with or without a carriage return before it, and what follows is split
/// as if it stood alone. A text without a line feed is one line, and an empty one is none.
pub proof fn lemma_a_line_feed_ends_a_line(
    whole: &str,
    rest: &str,
    line: Seq<char>,
    single: &str,
    split: Vec<Vec<char>>,
    split_rest: Vec<Vec<char>>,
    split_single: Vec<Vec<char>>,
)
    requires
        forall|i: int| 0 <= i < line.len() ==> #[trigger] line[i] != '\n',
        whole@ == line.push('\n') + rest@,
        forall|i: int| 0 <= i < single@.len() ==> #[trigger] single@[i] != '\n',
        call_ensures(text::split_lines, (whole,), split),
        call_ensures(text::split_lines, (rest,), split_rest),
        call_ensures(text::split_lines, (single,), split_single),
    ensures
        split@.len() == 1 + split_rest@.len(),
        line.len() > 0 && line.last() == '\r' ==> split@[0]@ == line.drop_last(),
        !(line.len() > 0 && line.last() == '\r') ==> split@[0]@ == line,
        forall|i: int|
            0 <= i < split_rest@.len() ==> (#[trigger] split_rest@[i])@ == split@[i + 1]@,
        single@.len() == 0 ==> split_single@.len() == 0,
        single@.len() > 0 ==> split_single@.len() == 1 && split_single@[0]@ == single@,
{
    let end = line.len() as int;
    assert forall|i: int| 0 <= i < end implies #[trigger] whole@[i] != '\n' by {
        assert(whole@[i] == line[i]);
    }
    assert(whole@[end] == '\n');
    lemma_line_feed_at(whole@, end);
    assert(whole@.take(end) == line);
    assert(whole@.skip(end + 1) == rest@);
    let lines = text::lines(whole@);
    let texts = text::texts(split@);
    assert(texts.len() == split@.len());
    assert(texts[0] == split@[0]@);
    let rest_texts = text::texts(split_rest@);
    assert(rest_texts.len() == split_rest@.len());
    assert forall|i: int| 0 <= i < split_rest@.len() implies (#[trigger] split_rest@[i])@
        == split@[i + 1]@ by {
        assert(rest_texts[i] == split_rest@[i]@);
        assert(texts[i + 1] == split@[i + 1]@);
    }
    lemma_line_feed_at(single@, single@.len() as int);
    let single_texts = text::texts(split_single@);
    assert(single_texts.len() == split_single@.len());
    if single@.len() > 0 {
        assert(single_texts[0] == split_single@[0]@);
    }
}

/// White space: the tabulator and what follows it up to the carriage return, the blank, and the
/// wider spaces and separators of Unicode.
pub open spec fn is_space(c: char) -> bool {
    let code = c as int;
    9 <= code <= 13 || code == 32 || code == 133 || code == 160 || code == 5760 || 8192 <= code
        <= 8202 || code == 8232 || code == 8233 || code == 8239 || code == 8287 || code == 12288
}

pub open spec fn all_space(text: Seq<char>) -> bool {
    forall|i: int| 0 <= i < text.len() ==> is_space(#[trigger] text[i])
}

proof fn lemma_trimmed_start(before: Seq<char>, rest: Seq<char>)
    requires
        all_space(before),
        rest.len() > 0 ==> !is_space(rest[0]),
    ensures
        text::trimmed_start(before + rest) == rest,
    decreases before.len(),
{
    if before.len() > 0 {
        assert((before + rest)[0] == before[0]);
        assert(is_space(before[0]));
        assert((before + rest).skip(1) == before.skip(1) + rest);
        assert forall|i: int| 0 <= i < before.skip(1).len() implies is_space(
            #[trigger] before.skip(1)[i],
        ) by {
            assert(before.skip(1)[i] == before[i + 1]);
        }
        lemma_trimmed_start(before.skip(1), rest);
    } else {
        assert(before + rest == rest);
    }
}

proof fn lemma_trimmed_end(rest: Seq<char>, after: Seq<char>)
    requires
        all_space(after),
        rest.len() > 0 ==> !is_space(rest.last()),
    ensures
        text::trimmed_end(rest + after) == rest,
    decreases after.len(),
{
    if after.len() > 0 {
        assert((rest + after).last() == after.last());
        assert(is_space(after[after.len() - 1]));
        assert((rest + after).drop_last() == rest + after.drop_last());
        assert forall|i: int| 0 <= i < after.drop_last().len() implies is_space(
            #[trigger] after.drop_last()[i],
        ) by {
            assert(after.drop_last()[i] == after[i]);
        }
        lemma_trimmed_end(rest, after.drop_last());
    } else {
        assert(rest + after == rest);
    }
}

/// Trimming takes the white space around a text and nothing else. What is left of white space alone
/// is nothing, and only that is blank.
pub proof fn lemma_trimming_takes_the_space_around(
    whole: Vec<char>,
    before: Seq<char>,
    kept: Seq<char>,
    after: Seq<char>,
    trimmed: Vec<char>,
    blank: bool,
)
    requires
        whole@ == before + kept + after,
        all_space(before),
        all_space(after),
        kept.len() > 0 ==> !is_space(kept[0]) && !is_space(kept.last()),
        kept.len() == 0 ==> after.len() == 0,
        call_ensures(text::trim, (&whole,), trimmed),
        call_ensures(text::is_blank, (&whole,), blank),
    ensures
        trimmed@ == kept,
        blank <==> kept.len() == 0,
{
    assert(whole@ == before + (kept + after));
    if kept.len() > 0 {
        assert((kept + after)[0] == kept[0]);
    }
    lemma_trimmed_start(before, kept + after);
    lemma_trimmed_end(kept, after);
}

proof fn lemma_space_at(text: Seq<char>, end: int)
    requires
        0 <= end <= text.len(),
        forall|i: int| 0 <= i < end ==> !is_space(#[trigger] text[i]),
        end < text.len() ==> is_space(text[end]),
    ensures
        text::first_whitespace(text) == end,
    decreases text.len(),
{
    if text.len() > 0 {
        if end == 0 {
            assert(is_space(text[0]));
        } else {
            assert(!is_space(text[0]));
            assert forall|i: int| 0 <= i < end - 1 implies !is_space(#[trigger] text.skip(1)[i]) by {
                assert(text.skip(1)[i] == text[i + 1]);
            }
            lemma_space_at(text.skip(1), end - 1);
        }
    }
}

proof fn lemma_words_behind_space(before: Seq<char>, rest: Seq<char>)
    requires
        all_space(before),
    ensures
        text::words(before + rest) == text::words(rest),
    decreases before.len(),
{
    if before.len() > 0 {
        assert((before + rest)[0] == before[0]);
        lemma_space_at(before + rest, 0);
        assert((before + rest).skip(1) == before.skip(1) + rest);
        assert forall|i: int| 0 <= i < before.skip(1).len() implies is_space(
            #[trigger] before.skip(1)[i],
        ) by {
            assert(before.skip(1)[i] == before[i + 1]);
        }
        lemma_words_behind_space(before.skip(1), rest);
    } else {
        assert(before + rest == rest);
    }
}

/// White space separates words and belongs to none: a word with white space before it comes first,
/// and what follows the white space behind it is split as if it stood alone.
pub proof fn lemma_space_separates_words(
    whole: Vec<char>,
    rest: Vec<char>,
    before: Seq<char>,
    word: Seq<char>,
    gap: Seq<char>,
    split: Vec<Vec<char>>,
    split_rest: Vec<Vec<char>>,
)
    requires
        all_space(before),
        all_space(gap),
        word.len() > 0,
        forall|i: int| 0 <= i < word.len() ==> !is_space(#[trigger] word[i]),
        gap.len() > 0 || rest@.len() == 0,
        whole@ == before + (word + (gap + rest@)),
        call_ensures(text::split_words, (&whole,), split),
        call_ensures(text::split_words, (&rest,), split_rest),
    ensures
        split@.len() == 1 + split_rest@.len(),
        split@[0]@ == word,
        forall|i: int|
            0 <= i < split_rest@.len() ==> (#[trigger] split_rest@[i])@ == split@[i + 1]@,
{
    let tail = word + (gap + rest@);
    let end = word.len() as int;
    lemma_words_behind_space(before, tail);
    assert forall|i: int| 0 <= i < end implies !is_space(#[trigger] tail[i]) by {
        assert(tail[i] == word[i]);
    }
    if end < tail.len() {
        assert(tail[end] == gap[0]);
    }
    lemma_space_at(tail, end);
    assert(tail.take(end) == word);
    assert(tail.skip(end) == gap + rest@);
    lemma_words_behind_space(gap, rest@);
    let texts = text::texts(split@);
    let rest_texts = text::texts(split_rest@);
    assert(texts == seq![word] + rest_texts);
    assert(texts.len() == split@.len() && rest_texts.len() == split_rest@.len());
    assert(texts[0] == split@[0]@);
    assert forall|i: int| 0 <= i < split_rest@.len() implies (#[trigger] split_rest@[i])@
        == split@[i + 1]@ by {
        assert(rest_texts[i] == split_rest@[i]@);
        assert(texts[i + 1] == split@[i + 1]@);
    }
}

/// White space alone holds no word.
pub proof fn lemma_space_alone_holds_no_word(whole: Vec<char>, split: Vec<Vec<char>>)
    requires
        all_space(whole@),
        call_ensures(text::split_words, (&whole,), split),
    ensures
        split@.len() == 0,
{
    lemma_words_behind_space(whole@, Seq::empty());
    assert(whole@ + Seq::<char>::empty() == whole@);
    assert(text::texts(split@).len() == split@.len());
}

/// Texts and bytes are the same exactly if they agree in every place.
pub proof fn lemma_texts_are_compared_in_every_place(
    left: &str,
    right: &str,
    same: bool,
    first: &[u8],
    second: &[u8],
    same_bytes: bool,
    chars: Vec<char>,
)
    requires
        call_ensures(text::same_text, (left, right), same),
        call_ensures(text::same_bytes, (first, second), same_bytes),
        call_ensures(text::chars_of, (left,), chars),
    ensures
        same <==> left@.len() == right@.len() && forall|i: int|
            0 <= i < left@.len() ==> #[trigger] left@[i] == right@[i],
        same_bytes <==> first@.len() == second@.len() && forall|i: int|
            0 <= i < first@.len() ==> #[trigger] first@[i] == second@[i],
        chars@ == left@,
{
    if left@.len() == right@.len() && (forall|i: int|
        0 <= i < left@.len() ==> #[trigger] left@[i] == right@[i]) {
        assert(left@ =~= right@);
    }
    if first@.len() == second@.len() && (forall|i: int|
        0 <= i < first@.len() ==> #[trigger] first@[i] == second@[i]) {
        assert(first@ =~= second@);
    }
}

} // verus!
