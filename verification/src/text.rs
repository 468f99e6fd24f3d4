//! Building messages: decimal numbers and pieces of text.
use vstd::prelude::*;
use vstd::string::{StrSliceExecFns, StringExecFns};

verus! {

pub open spec fn digit(value: nat) -> char {
    if value == 0 {
        '0'
    } else if value == 1 {
        '1'
    } else if value == 2 {
        '2'
    } else if value == 3 {
        '3'
    } else if value == 4 {
        '4'
    } else if value == 5 {
        '5'
    } else if value == 6 {
        '6'
    } else if value == 7 {
        '7'
    } else if value == 8 {
        '8'
    } else {
        '9'
    }
}

/// A number in decimal, without leading zeros.
pub open spec fn decimal(value: nat) -> Seq<char>
    decreases value,
{
    if value < 10 {
        seq![digit(value)]
    } else {
        decimal(value / 10).push(digit(value % 10))
    }
}

fn digit_text(value: u64) -> (text: &'static str)
    requires
        value < 10,
    ensures
        text@ == seq![digit(value as nat)],
{
    proof {
        reveal_strlit("0");
        reveal_strlit("1");
        reveal_strlit("2");
        reveal_strlit("3");
        reveal_strlit("4");
        reveal_strlit("5");
        reveal_strlit("6");
        reveal_strlit("7");
        reveal_strlit("8");
        reveal_strlit("9");
        assert("0"@ =~= seq!['0']);
        assert("1"@ =~= seq!['1']);
        assert("2"@ =~= seq!['2']);
        assert("3"@ =~= seq!['3']);
        assert("4"@ =~= seq!['4']);
        assert("5"@ =~= seq!['5']);
        assert("6"@ =~= seq!['6']);
        assert("7"@ =~= seq!['7']);
        assert("8"@ =~= seq!['8']);
        assert("9"@ =~= seq!['9']);
    }
    match value {
        0 => "0",
        1 => "1",
        2 => "2",
        3 => "3",
        4 => "4",
        5 => "5",
        6 => "6",
        7 => "7",
        8 => "8",
        _ => "9",
    }
}

pub fn push_str(out: &mut String, text: &str)
    ensures
        final(out)@ == old(out)@ + text@,
{
    out.append(text);
}

/// Appends a number in decimal.
pub fn push_decimal(out: &mut String, value: u64)
    ensures
        final(out)@ == old(out)@ + decimal(value as nat),
    decreases value,
{
    if value < 10 {
        push_str(out, digit_text(value));
    } else {
        push_decimal(out, value / 10);
        push_str(out, digit_text(value % 10));
        assert(out@ =~= old(out)@ + decimal(value as nat));
    }
}

/// Two pieces of text as one.
pub fn joined(first: &str, second: &str) -> (text: String)
    ensures
        text@ == first@ + second@,
{
    let mut text = first.to_owned();
    push_str(&mut text, second);
    text
}

/// Three pieces of text as one.
pub fn joined3(first: &str, second: &str, third: &str) -> (text: String)
    ensures
        text@ == first@ + second@ + third@,
{
    let mut text = joined(first, second);
    push_str(&mut text, third);
    text
}

/// Whether two texts are the same.
pub fn same_text(first: &str, second: &str) -> (same: bool)
    ensures
        same == (first@ == second@),
{
    first.to_owned() == second.to_owned()
}

/// Whether a text begins with another.
pub open spec fn begins_with(text: Seq<char>, prefix: Seq<char>) -> bool {
    prefix.len() <= text.len() && text.take(prefix.len() as int) == prefix
}

/// What follows a prefix, if the text begins with it.
pub fn after_prefix<'a>(text: &'a str, prefix: &str) -> (rest: Option<&'a str>)
    ensures
        match rest {
            Some(tail) => begins_with(text@, prefix@) && tail@ == text@.skip(
                prefix@.len() as int,
            ),
            None => !begins_with(text@, prefix@),
        },
{
    let length: usize = text.unicode_len();
    let prefix_length: usize = prefix.unicode_len();
    if prefix_length > length {
        return None;
    }
    let head = text.substring_char(0, prefix_length);
    assert(head@ =~= text@.take(prefix_length as int));
    if !same_text(head, prefix) {
        return None;
    }
    let tail = text.substring_char(prefix_length, length);
    assert(tail@ =~= text@.skip(prefix_length as int));
    Some(tail)
}

/// Where a character first occurs.
pub open spec fn first_index(text: Seq<char>, wanted: char) -> Option<int>
    decreases text.len(),
{
    if text.len() == 0 {
        None
    } else if text[0] == wanted {
        Some(0)
    } else {
        match first_index(text.skip(1), wanted) {
            Some(index) => Some(index + 1),
            None => None,
        }
    }
}

proof fn lemma_first_index(text: Seq<char>, wanted: char, at: int)
    requires
        0 <= at <= text.len(),
        forall|i: int| 0 <= i < at ==> text[i] != wanted,
    ensures
        at < text.len() && text[at] == wanted ==> first_index(text, wanted) == Some(at),
        at == text.len() ==> first_index(text, wanted) is None,
    decreases text.len(),
{
    if at > 0 {
        lemma_first_index(text.skip(1), wanted, at - 1);
    }
}

pub fn find_char(text: &str, wanted: char) -> (index: Option<usize>)
    ensures
        match index {
            Some(at) => first_index(text@, wanted) == Some(at as int) && at < text@.len()
                && text@[at as int] == wanted,
            None => first_index(text@, wanted) is None,
        },
{
    let length: usize = text.unicode_len();
    let mut at: usize = 0;
    while at < length
        invariant
            at <= length,
            length == text@.len(),
            forall|i: int| 0 <= i < at ==> text@[i] != wanted,
        decreases length - at,
    {
        if text.get_char(at) == wanted {
            proof {
                lemma_first_index(text@, wanted, at as int);
            }
            return Some(at);
        }
        at += 1;
    }
    proof {
        lemma_first_index(text@, wanted, at as int);
    }
    None
}

/// A character without regard to ASCII case.
pub open spec fn fold(character: char) -> u32 {
    if 65 <= character as u32 <= 90 {
        (character as u32 + 32) as u32
    } else {
        character as u32
    }
}

/// A text without regard to ASCII case.
pub open spec fn folded(text: Seq<char>) -> Seq<u32> {
    Seq::new(text.len(), |i: int| fold(text[i]))
}

fn folded_char(character: char) -> (code: u32)
    ensures
        code == fold(character),
{
    let code: u32 = character as u32;
    if 65 <= code && code <= 90 {
        code + 32
    } else {
        code
    }
}

/// Whether two texts are the same without regard to ASCII case.
pub fn same_ignoring_case(first: &str, second: &str) -> (same: bool)
    ensures
        same == (folded(first@) == folded(second@)),
{
    let length: usize = first.unicode_len();
    if second.unicode_len() != length {
        assert(folded(first@).len() != folded(second@).len());
        return false;
    }
    let mut at: usize = 0;
    while at < length
        invariant
            at <= length,
            length == first@.len(),
            length == second@.len(),
            forall|i: int| 0 <= i < at ==> fold(first@[i]) == fold(second@[i]),
        decreases length - at,
    {
        if folded_char(first.get_char(at)) != folded_char(second.get_char(at)) {
            assert(folded(first@)[at as int] != folded(second@)[at as int]);
            return false;
        }
        at += 1;
    }
    assert(folded(first@) =~= folded(second@));
    true
}

/// Whether a text begins with another, without regard to ASCII case.
pub open spec fn begins_ignoring_case(text: Seq<char>, prefix: Seq<char>) -> bool {
    prefix.len() <= text.len() && folded(text.take(prefix.len() as int)) == folded(prefix)
}

pub fn starts_ignoring_case(text: &str, prefix: &str) -> (starts: bool)
    ensures
        starts == begins_ignoring_case(text@, prefix@),
{
    let length: usize = prefix.unicode_len();
    if length > text.unicode_len() {
        return false;
    }
    let head = text.substring_char(0, length);
    assert(head@ =~= text@.take(length as int));
    same_ignoring_case(head, prefix)
}

/// Whether a text ends with another, without regard to ASCII case.
pub open spec fn closes_ignoring_case(text: Seq<char>, suffix: Seq<char>) -> bool {
    suffix.len() <= text.len() && folded(text.skip(text.len() - suffix.len())) == folded(suffix)
}

pub fn ends_ignoring_case(text: &str, suffix: &str) -> (ends: bool)
    ensures
        ends == closes_ignoring_case(text@, suffix@),
{
    let length: usize = text.unicode_len();
    let tail_length: usize = suffix.unicode_len();
    if tail_length > length {
        return false;
    }
    let tail = text.substring_char(length - tail_length, length);
    assert(tail@ =~= text@.skip(length - tail_length));
    same_ignoring_case(tail, suffix)
}

/// Whether a character has the Unicode property White_Space.
pub open spec fn is_space(character: char) -> bool {
    let code = character as u32;
    ||| 0x09 <= code <= 0x0d
    ||| code == 0x20
    ||| code == 0x85
    ||| code == 0xa0
    ||| code == 0x1680
    ||| 0x2000 <= code <= 0x200a
    ||| code == 0x2028
    ||| code == 0x2029
    ||| code == 0x202f
    ||| code == 0x205f
    ||| code == 0x3000
}

fn is_space_char(character: char) -> (space: bool)
    ensures
        space == is_space(character),
{
    let code: u32 = character as u32;
    (0x09 <= code && code <= 0x0d) || code == 0x20 || code == 0x85 || code == 0xa0 || code
        == 0x1680 || (0x2000 <= code && code <= 0x200a) || code == 0x2028 || code == 0x2029 || code
        == 0x202f || code == 0x205f || code == 0x3000
}

/// A text without the white space before it.
pub open spec fn without_lead(text: Seq<char>) -> Seq<char>
    decreases text.len(),
{
    if text.len() > 0 && is_space(text[0]) {
        without_lead(text.skip(1))
    } else {
        text
    }
}

/// A text without the white space after it.
pub open spec fn without_trail(text: Seq<char>) -> Seq<char>
    decreases text.len(),
{
    if text.len() > 0 && is_space(text.last()) {
        without_trail(text.drop_last())
    } else {
        text
    }
}

/// A text without the white space around it.
pub open spec fn trimmed(text: Seq<char>) -> Seq<char> {
    without_trail(without_lead(text))
}

proof fn lemma_lead(text: Seq<char>, at: int)
    requires
        0 <= at <= text.len(),
        forall|i: int| 0 <= i < at ==> is_space(text[i]),
        at < text.len() ==> !is_space(text[at]),
    ensures
        without_lead(text) == text.skip(at),
    decreases at,
{
    if at > 0 {
        lemma_lead(text.skip(1), at - 1);
        assert(text.skip(1).skip(at - 1) =~= text.skip(at));
    } else {
        assert(text.skip(0) =~= text);
    }
}

proof fn lemma_trail(text: Seq<char>, end: int)
    requires
        0 <= end <= text.len(),
        forall|i: int| end <= i < text.len() ==> is_space(text[i]),
        end > 0 ==> !is_space(text[end - 1]),
    ensures
        without_trail(text) == text.take(end),
    decreases text.len() - end,
{
    if end < text.len() {
        lemma_trail(text.drop_last(), end);
        assert(text.drop_last().take(end) =~= text.take(end));
    } else {
        assert(text.take(end) =~= text);
    }
}

pub fn trim(text: &str) -> (inner: &str)
    ensures
        inner@ == trimmed(text@),
{
    let length: usize = text.unicode_len();
    let mut start: usize = 0;
    while start < length && is_space_char(text.get_char(start))
        invariant
            start <= length,
            length == text@.len(),
            forall|i: int| 0 <= i < start ==> is_space(text@[i]),
        decreases length - start,
    {
        start += 1;
    }
    proof {
        lemma_lead(text@, start as int);
    }
    let mut end: usize = length;
    while end > start && is_space_char(text.get_char(end - 1))
        invariant
            start <= end <= length,
            length == text@.len(),
            forall|i: int| end <= i < length ==> is_space(text@[i]),
        decreases end,
    {
        end -= 1;
    }
    proof {
        lemma_trail(text@.skip(start as int), end - start);
        assert(text@.skip(start as int).take(end - start) =~= text@.subrange(
            start as int,
            end as int,
        ));
    }
    text.substring_char(start, end)
}

pub open spec fn is_digit(character: char) -> bool {
    48 <= character as u32 <= 57
}

/// What a text of decimal digits is worth.
pub open spec fn worth(digits: Seq<char>) -> nat
    decreases digits.len(),
{
    if digits.len() == 0 {
        0
    } else {
        worth(digits.drop_last()) * 10 + (digits.last() as nat - 48) as nat
    }
}

/// A number without the plus sign that may stand before it.
pub open spec fn without_sign(text: Seq<char>) -> Seq<char> {
    if text.len() > 0 && text[0] == '+' {
        text.skip(1)
    } else {
        text
    }
}

pub open spec fn all_digits(text: Seq<char>) -> bool {
    forall|i: int| 0 <= i < text.len() ==> is_digit(#[trigger] text[i])
}

/// A number as it is read: digits, with a plus sign at most before them.
pub open spec fn parsed_u32(text: Seq<char>) -> Option<u32> {
    let digits = without_sign(text);
    if digits.len() > 0 && all_digits(digits) && worth(digits) <= u32::MAX {
        Some(worth(digits) as u32)
    } else {
        None
    }
}

pub fn parse_u32(text: &str) -> (number: Option<u32>)
    ensures
        number == parsed_u32(text@),
{
    let length: usize = text.unicode_len();
    let start: usize = if length > 0 && text.get_char(0) == '+' {
        1
    } else {
        0
    };
    let ghost digits = without_sign(text@);
    let mut at: usize = start;
    let mut value: u64 = 0;
    let mut large = false;
    while at < length
        invariant
            start <= at <= length,
            length == text@.len(),
            digits == without_sign(text@),
            digits.len() == length - start,
            forall|i: int| 0 <= i < digits.len() ==> #[trigger] digits[i] == text@[i + start],
            all_digits(digits.take(at - start)),
            large == (worth(digits.take(at - start)) > u32::MAX),
            !large ==> value == worth(digits.take(at - start)),
            value <= u32::MAX,
        decreases length - at,
    {
        let code: u32 = text.get_char(at) as u32;
        assert(digits[at - start] == text@[at as int]);
        if code < 48 || code > 57 {
            assert(!is_digit(digits[at - start]));
            return None;
        }
        proof {
            let next = digits.take(at + 1 - start);
            assert(next.drop_last() =~= digits.take(at - start));
            assert forall|i: int| 0 <= i < next.len() implies is_digit(#[trigger] next[i]) by {
                if i < at - start {
                    assert(next[i] == digits.take(at - start)[i]);
                }
            }
        }
        if !large {
            value = value * 10 + (code - 48) as u64;
            if value > 0xffff_ffff {
                large = true;
                value = 0;
            }
        }
        at += 1;
    }
    assert(digits.take(at - start) =~= digits);
    if large || start == length {
        None
    } else {
        Some(value as u32)
    }
}

proof fn lemma_decimal(value: nat)
    ensures
        worth(decimal(value)) == value,
        all_digits(decimal(value)),
        decimal(value).len() > 0,
    decreases value,
{
    if value < 10 {
        assert(decimal(value).drop_last() =~= seq![]);
        assert(worth(decimal(value).drop_last()) == 0);
    } else {
        lemma_decimal(value / 10);
        let shorter = decimal(value / 10);
        assert(decimal(value).drop_last() =~= shorter);
        assert forall|i: int| 0 <= i < decimal(value).len() implies is_digit(
            #[trigger] decimal(value)[i],
        ) by {
            if i < shorter.len() {
                assert(decimal(value)[i] == shorter[i]);
            }
        }
    }
}

/// A number that was written in decimal is read back.
pub proof fn decimal_is_read_back(value: u32)
    ensures
        parsed_u32(decimal(value as nat)) == Some(value),
{
    lemma_decimal(value as nat);
    assert(is_digit(decimal(value as nat)[0]));
}

/// A character as UTF-16 code units.
pub open spec fn utf16_of(character: char) -> Seq<u16> {
    let code = character as u32;
    if code < 0x10000 {
        seq![code as u16]
    } else {
        seq![
            (0xd800 + (code - 0x10000) / 0x400) as u16,
            (0xdc00 + (code - 0x10000) % 0x400) as u16,
        ]
    }
}

/// What UTF-16 code units of one character stand for.
pub open spec fn from_utf16(units: Seq<u16>) -> nat {
    if units.len() == 1 {
        units[0] as nat
    } else {
        (0x10000 + (units[0] - 0xd800) * 0x400 + (units[1] - 0xdc00)) as nat
    }
}

/// The code units of a character stand for it, and for no other.
pub proof fn utf16_is_read_back(character: char)
    ensures
        from_utf16(utf16_of(character)) == character as nat,
        1 <= utf16_of(character).len() <= 2,
{
}

/// The code units of a character.
pub fn encode_utf16(character: char) -> (units: Vec<u16>)
    ensures
        units@ == utf16_of(character),
{
    let code: u32 = character as u32;
    let mut units: Vec<u16> = Vec::new();
    if code < 0x10000 {
        units.push(code as u16);
    } else {
        units.push((0xd800 + (code - 0x10000) / 0x400) as u16);
        units.push((0xdc00 + (code - 0x10000) % 0x400) as u16);
    }
    assert(units@ =~= utf16_of(character));
    units
}

/// A text as UTF-16 code units.
pub open spec fn utf16(text: Seq<char>) -> Seq<u16>
    decreases text.len(),
{
    if text.len() == 0 {
        seq![]
    } else {
        utf16(text.drop_last()) + utf16_of(text.last())
    }
}

/// A text as Windows takes it: UTF-16, with a NUL after it.
pub fn wide(text: &str) -> (units: Vec<u16>)
    ensures
        units@ == utf16(text@).push(0),
{
    let length: usize = text.unicode_len();
    let mut units: Vec<u16> = Vec::new();
    let mut at: usize = 0;
    while at < length
        invariant
            at <= length,
            length == text@.len(),
            units@ == utf16(text@.take(at as int)),
        decreases length - at,
    {
        let mut more = encode_utf16(text.get_char(at));
        assert(text@.take(at + 1).drop_last() =~= text@.take(at as int));
        units.append(&mut more);
        at += 1;
    }
    assert(text@.take(at as int) =~= text@);
    units.push(0);
    units
}

/// Decimal digits are the characters for them, and a number is written as the
/// number without its last digit, and that digit.
pub proof fn numbers_are_written_in_decimal(value: nat, last: nat)
    requires
        last < 10,
    ensures
        digit(last) as int == 48 + last,
        decimal(last) == seq![digit(last)],
        value > 0 ==> decimal(10 * value + last) == decimal(value).push(digit(last)),
{
}

/// A number is read as it is written: the digits from the highest to the lowest,
/// with leading zeros as with none, and with one plus sign before them or none.
pub proof fn numbers_are_read_from_decimal(digits: Seq<char>, last: char)
    requires
        digits.len() > 0,
        forall|i: int| 0 <= i < digits.len() ==> 48 <= #[trigger] digits[i] as int && digits[i] as int
            <= 57,
        48 <= last as int,
        last as int <= 57,
    ensures
        worth(digits.push(last)) == 10 * worth(digits) + (last as int - 48),
        worth(seq![]) == 0,
        parsed_u32(digits) == (if worth(digits) <= 0xffff_ffff {
            Some(worth(digits) as u32)
        } else {
            None
        }),
        parsed_u32(seq!['+'] + digits) == parsed_u32(digits),
{
    assert(digits.push(last).drop_last() =~= digits);
    assert(all_digits(digits)) by {
        assert forall|i: int| 0 <= i < digits.len() implies is_digit(#[trigger] digits[i]) by {}
    }
    assert(digits[0] != '+');
    assert((seq!['+'] + digits).skip(1) =~= digits);
}

proof fn lemma_digit(character: char)
    ensures
        is_digit(character) <==> 48 <= character as int && character as int <= 57,
{
}

/// What is no number is not read as one: nothing at all, a sign alone, a second
/// sign, and anything that is no digit.
pub proof fn other_texts_are_no_numbers(text: Seq<char>, at: int)
    ensures
        parsed_u32(seq![]) is None,
        parsed_u32(seq!['+']) is None,
        parsed_u32(seq!['+', '+'] + text) is None,
        0 < at < text.len() && !(48 <= text[at] as int && text[at] as int <= 57) ==> parsed_u32(
            text,
        ) is None,
        text.len() > 0 && text[0] as int != 43 && !(48 <= text[0] as int && text[0] as int <= 57)
            ==> parsed_u32(text) is None,
{
    assert(seq!['+'].skip(1) =~= seq![]);
    let twice = seq!['+', '+'] + text;
    assert(twice.skip(1)[0] == '+');
    assert(!is_digit(twice.skip(1)[0]));
    if 0 < at < text.len() && !(48 <= text[at] as int && text[at] as int <= 57) {
        let digits = without_sign(text);
        lemma_digit(text[at]);
        if text[0] == '+' {
            assert(digits[at - 1] == text[at]);
            assert(!is_digit(digits[at - 1]));
        } else {
            assert(!is_digit(digits[at]));
        }
    }
    if text.len() > 0 && text[0] as int != 43 && !(48 <= text[0] as int && text[0] as int <= 57) {
        lemma_digit(text[0]);
        assert(text[0] != '+');
        assert(!is_digit(without_sign(text)[0]));
    }
}

/// Only the case of the letters from A to Z is disregarded: no two other
/// characters, and no two different letters, are taken for one another.
pub proof fn only_letters_have_case(first: char, second: char)
    ensures
        fold(first) == fold(second) <==> first == second || (65 <= first as int && first as int
            <= 90 && second as int == first as int + 32) || (65 <= second as int && second as int
            <= 90 && first as int == second as int + 32),
{
}

/// Texts that differ in case alone are the same, and so are those alone that do.
pub proof fn same_texts_have_the_same_letters(first: Seq<char>, second: Seq<char>)
    ensures
        folded(first) == folded(second) <==> first.len() == second.len() && forall|i: int|
            0 <= i < first.len() ==> fold(#[trigger] first[i]) == fold(second[i]),
        begins_ignoring_case(first + second, first),
        closes_ignoring_case(first + second, second),
        begins_with(first + second, first),
{
    assert((first + second).take(first.len() as int) =~= first);
    assert((first + second).skip(first.len() as int) =~= second);
    if folded(first) == folded(second) {
        assert(folded(first).len() == folded(second).len());
        assert forall|i: int| 0 <= i < first.len() implies fold(#[trigger] first[i]) == fold(
            second[i],
        ) by {
            assert(folded(first)[i] == folded(second)[i]);
        }
    }
    if first.len() == second.len() && forall|i: int|
        0 <= i < first.len() ==> fold(#[trigger] first[i]) == fold(second[i]) {
        assert(folded(first) =~= folded(second));
    }
}

/// What is inside a text does not depend on the white space around it, and keeps
/// its own.
pub proof fn space_around_a_text_is_not_part_of_it(
    before: Seq<char>,
    inner: Seq<char>,
    after: Seq<char>,
)
    requires
        inner.len() > 0,
        forall|i: int|
            0 <= i < before.len() ==> (9 <= #[trigger] before[i] as int && before[i] as int <= 13)
                || before[i] as int == 32 || before[i] as int == 0xa0,
        forall|i: int|
            0 <= i < after.len() ==> (9 <= #[trigger] after[i] as int && after[i] as int <= 13)
                || after[i] as int == 32 || after[i] as int == 0xa0,
        33 <= inner[0] as int,
        inner[0] as int <= 126,
        33 <= inner.last() as int,
        inner.last() as int <= 126,
    ensures
        trimmed(before + inner + after) == inner,
        trimmed(before) == Seq::<char>::empty(),
{
    let text = before + inner + after;
    assert forall|i: int| 0 <= i < before.len() implies is_space(text[i]) by {
        assert(text[i] == before[i]);
    }
    assert(text[before.len() as int] == inner[0]);
    lemma_lead(text, before.len() as int);
    let tail = text.skip(before.len() as int);
    assert(tail =~= inner + after);
    assert forall|i: int| inner.len() <= i < tail.len() implies is_space(tail[i]) by {
        assert(tail[i] == after[i - inner.len()]);
    }
    assert(tail[inner.len() - 1] == inner[inner.len() - 1]);
    lemma_trail(tail, inner.len() as int);
    assert(tail.take(inner.len() as int) =~= inner);
    assert forall|i: int| 0 <= i < before.len() implies is_space(before[i]) by {
        assert(9 <= before[i] as int);
    }
    lemma_lead(before, before.len() as int);
    assert(before.skip(before.len() as int) =~= seq![]);
}

/// A character of the first plane is one unit, its own number; any other is two,
/// of the ranges that Unicode keeps for them. A text is its characters' units, one
/// after the other.
pub proof fn texts_are_encoded_character_by_character(
    character: char,
    first: Seq<char>,
    second: Seq<char>,
)
    ensures
        (character as int) < 0x10000 ==> utf16_of(character) == seq![character as u16],
        character as int >= 0x10000 ==> utf16_of(character).len() == 2 && 0xd800 <= utf16_of(
            character,
        )[0] < 0xdc00 && 0xdc00 <= utf16_of(character)[1] < 0xe000 && (utf16_of(character)[0]
            - 0xd800) * 0x400 + (utf16_of(character)[1] - 0xdc00) == character as int - 0x10000,
        utf16(seq![]) == Seq::<u16>::empty(),
        utf16(first.push(character)) == utf16(first) + utf16_of(character),
        utf16(first + second) == utf16(first) + utf16(second),
    decreases second.len(),
{
    assert(first.push(character).drop_last() =~= first);
    if second.len() > 0 {
        texts_are_encoded_character_by_character(character, first, second.drop_last());
        assert((first + second).drop_last() =~= first + second.drop_last());
        assert(utf16(first + second) =~= utf16(first) + utf16(second));
    } else {
        assert(first + second =~= first);
        assert(utf16(first) + utf16(second) =~= utf16(first));
    }
}

} // verus!
