//! Byte- and character-level facts about text shared by every validator.

use vstd::prelude::*;
use vstd::utf8::*;

verus! {

/// The number of bytes in the UTF-8 encoding of a text.
pub open spec fn byte_length(text: Seq<char>) -> nat {
    encode_utf8(text).len()
}

/// The characters of Unicode's general category `Cc`.
pub open spec fn is_control(character: char) -> bool {
    ||| character as u32 <= 0x1f
    ||| 0x7f <= character as u32 <= 0x9f
}

/// The characters with Unicode's `White_Space` property.
pub open spec fn is_space(character: char) -> bool {
    let code = character as u32;
    ||| 0x09 <= code <= 0x0d
    ||| code == 0x20
    ||| code == 0x85
    ||| code == 0xa0
    ||| code == 0x1680
    ||| 0x2000 <= code <= 0x200a
    ||| code == 0x2028
    ||| code == 0x2029
    ||| code == 0x202f
    ||| code == 0x205f
    ||| code == 0x3000
}

/// Some character of the text is a control character.
pub open spec fn has_control(text: Seq<char>) -> bool {
    exists|i: int| 0 <= i < text.len() && is_control(#[trigger] text[i])
}

/// Nothing is left of the text once surrounding white space is trimmed.
pub open spec fn is_blank(text: Seq<char>) -> bool {
    forall|i: int| 0 <= i < text.len() ==> is_space(#[trigger] text[i])
}

/// Two texts with the same UTF-8 encoding are the same text.
pub proof fn encoding_is_injective(left: Seq<char>, right: Seq<char>)
    requires
        encode_utf8(left) == encode_utf8(right),
    ensures
        left == right,
{
    encode_utf8_decode_utf8(left);
    encode_utf8_decode_utf8(right);
}

/// Counts the bytes of a text.
pub fn length_in_bytes(text: &str) -> (length: usize)
    ensures
        length == byte_length(text@),
{
    text.as_bytes().len()
}

/// Reads bytes as text with `std::str::from_utf8`, which succeeds exactly on well-formed UTF-8;
/// the text that it gives is the one encoded by the bytes.
#[verifier::external_body]
pub(crate) fn text_of_bytes(bytes: &[u8]) -> (text: Option<String>)
    ensures
        match text {
            Some(decoded) => valid_utf8(bytes@) && decoded@ == decode_utf8(bytes@),
            None => !valid_utf8(bytes@),
        },
{
    std::str::from_utf8(bytes).ok().map(|text| text.to_owned())
}

/// Compares two byte strings.
pub fn same_bytes(left: &[u8], right: &[u8]) -> (same: bool)
    ensures
        same == (left@ == right@),
{
    if left.len() != right.len() {
        return false;
    }
    let mut i: usize = 0;
    while i < left.len()
        invariant
            left@.len() == right@.len(),
            i <= left@.len(),
            forall|j: int| 0 <= j < i ==> left@[j] == right@[j],
        decreases left@.len() - i,
    {
        if left[i] != right[i] {
            return false;
        }
        i += 1;
    }
    assert(left@ =~= right@);
    true
}

/// Compares two texts.
pub fn same_text(left: &str, right: &str) -> (same: bool)
    ensures
        same == (left@ == right@),
{
    let same = same_bytes(left.as_bytes(), right.as_bytes());
    proof {
        if same {
            encoding_is_injective(left@, right@);
        }
    }
    same
}

/// Collects the characters of a text.
pub fn characters(text: &str) -> (collected: Vec<char>)
    ensures
        collected@ == text@,
{
    let mut collected: Vec<char> = Vec::new();
    for character in iter: text.chars()
        invariant
            collected@ == text@.take(iter.index()),
            iter.seq() == text@,
    {
        assert(text@.take(iter.index()).push(character) =~= text@.take(iter.index() + 1));
        collected.push(character);
    }
    assert(text@.take(text@.len() as int) =~= text@);
    collected
}

/// Tells whether a text has a control character.
pub fn contains_control(text: &str) -> (found: bool)
    ensures
        found == has_control(text@),
{
    let characters = characters(text);
    let mut i: usize = 0;
    while i < characters.len()
        invariant
            characters@ == text@,
            i <= characters@.len(),
            forall|j: int| 0 <= j < i ==> !is_control(#[trigger] text@[j]),
        decreases characters@.len() - i,
    {
        if control(characters[i]) {
            assert(is_control(text@[i as int]));
            return true;
        }
        i += 1;
    }
    false
}

/// Tells whether a text has a given character.
pub fn contains_character(text: &str, wanted: char) -> (found: bool)
    ensures
        found == text@.contains(wanted),
{
    let characters = characters(text);
    let mut i: usize = 0;
    while i < characters.len()
        invariant
            characters@ == text@,
            i <= characters@.len(),
            forall|j: int| 0 <= j < i ==> text@[j] != wanted,
        decreases characters@.len() - i,
    {
        if characters[i] == wanted {
            return true;
        }
        i += 1;
    }
    false
}

/// Tells whether a text is empty or made of white space alone.
pub fn blank(text: &str) -> (found: bool)
    ensures
        found == is_blank(text@),
{
    let characters = characters(text);
    let mut i: usize = 0;
    while i < characters.len()
        invariant
            characters@ == text@,
            i <= characters@.len(),
            forall|j: int| 0 <= j < i ==> is_space(#[trigger] text@[j]),
        decreases characters@.len() - i,
    {
        if !space(characters[i]) {
            assert(!is_space(text@[i as int]));
            return false;
        }
        i += 1;
    }
    true
}

/// Tells whether a text begins with another.
pub fn starts_with(text: &str, prefix: &str) -> (found: bool)
    ensures
        found == prefix@.is_prefix_of(text@),
{
    let whole = characters(text);
    let part = characters(prefix);
    if part.len() > whole.len() {
        return false;
    }
    let mut i: usize = 0;
    while i < part.len()
        invariant
            whole@ == text@,
            part@ == prefix@,
            part@.len() <= whole@.len(),
            i <= part@.len(),
            forall|j: int| 0 <= j < i ==> part@[j] == whole@[j],
        decreases part@.len() - i,
    {
        if part[i] != whole[i] {
            assert(prefix@[i as int] != text@.subrange(0, prefix@.len() as int)[i as int]);
            return false;
        }
        i += 1;
    }
    assert(prefix@ =~= text@.subrange(0, prefix@.len() as int));
    true
}

/// Tells whether a text ends with another.
pub fn ends_with(text: &str, suffix: &str) -> (found: bool)
    ensures
        found == suffix@.is_suffix_of(text@),
{
    let whole = characters(text);
    let part = characters(suffix);
    if part.len() > whole.len() {
        return false;
    }
    let length: usize = whole.len();
    let offset: usize = length - part.len();
    let mut i: usize = 0;
    while i < part.len()
        invariant
            whole@ == text@,
            part@ == suffix@,
            part@.len() <= whole@.len(),
            offset == whole@.len() - part@.len(),
            length == whole@.len(),
            i <= part@.len(),
            forall|j: int| 0 <= j < i ==> part@[j] == whole@[offset + j],
        decreases part@.len() - i,
    {
        if part[i] != whole[offset + i] {
            assert(suffix@[i as int] != text@.subrange(
                text@.len() - suffix@.len(),
                text@.len() as int,
            )[i as int]);
            return false;
        }
        i += 1;
    }
    assert(suffix@ =~= text@.subrange(text@.len() - suffix@.len(), text@.len() as int));
    true
}

/// The place of the first occurrence of a pattern.
pub open spec fn position(text: Seq<char>, pattern: Seq<char>) -> Option<int>
    decreases text.len(),
{
    if pattern.is_prefix_of(text) {
        Some(0)
    } else if text.len() == 0 {
        None
    } else {
        match position(text.drop_first(), pattern) {
            Some(place) => Some(place + 1),
            None => None,
        }
    }
}

/// The pieces of a text between the occurrences of a pattern, taken from the left.
pub open spec fn split(text: Seq<char>, pattern: Seq<char>) -> Seq<Seq<char>>
    decreases text.len(),
{
    match position(text, pattern) {
        Some(place) => if pattern.len() > 0 && place + pattern.len() <= text.len() && 0 <= place {
            seq![text.take(place)] + split(text.skip(place + pattern.len()), pattern)
        } else {
            seq![text]
        },
        None => seq![text],
    }
}

/// A text without its leading white space.
pub open spec fn trim_start(text: Seq<char>) -> Seq<char>
    decreases text.len(),
{
    if text.len() > 0 && is_space(text[0]) {
        trim_start(text.drop_first())
    } else {
        text
    }
}

/// A text without its trailing white space.
pub open spec fn trim_end(text: Seq<char>) -> Seq<char>
    decreases text.len(),
{
    if text.len() > 0 && is_space(text.last()) {
        trim_end(text.drop_last())
    } else {
        text
    }
}

/// A text without the white space around it.
pub open spec fn trim(text: Seq<char>) -> Seq<char> {
    trim_end(trim_start(text))
}

pub open spec fn is_digit(character: char) -> bool {
    0x30 <= character as u32 <= 0x39
}

/// The number that a run of decimal digits stands for.
pub open spec fn decimal_value(digits: Seq<char>) -> nat
    decreases digits.len(),
{
    if digits.len() == 0 {
        0
    } else {
        decimal_value(digits.drop_last()) * 10 + (digits.last() as u32 - 0x30) as nat
    }
}

/// The digits of a number written in decimal, after an optional plus sign.
pub open spec fn unsigned_digits(text: Seq<char>) -> Seq<char> {
    if text.len() > 0 && text[0] == '+' {
        text.drop_first()
    } else {
        text
    }
}

/// The unsigned number that a text stands for, if it stands for one up to a maximum.
pub open spec fn unsigned_number(text: Seq<char>, maximum: nat) -> Option<nat> {
    let digits = unsigned_digits(text);
    if digits.len() > 0 && (forall|i: int|
        0 <= i < digits.len() ==> is_digit(#[trigger] digits[i])) && decimal_value(digits)
        <= maximum {
        Some(decimal_value(digits))
    } else {
        None
    }
}

/// The lower-case form of an ASCII letter; every other character is itself.
pub open spec fn ascii_lower(character: char) -> u32 {
    if 0x41 <= character as u32 <= 0x5a {
        (character as u32 + 0x20) as u32
    } else {
        character as u32
    }
}

/// Two texts agree up to the case of ASCII letters.
pub open spec fn same_ignoring_case(left: Seq<char>, right: Seq<char>) -> bool {
    &&& left.len() == right.len()
    &&& forall|i: int|
        0 <= i < left.len() ==> ascii_lower(#[trigger] left[i]) == ascii_lower(right[i])
}

/// The first occurrence of a pattern is an occurrence, and none comes before it.
pub proof fn position_is_first(text: Seq<char>, pattern: Seq<char>)
    ensures
        match position(text, pattern) {
            Some(place) => {
                &&& 0 <= place
                &&& place + pattern.len() <= text.len()
                &&& pattern.is_prefix_of(text.skip(place))
                &&& forall|j: int| 0 <= j < place ==> !pattern.is_prefix_of(#[trigger] text.skip(j))
            },
            None => forall|j: int|
                0 <= j <= text.len() ==> !pattern.is_prefix_of(#[trigger] text.skip(j)),
        },
    decreases text.len(),
{
    assert(text.skip(0) =~= text);
    if !pattern.is_prefix_of(text) && text.len() > 0 {
        let rest = text.drop_first();
        position_is_first(rest, pattern);
        assert forall|j: int| 0 < j <= text.len() implies #[trigger] text.skip(j) == rest.skip(
            j - 1,
        ) by {
            assert(text.skip(j) =~= rest.skip(j - 1));
        }
    }
}

/// What stands at the first place where a pattern occurs is its position.
proof fn position_found(text: Seq<char>, pattern: Seq<char>, place: int)
    requires
        0 <= place <= text.len(),
        pattern.is_prefix_of(text.skip(place)),
        forall|j: int| 0 <= j < place ==> !pattern.is_prefix_of(#[trigger] text.skip(j)),
    ensures
        position(text, pattern) == Some(place),
{
    position_is_first(text, pattern);
    match position(text, pattern) {
        Some(other) => {
            if other < place {
                assert(!pattern.is_prefix_of(text.skip(other)));
            }
            if place < other {
                assert(!pattern.is_prefix_of(text.skip(place)));
            }
        },
        None => {
            assert(!pattern.is_prefix_of(text.skip(place)));
        },
    }
}

proof fn position_absent(text: Seq<char>, pattern: Seq<char>)
    requires
        forall|j: int| 0 <= j <= text.len() ==> !pattern.is_prefix_of(#[trigger] text.skip(j)),
    ensures
        position(text, pattern) is None,
{
    position_is_first(text, pattern);
    if let Some(place) = position(text, pattern) {
        assert(!pattern.is_prefix_of(text.skip(place)));
    }
}

/// Tells whether a pattern stands at a place of a text.
fn occurs_at(text: &[char], place: usize, pattern: &[char]) -> (found: bool)
    requires
        place <= text@.len(),
    ensures
        found == pattern@.is_prefix_of(text@.skip(place as int)),
{
    if text.len() - place < pattern.len() {
        return false;
    }
    let length: usize = text.len();
    let ghost rest = text@.skip(place as int);
    let mut i: usize = 0;
    while i < pattern.len()
        invariant
            length == text@.len(),
            rest == text@.skip(place as int),
            place + pattern@.len() <= length,
            i <= pattern@.len(),
            forall|j: int| 0 <= j < i ==> pattern@[j] == rest[j],
        decreases pattern@.len() - i,
    {
        if pattern[i] != text[place + i] {
            assert(rest[i as int] != pattern@[i as int]);
            assert(rest.subrange(0, pattern@.len() as int)[i as int] != pattern@[i as int]);
            return false;
        }
        i += 1;
    }
    assert(rest.subrange(0, pattern@.len() as int) =~= pattern@);
    true
}

/// Finds the first occurrence of a pattern.
pub fn find(text: &[char], pattern: &[char]) -> (place: Option<usize>)
    ensures
        match place {
            Some(found) => position(text@, pattern@) == Some(found as int),
            None => position(text@, pattern@) is None,
        },
{
    let mut i: usize = 0;
    while i < text.len()
        invariant
            i <= text@.len(),
            forall|j: int| 0 <= j < i ==> !pattern@.is_prefix_of(#[trigger] text@.skip(j)),
        decreases text@.len() - i,
    {
        if occurs_at(text, i, pattern) {
            proof {
                position_found(text@, pattern@, i as int);
            }
            return Some(i);
        }
        i += 1;
    }
    if occurs_at(text, i, pattern) {
        proof {
            position_found(text@, pattern@, i as int);
        }
        return Some(i);
    }
    proof {
        position_absent(text@, pattern@);
    }
    None
}

/// Splits a text at every occurrence of a pattern.
pub fn split_at_each(text: &[char], pattern: &[char]) -> (pieces: Vec<Vec<char>>)
    requires
        pattern@.len() > 0,
    ensures
        pieces@.len() == split(text@, pattern@).len(),
        forall|i: int| 0 <= i < pieces@.len() ==> #[trigger] pieces@[i]@ == split(text@, pattern@)[i],
{
    let mut pieces: Vec<Vec<char>> = Vec::new();
    let mut rest: Vec<char> = vstd::slice::slice_to_vec(text);
    let ghost whole = split(text@, pattern@);
    assert(whole =~= Seq::<Seq<char>>::empty() + split(rest@, pattern@));
    loop
        invariant
            pattern@.len() > 0,
            whole == split(text@, pattern@),
            whole.len() == pieces@.len() + split(rest@, pattern@).len(),
            forall|i: int| 0 <= i < pieces@.len() ==> #[trigger] pieces@[i]@ == whole[i],
            forall|i: int|
                0 <= i < split(rest@, pattern@).len() ==> #[trigger] split(rest@, pattern@)[i]
                    == whole[pieces@.len() + i],
        decreases rest@.len(),
    {
        let ghost before = rest@;
        let ghost tail = split(rest@, pattern@);
        proof {
            position_is_first(rest@, pattern@);
        }
        match find(rest.as_slice(), pattern) {
            None => {
                assert(tail =~= seq![rest@]);
                assert(tail[0] == whole[pieces@.len() as int]);
                pieces.push(rest);
                return pieces;
            },
            Some(place) => {
                let next = rest.split_off(place);
                let ghost after = split(before.skip(place + pattern@.len()), pattern@);
                assert(tail == seq![before.take(place as int)] + after);
                assert(tail[0] == whole[pieces@.len() as int]);
                assert(rest@ =~= before.take(place as int));
                assert forall|i: int| 0 <= i < after.len() implies after[i] == #[trigger] whole[
                pieces@.len() + 1 + i] by {
                    assert(tail[i + 1] == after[i]);
                }
                pieces.push(rest);
                let remaining = vstd::slice::slice_subrange(
                    next.as_slice(),
                    pattern.len(),
                    next.len(),
                );
                assert(remaining@ =~= before.skip(place + pattern@.len()));
                rest = vstd::slice::slice_to_vec(remaining);
            },
        }
    }
}

/// Tells whether a character is a control character.
pub fn control(character: char) -> (found: bool)
    ensures
        found == is_control(character),
{
    let code: u32 = character as u32;
    code <= 0x1f || (0x7f <= code && code <= 0x9f)
}

/// Tells whether a character is white space.
pub fn space(character: char) -> (found: bool)
    ensures
        found == is_space(character),
{
    let code: u32 = character as u32;
    (0x09 <= code && code <= 0x0d) || code == 0x20 || code == 0x85 || code == 0xa0 || code == 0x1680
        || (0x2000 <= code && code <= 0x200a) || code == 0x2028 || code == 0x2029 || code == 0x202f
        || code == 0x205f || code == 0x3000
}

/// Removes the white space around a text.
pub fn trimmed(text: &[char]) -> (kept: &[char])
    ensures
        kept@ == trim(text@),
{
    let mut first: usize = 0;
    assert(text@.skip(0) =~= text@);
    while first < text.len() && space(text[first])
        invariant
            first <= text@.len(),
            trim_start(text@) == trim_start(text@.skip(first as int)),
        decreases text@.len() - first,
    {
        assert(text@.skip(first as int).drop_first() =~= text@.skip(first + 1));
        first += 1;
    }
    let ghost started = text@.skip(first as int);
    assert(trim_start(text@) == started);
    let mut last: usize = text.len();
    assert(text@.subrange(first as int, last as int) =~= started);
    while first < last && space(text[last - 1])
        invariant
            first <= last <= text@.len(),
            started == text@.skip(first as int),
            trim_end(started) == trim_end(text@.subrange(first as int, last as int)),
        decreases last,
    {
        assert(text@.subrange(first as int, last as int).drop_last() =~= text@.subrange(
            first as int,
            last - 1,
        ));
        last -= 1;
    }
    vstd::slice::slice_subrange(text, first, last)
}

/// Compares two texts up to the case of ASCII letters.
pub fn equal_ignoring_case(left: &[char], right: &[char]) -> (same: bool)
    ensures
        same == same_ignoring_case(left@, right@),
{
    if left.len() != right.len() {
        return false;
    }
    let mut i: usize = 0;
    while i < left.len()
        invariant
            left@.len() == right@.len(),
            i <= left@.len(),
            forall|j: int|
                0 <= j < i ==> ascii_lower(#[trigger] left@[j]) == ascii_lower(right@[j]),
        decreases left@.len() - i,
    {
        if lower(left[i]) != lower(right[i]) {
            return false;
        }
        i += 1;
    }
    true
}

fn lower(character: char) -> (code: u32)
    ensures
        code == ascii_lower(character),
{
    let code: u32 = character as u32;
    if 0x41 <= code && code <= 0x5a {
        code + 0x20
    } else {
        code
    }
}

/// More digits never stand for a smaller number.
proof fn decimal_value_grows(digits: Seq<char>, length: int)
    requires
        0 <= length <= digits.len(),
    ensures
        decimal_value(digits.take(length)) <= decimal_value(digits),
    decreases digits.len(),
{
    if length == digits.len() {
        assert(digits.take(length) =~= digits);
    } else {
        assert(digits.drop_last().take(length) =~= digits.take(length));
        decimal_value_grows(digits.drop_last(), length);
    }
}

/// Reads an unsigned number of at most `maximum`.
pub fn parse_unsigned(text: &[char], maximum: u64) -> (number: Option<u64>)
    ensures
        match number {
            Some(value) => unsigned_number(text@, maximum as nat) == Some(value as nat),
            None => unsigned_number(text@, maximum as nat) is None,
        },
{
    let mut first: usize = 0;
    if text.len() > 0 && text[0] == '+' {
        first = 1;
    }
    let ghost digits = unsigned_digits(text@);
    assert(digits =~= text@.skip(first as int));
    if text.len() == first {
        return None;
    }
    let mut value: u64 = 0;
    let mut i: usize = first;
    assert(digits.take(0) =~= Seq::<char>::empty());
    while i < text.len()
        invariant
            first <= i <= text@.len(),
            digits == unsigned_digits(text@),
            digits == text@.skip(first as int),
            value <= maximum,
            value == decimal_value(digits.take(i - first)),
            forall|j: int| 0 <= j < i - first ==> is_digit(#[trigger] digits[j]),
        decreases text@.len() - i,
    {
        let code: u32 = text[i] as u32;
        if code < 0x30 || code > 0x39 {
            assert(!is_digit(digits[i - first]));
            return None;
        }
        let digit: u64 = (code - 0x30) as u64;
        let ghost next = digits.take(i - first + 1);
        proof {
            assert(next.drop_last() =~= digits.take(i - first));
            assert(decimal_value(next) == value * 10 + digit);
            decimal_value_grows(digits, i - first + 1);
        }
        match value.checked_mul(10) {
            None => {
                return None;
            },
            Some(shifted) => {
                match shifted.checked_add(digit) {
                    None => {
                        return None;
                    },
                    Some(next_value) => {
                        if next_value > maximum {
                            return None;
                        }
                        value = next_value;
                    },
                }
            },
        }
        i += 1;
    }
    assert(digits.take(digits.len() as int) =~= digits);
    Some(value)
}

/// The character of a decimal digit.
pub open spec fn digit_text(digit: int) -> Seq<char> {
    if digit == 0 {
        "0"@
    } else if digit == 1 {
        "1"@
    } else if digit == 2 {
        "2"@
    } else if digit == 3 {
        "3"@
    } else if digit == 4 {
        "4"@
    } else if digit == 5 {
        "5"@
    } else if digit == 6 {
        "6"@
    } else if digit == 7 {
        "7"@
    } else if digit == 8 {
        "8"@
    } else {
        "9"@
    }
}

/// A number in decimal, without leading zeros.
pub open spec fn decimal_text(value: nat) -> Seq<char>
    decreases value,
{
    if value < 10 {
        digit_text(value as int)
    } else {
        decimal_text(value / 10) + digit_text((value % 10) as int)
    }
}

/// Appends a number in decimal.
pub fn append_decimal(output: &mut String, value: u64)
    ensures
        final(output)@ == old(output)@ + decimal_text(value as nat),
    decreases value,
{
    if value >= 10 {
        append_decimal(output, value / 10);
    }
    let digit: u64 = value % 10;
    let text = if digit == 0 {
        "0"
    } else if digit == 1 {
        "1"
    } else if digit == 2 {
        "2"
    } else if digit == 3 {
        "3"
    } else if digit == 4 {
        "4"
    } else if digit == 5 {
        "5"
    } else if digit == 6 {
        "6"
    } else if digit == 7 {
        "7"
    } else if digit == 8 {
        "8"
    } else {
        "9"
    };
    output.append(text);
    assert(output@ =~= old(output)@ + decimal_text(value as nat));
}

/// Appends a number in decimal that may be wider than a machine word.
pub fn append_wide_decimal(output: &mut String, value: u128)
    ensures
        final(output)@ == old(output)@ + decimal_text(value as nat),
    decreases value,
{
    if value < 10 {
        append_decimal(output, value as u64);
    } else {
        append_wide_decimal(output, value / 10);
        append_decimal(output, (value % 10) as u64);
        assert(output@ =~= old(output)@ + decimal_text(value as nat));
    }
}

/// Takes a text apart at the first occurrence of a character.
pub open spec fn split_once(text: Seq<char>, separator: char) -> Option<(Seq<char>, Seq<char>)> {
    match position(text, seq![separator]) {
        Some(place) => Some((text.take(place), text.skip(place + 1))),
        None => None,
    }
}

/// A number in decimal, with a sign where it is negative.
pub open spec fn signed_text(value: int) -> Seq<char> {
    if value < 0 {
        "-"@ + decimal_text((-value) as nat)
    } else {
        decimal_text(value as nat)
    }
}

/// Appends a number in decimal, with a sign where it is negative.
pub fn append_signed(output: &mut String, value: i64)
    ensures
        final(output)@ == old(output)@ + signed_text(value as int),
{
    if value >= 0 {
        append_decimal(output, value as u64);
    } else {
        output.append("-");
        let magnitude: u64 = if value == i64::MIN {
            0x8000_0000_0000_0000
        } else {
            (-value) as u64
        };
        append_decimal(output, magnitude);
        assert(output@ =~= old(output)@ + signed_text(value as int));
    }
}

/// The character of a hexadecimal digit.
pub open spec fn hexadecimal_digit(digit: int) -> Seq<char> {
    if digit < 10 {
        digit_text(digit)
    } else if digit == 10 {
        "a"@
    } else if digit == 11 {
        "b"@
    } else if digit == 12 {
        "c"@
    } else if digit == 13 {
        "d"@
    } else if digit == 14 {
        "e"@
    } else {
        "f"@
    }
}

/// A number in hexadecimal, without leading zeros.
pub open spec fn hexadecimal_text(value: nat) -> Seq<char>
    decreases value,
{
    if value < 16 {
        hexadecimal_digit(value as int)
    } else {
        hexadecimal_text(value / 16) + hexadecimal_digit((value % 16) as int)
    }
}

/// Appends a hexadecimal digit.
pub fn append_hexadecimal_digit(output: &mut String, digit: u8)
    requires
        digit < 16,
    ensures
        final(output)@ == old(output)@ + hexadecimal_digit(digit as int),
{
    if digit < 10 {
        append_decimal(output, digit as u64);
        assert(decimal_text(digit as nat) == digit_text(digit as int));
    } else if digit == 10 {
        output.append("a");
    } else if digit == 11 {
        output.append("b");
    } else if digit == 12 {
        output.append("c");
    } else if digit == 13 {
        output.append("d");
    } else if digit == 14 {
        output.append("e");
    } else {
        output.append("f");
    }
}

/// Appends a number in hexadecimal.
pub fn append_hexadecimal(output: &mut String, value: u128)
    ensures
        final(output)@ == old(output)@ + hexadecimal_text(value as nat),
    decreases value,
{
    if value >= 16 {
        append_hexadecimal(output, value / 16);
    }
    append_hexadecimal_digit(output, (value % 16) as u8);
    assert(output@ =~= old(output)@ + hexadecimal_text(value as nat));
}

/// Each byte as two hexadecimal digits.
pub open spec fn hexadecimal_bytes(bytes: Seq<u8>) -> Seq<char>
    decreases bytes.len(),
{
    if bytes.len() == 0 {
        Seq::empty()
    } else {
        hexadecimal_bytes(bytes.drop_last()) + hexadecimal_digit((bytes.last() / 16) as int)
            + hexadecimal_digit((bytes.last() % 16) as int)
    }
}

/// Writes each byte as two hexadecimal digits.
pub fn hexadecimal(bytes: &[u8]) -> (written: String)
    ensures
        written@ == hexadecimal_bytes(bytes@),
{
    let mut written = String::new();
    let mut i: usize = 0;
    assert(bytes@.take(0) =~= Seq::<u8>::empty());
    while i < bytes.len()
        invariant
            i <= bytes@.len(),
            written@ == hexadecimal_bytes(bytes@.take(i as int)),
        decreases bytes@.len() - i,
    {
        assert(bytes@.take(i + 1).drop_last() =~= bytes@.take(i as int));
        let byte: u8 = bytes[i];
        append_hexadecimal_digit(&mut written, byte / 16);
        append_hexadecimal_digit(&mut written, byte % 16);
        i += 1;
    }
    assert(bytes@.take(bytes@.len() as int) =~= bytes@);
    written
}

/// A text comes before another: at the first place where they differ it has the lower code, or it
/// ends there.
pub open spec fn precedes(left: Seq<char>, right: Seq<char>) -> bool
    decreases left.len(),
{
    if right.len() == 0 {
        false
    } else if left.len() == 0 {
        true
    } else if left[0] != right[0] {
        (left[0] as u32) < (right[0] as u32)
    } else {
        precedes(left.skip(1), right.skip(1))
    }
}

proof fn codes_differ(left: char, right: char)
    requires
        left != right,
    ensures
        left as u32 != right as u32,
{
}

/// The order of texts is strict: of two texts at most one comes before the other, and where
/// neither does they are the same.
pub proof fn order_is_strict(left: Seq<char>, right: Seq<char>)
    ensures
        !(precedes(left, right) && precedes(right, left)),
        !precedes(left, right) && !precedes(right, left) ==> left == right,
        !precedes(left, left),
    decreases left.len(),
{
    if left.len() > 0 && right.len() > 0 {
        order_is_strict(left.skip(1), right.skip(1));
        if left[0] == right[0] && left.skip(1) == right.skip(1) {
            assert(left =~= seq![left[0]] + left.skip(1));
            assert(right =~= seq![right[0]] + right.skip(1));
        }
        if left[0] != right[0] {
            codes_differ(left[0], right[0]);
        }
    } else if left.len() > 0 {
        order_is_strict(left.skip(1), right);
    } else if right.len() == 0 {
        assert(left =~= right);
    }
}

/// What comes before a text comes before those after it.
pub proof fn order_is_transitive(left: Seq<char>, middle: Seq<char>, right: Seq<char>)
    requires
        precedes(left, middle),
        precedes(middle, right),
    ensures
        precedes(left, right),
    decreases left.len(),
{
    if left.len() > 0 && left[0] == middle[0] && middle[0] == right[0] {
        order_is_transitive(left.skip(1), middle.skip(1), right.skip(1));
    }
}

/// Tells whether a text comes before another.
pub fn before(left: &str, right: &str) -> (first: bool)
    ensures
        first == precedes(left@, right@),
{
    let left_characters = characters(left);
    let right_characters = characters(right);
    let mut i: usize = 0;
    assert(left@.skip(0) =~= left@);
    assert(right@.skip(0) =~= right@);
    while i < left_characters.len() && i < right_characters.len()
        invariant
            left_characters@ == left@,
            right_characters@ == right@,
            i <= left@.len(),
            i <= right@.len(),
            precedes(left@, right@) == precedes(left@.skip(i as int), right@.skip(i as int)),
        decreases left@.len() - i,
    {
        let left_character = left_characters[i];
        let right_character = right_characters[i];
        assert(left@.skip(i as int)[0] == left_character);
        assert(right@.skip(i as int)[0] == right_character);
        if left_character != right_character {
            return (left_character as u32) < (right_character as u32);
        }
        assert(left@.skip(i as int).skip(1) =~= left@.skip(i + 1));
        assert(right@.skip(i as int).skip(1) =~= right@.skip(i + 1));
        i += 1;
    }
    i < right_characters.len()
}

/// The characters of the decimal digits stand for their numbers.
proof fn digits_stand_for_numbers(digit: int)
    requires
        0 <= digit < 10,
    ensures
        digit_text(digit).len() == 1,
        is_digit(digit_text(digit)[0]),
        digit_text(digit)[0] as u32 - 0x30 == digit,
{
    reveal_strlit("0");
    reveal_strlit("1");
    reveal_strlit("2");
    reveal_strlit("3");
    reveal_strlit("4");
    reveal_strlit("5");
    reveal_strlit("6");
    reveal_strlit("7");
    reveal_strlit("8");
    reveal_strlit("9");
}

/// A number in decimal is made of digits and stands for the number.
pub proof fn decimal_stands_for_its_number(value: nat)
    ensures
        decimal_text(value).len() > 0,
        forall|i: int|
            0 <= i < decimal_text(value).len() ==> is_digit(#[trigger] decimal_text(value)[i]),
        decimal_value(decimal_text(value)) == value,
    decreases value,
{
    if value < 10 {
        digits_stand_for_numbers(value as int);
        let written = decimal_text(value);
        assert(written.drop_last() =~= Seq::<char>::empty());
        assert(decimal_value(written.drop_last()) == 0);
    } else {
        decimal_stands_for_its_number(value / 10);
        digits_stand_for_numbers((value % 10) as int);
        let written = decimal_text(value);
        assert(written.drop_last() =~= decimal_text(value / 10));
    }
}

/// A number that was written is read back, with a plus sign before it or without, unless it is
/// above what is asked for.
pub proof fn written_number_is_read(value: nat, maximum: nat)
    ensures
        unsigned_number(decimal_text(value), maximum) == (if value <= maximum {
            Some(value)
        } else {
            None
        }),
        unsigned_number(seq!['+'] + decimal_text(value), maximum) == unsigned_number(
            decimal_text(value),
            maximum,
        ),
{
    decimal_stands_for_its_number(value);
    assert((seq!['+'] + decimal_text(value)).drop_first() =~= decimal_text(value));
    assert(is_digit(decimal_text(value)[0]));
}

/// A number that is read is within what is asked for, and what it is read from holds nothing but
/// digits after an optional plus sign.
pub proof fn read_number_is_in_range(text: Seq<char>, maximum: nat)
    ensures
        unsigned_number(text, maximum) matches Some(value) ==> {
            &&& value <= maximum
            &&& text.len() > 0
            &&& text[0] == '+' || is_digit(text[0])
            &&& text[0] == '+' ==> text.len() > 1
            &&& forall|i: int| 0 < i < text.len() ==> is_digit(#[trigger] text[i])
        },
{
    if unsigned_number(text, maximum) is Some && text[0] == '+' {
        assert forall|i: int| 0 < i < text.len() implies is_digit(#[trigger] text[i]) by {
            assert(text[i] == text.drop_first()[i - 1]);
        }
    }
}

/// Pieces with a pattern between them.
pub open spec fn rejoined(pieces: Seq<Seq<char>>, pattern: Seq<char>) -> Seq<char>
    decreases pieces.len(),
{
    if pieces.len() == 0 {
        seq![]
    } else if pieces.len() == 1 {
        pieces[0]
    } else {
        pieces[0] + pattern + rejoined(pieces.drop_first(), pattern)
    }
}

/// The pieces of a text make up the text again with the pattern between them.
pub proof fn pieces_make_up_the_text(text: Seq<char>, pattern: Seq<char>)
    requires
        pattern.len() > 0,
    ensures
        split(text, pattern).len() > 0,
        rejoined(split(text, pattern), pattern) == text,
    decreases text.len(),
{
    position_is_first(text, pattern);
    if let Some(place) = position(text, pattern) {
        let rest = text.skip(place + pattern.len());
        pieces_make_up_the_text(rest, pattern);
        let pieces = split(text, pattern);
        assert(pieces.drop_first() =~= split(rest, pattern));
        assert(pieces[0] == text.take(place));
        assert(pattern =~= text.subrange(place, place + pattern.len())) by {
            assert(text.skip(place).subrange(0, pattern.len() as int) =~= text.subrange(
                place,
                place + pattern.len(),
            ));
        }
        assert(text =~= text.take(place) + pattern + rest);
    }
}

/// No piece of a text holds the pattern that it was split at.
pub proof fn pieces_hold_no_pattern(text: Seq<char>, pattern: Seq<char>, piece: int)
    requires
        pattern.len() > 0,
        0 <= piece < split(text, pattern).len(),
    ensures
        position(split(text, pattern)[piece], pattern) is None,
    decreases text.len(),
{
    position_is_first(text, pattern);
    if let Some(place) = position(text, pattern) {
        let rest = text.skip(place + pattern.len());
        if piece > 0 {
            pieces_hold_no_pattern(rest, pattern, piece - 1);
            assert(split(text, pattern)[piece] == split(rest, pattern)[piece - 1]);
        } else {
            let first = text.take(place);
            position_is_first(first, pattern);
            if let Some(other) = position(first, pattern) {
                assert(first.skip(other).subrange(0, pattern.len() as int) =~= text.skip(
                    other,
                ).subrange(0, pattern.len() as int));
                assert(pattern.is_prefix_of(text.skip(other)));
            }
        }
    }
}

/// A text is trimmed to the part from its first character that is no white space to its last.
pub proof fn trimmed_text_is_the_middle(text: Seq<char>)
    ensures
        trim(text).len() > 0 ==> !is_space(trim(text)[0]) && !is_space(trim(text).last()),
        exists|start: int, end: int| #[trigger] is_middle(text, start, end) && trim(text)
            == text.subrange(start, end),
{
    start_is_trimmed(text);
    let start = choose|start: int|
        0 <= start <= text.len() && trim_start(text) == #[trigger] text.skip(start) && (forall|
            i: int,
        |
            0 <= i < start ==> is_space(#[trigger] text[i]));
    let rest = trim_start(text);
    end_is_trimmed(rest);
    let length = choose|length: int|
        0 <= length <= rest.len() && trim_end(rest) == #[trigger] rest.take(length) && (forall|
            i: int,
        |
            length <= i < rest.len() ==> is_space(#[trigger] rest[i]));
    let end = start + length;
    assert(trim(text) =~= text.subrange(start, end));
    assert forall|i: int| end <= i < text.len() implies is_space(#[trigger] text[i]) by {
        assert(text[i] == rest[i - start]);
    }
    assert(is_middle(text, start, end));
    if trim(text).len() > 0 {
        assert(trim(text)[0] == rest[0]);
    }
}

/// Outside of a part of a text there is white space alone.
pub open spec fn is_middle(text: Seq<char>, start: int, end: int) -> bool {
    &&& 0 <= start <= end <= text.len()
    &&& forall|i: int| 0 <= i < start ==> is_space(#[trigger] text[i])
    &&& forall|i: int| end <= i < text.len() ==> is_space(#[trigger] text[i])
}

proof fn start_is_trimmed(text: Seq<char>)
    ensures
        trim_start(text).len() > 0 ==> !is_space(trim_start(text)[0]),
        exists|start: int|
            0 <= start <= text.len() && trim_start(text) == #[trigger] text.skip(start) && (forall|
                i: int,
            |
                0 <= i < start ==> is_space(#[trigger] text[i])),
    decreases text.len(),
{
    if text.len() > 0 && is_space(text[0]) {
        let rest = text.drop_first();
        start_is_trimmed(rest);
        let start = choose|start: int|
            0 <= start <= rest.len() && trim_start(rest) == #[trigger] rest.skip(start) && (forall|
                i: int,
            |
                0 <= i < start ==> is_space(#[trigger] rest[i]));
        assert(rest.skip(start) =~= text.skip(start + 1));
        assert forall|i: int| 0 <= i < start + 1 implies is_space(#[trigger] text[i]) by {
            if i > 0 {
                assert(text[i] == rest[i - 1]);
            }
        }
    } else {
        assert(text.skip(0) =~= text);
    }
}

proof fn end_is_trimmed(text: Seq<char>)
    ensures
        trim_end(text).len() > 0 ==> !is_space(trim_end(text).last()),
        exists|length: int|
            0 <= length <= text.len() && trim_end(text) == #[trigger] text.take(length) && (forall|
                i: int,
            |
                length <= i < text.len() ==> is_space(#[trigger] text[i])),
    decreases text.len(),
{
    if text.len() > 0 && is_space(text.last()) {
        let rest = text.drop_last();
        end_is_trimmed(rest);
        let length = choose|length: int|
            0 <= length <= rest.len() && trim_end(rest) == #[trigger] rest.take(length) && (forall|
                i: int,
            |
                length <= i < rest.len() ==> is_space(#[trigger] rest[i]));
        assert(rest.take(length) =~= text.take(length));
        assert forall|i: int| length <= i < text.len() implies is_space(#[trigger] text[i]) by {
            if i < rest.len() {
                assert(text[i] == rest[i]);
            }
        }
    } else {
        assert(text.take(text.len() as int) =~= text);
    }
}

proof fn hexadecimal_digits_differ(left: int, right: int)
    requires
        0 <= left < 16,
        0 <= right < 16,
    ensures
        hexadecimal_digit(left).len() == 1,
        hexadecimal_digit(left)[0] == hexadecimal_digit(right)[0] ==> left == right,
{
    reveal_strlit("a");
    reveal_strlit("b");
    reveal_strlit("c");
    reveal_strlit("d");
    reveal_strlit("e");
    reveal_strlit("f");
    if left < 10 {
        digits_stand_for_numbers(left);
    }
    if right < 10 {
        digits_stand_for_numbers(right);
    }
}

/// Bytes in hexadecimal are twice as many digits, and tell the bytes.
pub proof fn hexadecimal_tells_the_bytes(left: Seq<u8>, right: Seq<u8>)
    ensures
        hexadecimal_bytes(left).len() == 2 * left.len(),
        hexadecimal_bytes(left) == hexadecimal_bytes(right) ==> left == right,
    decreases left.len(),
{
    lengths_double(left);
    lengths_double(right);
    if left.len() > 0 && hexadecimal_bytes(left) == hexadecimal_bytes(right) {
        let written = hexadecimal_bytes(left);
        let count = written.len();
        let (first, second) = ((left.last() / 16) as int, (left.last() % 16) as int);
        let (third, fourth) = ((right.last() / 16) as int, (right.last() % 16) as int);
        hexadecimal_digits_differ(first, third);
        hexadecimal_digits_differ(second, fourth);
        hexadecimal_digits_differ(third, first);
        hexadecimal_digits_differ(fourth, second);
        assert(written[count - 2] == hexadecimal_digit(first)[0]);
        assert(written[count - 1] == hexadecimal_digit(second)[0]);
        assert(written[count - 2] == hexadecimal_digit(third)[0]);
        assert(written[count - 1] == hexadecimal_digit(fourth)[0]);
        assert(left.last() == right.last());
        lengths_double(left.drop_last());
        lengths_double(right.drop_last());
        assert(written.take(count - 2) =~= hexadecimal_bytes(left.drop_last()));
        assert(written.take(count - 2) =~= hexadecimal_bytes(right.drop_last()));
        hexadecimal_tells_the_bytes(left.drop_last(), right.drop_last());
        assert(left =~= left.drop_last().push(left.last()));
        assert(right =~= right.drop_last().push(right.last()));
    }
}

proof fn lengths_double(bytes: Seq<u8>)
    ensures
        hexadecimal_bytes(bytes).len() == 2 * bytes.len(),
    decreases bytes.len(),
{
    if bytes.len() > 0 {
        lengths_double(bytes.drop_last());
        hexadecimal_digits_differ((bytes.last() / 16) as int, 0);
        hexadecimal_digits_differ((bytes.last() % 16) as int, 0);
    }
}

/// A text that is taken apart at a character is what was before it, the character, and what comes
/// after it; and the character is not in what was before it.
pub proof fn parts_of_a_text_make_it_up(text: Seq<char>, separator: char)
    ensures
        match split_once(text, separator) {
            Some((before, after)) => text == before.push(separator) + after && !before.contains(
                separator,
            ),
            None => !text.contains(separator),
        },
{
    let pattern = seq![separator];
    position_is_first(text, pattern);
    assert forall|i: int| 0 <= i < text.len() implies (pattern.is_prefix_of(#[trigger] text.skip(i))
        <==> text[i] == separator) by {
        if text[i] == separator {
            assert(text.skip(i).subrange(0, 1) =~= pattern);
        }
        if pattern.is_prefix_of(text.skip(i)) {
            assert(text.skip(i).subrange(0, 1)[0] == text[i]);
        }
    }
    if let Some(place) = position(text, pattern) {
        assert(text.skip(place)[0] == separator);
        assert(text =~= text.take(place).push(separator) + text.skip(place + 1));
        if text.take(place).contains(separator) {
            let other = choose|other: int|
                0 <= other < place && text.take(place)[other] == separator;
            assert(text[other] == separator);
            assert(pattern.is_prefix_of(text.skip(other)));
        }
    } else if text.contains(separator) {
        let other = choose|other: int| 0 <= other < text.len() && text[other] == separator;
        assert(pattern.is_prefix_of(text.skip(other)));
    }
}

} // verus!
