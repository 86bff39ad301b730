//! Character-level text helpers shared by every part of the library.

use vstd::prelude::*;
use vstd::utf8::{decode_utf8, valid_utf8};

verus! {

/// `str` equality: two string slices are equal exactly when they hold the same characters.
pub assume_specification[ <str as PartialEq>::eq ](left: &str, right: &str) -> (equal: bool)
    ensures
        equal == (left@ == right@),
;

/// Decides whether two texts are the same.
pub fn same_text(left: &str, right: &str) -> (same: bool)
    ensures
        same == (left@ == right@),
{
    *left == *right
}

/// `String::push`: appends one character.
pub assume_specification[ String::push ](text: &mut String, character: char)
    ensures
        final(text)@ == old(text)@.push(character),
;

/// `String::push_str`: appends every character of a slice.
pub assume_specification[ String::push_str ](text: &mut String, suffix: &str)
    ensures
        final(text)@ == old(text)@ + suffix@,
;

/// A letter or a number: what `char::is_alphanumeric` says.
pub uninterp spec fn is_alphanumeric(character: char) -> bool;

/// `char::is_alphanumeric`, which depends on the character alone.
#[verifier::external_body]
pub(crate) fn is_alphanumeric_char(character: char) -> (alphanumeric: bool)
    ensures
        alphanumeric == is_alphanumeric(character),
{
    character.is_alphanumeric()
}

/// The lower-case mapping of a character: what `char::to_lowercase` yields.
pub uninterp spec fn lowercase(character: char) -> Seq<char>;

/// `char::to_lowercase`, which depends on the character alone.
#[verifier::external_body]
pub(crate) fn lowercase_chars(character: char) -> (lowered: Vec<char>)
    ensures
        lowered@ == lowercase(character),
{
    character.to_lowercase().collect()
}

/// `String::from_utf8`: succeeds exactly on valid UTF-8 and then holds the decoded characters.
#[verifier::external_body]
pub(crate) fn text_from_utf8(bytes: Vec<u8>) -> (text: Option<String>)
    ensures
        text is Some <==> valid_utf8(bytes@),
        text is Some ==> text->0@ == decode_utf8(bytes@),
{
    String::from_utf8(bytes).ok()
}

/// The result of `String::from_utf8_lossy`: invalid sequences become replacement characters.
pub uninterp spec fn utf8_lossy(bytes: Seq<u8>) -> Seq<char>;

/// `String::from_utf8_lossy`; on valid UTF-8 it is the decoded text itself.
#[verifier::external_body]
pub(crate) fn text_from_utf8_lossy(bytes: &[u8]) -> (text: String)
    ensures
        text@ == utf8_lossy(bytes@),
        valid_utf8(bytes@) ==> text@ == decode_utf8(bytes@),
{
    String::from_utf8_lossy(bytes).into_owned()
}

/// A control character: Unicode general category Cc.
pub open spec fn is_control(character: char) -> bool {
    (character as u32) <= 0x1f || 0x7f <= (character as u32) <= 0x9f
}

/// Decides [`is_control`].
pub fn is_control_char(character: char) -> (control: bool)
    ensures
        control == is_control(character),
{
    let code: u32 = character as u32;
    code <= 0x1f || (0x7f <= code && code <= 0x9f)
}

/// A white-space character: Unicode property `White_Space`.
pub open spec fn is_whitespace(character: char) -> bool {
    let code = character as u32;
    ||| 0x9 <= code <= 0xd
    ||| code == 0x20
    ||| code == 0x85
    ||| code == 0xa0
    ||| code == 0x1680
    ||| 0x2000 <= code <= 0x200a
    ||| code == 0x2028
    ||| code == 0x2029
    ||| code == 0x202f
    ||| code == 0x205f
    ||| code == 0x3000
}

/// Decides [`is_whitespace`].
pub fn is_whitespace_char(character: char) -> (whitespace: bool)
    ensures
        whitespace == is_whitespace(character),
{
    let code: u32 = character as u32;
    (0x9 <= code && code <= 0xd) || code == 0x20 || code == 0x85 || code == 0xa0 || code == 0x1680
        || (0x2000 <= code && code <= 0x200a) || code == 0x2028 || code == 0x2029 || code == 0x202f
        || code == 0x205f || code == 0x3000
}

/// The text without its leading white space.
pub open spec fn trim_start(text: Seq<char>) -> Seq<char>
    decreases text.len(),
{
    if text.len() > 0 && is_whitespace(text[0]) {
        trim_start(text.drop_first())
    } else {
        text
    }
}

/// The text without its trailing white space.
pub open spec fn trim_end(text: Seq<char>) -> Seq<char>
    decreases text.len(),
{
    if text.len() > 0 && is_whitespace(text.last()) {
        trim_end(text.drop_last())
    } else {
        text
    }
}

/// The text without white space at either end.
pub open spec fn trim(text: Seq<char>) -> Seq<char> {
    trim_end(trim_start(text))
}

/// Text that is empty or only white space.
pub open spec fn is_blank(text: Seq<char>) -> bool {
    forall|i: int| 0 <= i < text.len() ==> is_whitespace(#[trigger] text[i])
}

proof fn lemma_trim_start(text: Seq<char>, from: int)
    requires
        0 <= from <= text.len(),
        forall|i: int| 0 <= i < from ==> is_whitespace(#[trigger] text[i]),
        from < text.len() ==> !is_whitespace(text[from]),
    ensures
        trim_start(text) == text.subrange(from, text.len() as int),
    decreases text.len(),
{
    if from == 0 {
        assert(text.subrange(0, text.len() as int) =~= text);
    } else {
        let rest = text.drop_first();
        assert(is_whitespace(text[0]));
        assert forall|i: int| 0 <= i < from - 1 implies is_whitespace(#[trigger] rest[i]) by {
            assert(rest[i] == text[i + 1]);
        }
        lemma_trim_start(rest, from - 1);
        assert(rest.subrange(from - 1, rest.len() as int) =~= text.subrange(
            from,
            text.len() as int,
        ));
    }
}

proof fn lemma_trim_end(text: Seq<char>, to: int)
    requires
        0 <= to <= text.len(),
        forall|i: int| to <= i < text.len() ==> is_whitespace(#[trigger] text[i]),
        to > 0 ==> !is_whitespace(text[to - 1]),
    ensures
        trim_end(text) == text.subrange(0, to),
    decreases text.len(),
{
    if to == text.len() {
        assert(text.subrange(0, to) =~= text);
    } else {
        let rest = text.drop_last();
        assert(is_whitespace(text.last()));
        lemma_trim_end(rest, to);
        assert(rest.subrange(0, to) =~= text.subrange(0, to));
    }
}

/// A trimmed text has no white space at either end, and trimming it again changes nothing.
pub proof fn lemma_trim_is_trimmed(text: Seq<char>)
    ensures
        trim(trim(text)) == trim(text),
    decreases text.len(),
{
    lemma_trim_start_is_trimmed(text);
    lemma_trim_end_is_trimmed(trim_start(text));
    let trimmed = trim(text);
    if trimmed.len() > 0 {
        assert(trim_start(trimmed) == trimmed);
    }
    assert(trim_end(trimmed) == trimmed);
}

proof fn lemma_trim_start_is_trimmed(text: Seq<char>)
    ensures
        trim_start(text).len() > 0 ==> !is_whitespace(trim_start(text)[0]),
    decreases text.len(),
{
    if text.len() > 0 && is_whitespace(text[0]) {
        lemma_trim_start_is_trimmed(text.drop_first());
    }
}

proof fn lemma_trim_end_is_trimmed(text: Seq<char>)
    ensures
        trim_end(text).len() > 0 ==> !is_whitespace(trim_end(text).last()) && trim_end(text)[0]
            == text[0],
    decreases text.len(),
{
    if text.len() > 0 && is_whitespace(text.last()) {
        lemma_trim_end_is_trimmed(text.drop_last());
    }
}

/// Trimming leaves nothing exactly when the text is blank.
pub proof fn lemma_trim_is_empty_iff_blank(text: Seq<char>)
    ensures
        trim(text).len() == 0 <==> is_blank(text),
        is_blank(text) ==> trim(text) == Seq::<char>::empty(),
    decreases text.len(),
{
    if text.len() == 0 {
        assert(text =~= Seq::<char>::empty());
    } else if is_whitespace(text[0]) {
        let rest = text.drop_first();
        lemma_trim_is_empty_iff_blank(rest);
        if is_blank(text) {
            assert forall|i: int| 0 <= i < rest.len() implies is_whitespace(#[trigger] rest[i]) by {
                assert(rest[i] == text[i + 1]);
            }
        }
        if is_blank(rest) {
            assert forall|i: int| 0 <= i < text.len() implies is_whitespace(#[trigger] text[i]) by {
                if i > 0 {
                    assert(text[i] == rest[i - 1]);
                }
            }
        }
    } else {
        lemma_trim_end_keeps_first(text);
    }
}

proof fn lemma_trim_end_keeps_first(text: Seq<char>)
    requires
        text.len() > 0,
        !is_whitespace(text[0]),
    ensures
        trim_end(text).len() > 0,
    decreases text.len(),
{
    if is_whitespace(text.last()) {
        assert(text.len() > 1);
        lemma_trim_end_keeps_first(text.drop_last());
    }
}

/// The number of characters before the first `wanted`, or all of them where there is none.
pub open spec fn length_before(text: Seq<char>, wanted: char) -> nat
    decreases text.len(),
{
    if text.len() == 0 || text[0] == wanted {
        0
    } else {
        1 + length_before(text.drop_first(), wanted)
    }
}

/// A character is found where it comes first.
pub proof fn lemma_length_before(text: Seq<char>, wanted: char, found: int)
    requires
        0 <= found <= text.len(),
        forall|i: int| 0 <= i < found ==> #[trigger] text[i] != wanted,
        found < text.len() ==> text[found] == wanted,
    ensures
        length_before(text, wanted) == found,
    decreases text.len(),
{
    if found > 0 {
        let rest = text.drop_first();
        assert(text[0] != wanted);
        assert forall|i: int| 0 <= i < found - 1 implies #[trigger] rest[i] != wanted by {
            assert(rest[i] == text[i + 1]);
        }
        lemma_length_before(rest, wanted, found - 1);
    }
}

/// The decimal digits of a number, most significant first.
pub open spec fn decimal(number: nat) -> Seq<char>
    decreases number,
{
    if number < 10 {
        seq![digit_char(number)]
    } else {
        decimal(number / 10).push(digit_char(number % 10))
    }
}

/// The character of one decimal digit.
pub open spec fn digit_char(digit: nat) -> char {
    if digit == 0 {
        '0'
    } else if digit == 1 {
        '1'
    } else if digit == 2 {
        '2'
    } else if digit == 3 {
        '3'
    } else if digit == 4 {
        '4'
    } else if digit == 5 {
        '5'
    } else if digit == 6 {
        '6'
    } else if digit == 7 {
        '7'
    } else if digit == 8 {
        '8'
    } else {
        '9'
    }
}

/// The decimal digit that a character writes.
pub open spec fn digit_of(character: char) -> Option<nat> {
    if character == '0' {
        Some(0)
    } else if character == '1' {
        Some(1)
    } else if character == '2' {
        Some(2)
    } else if character == '3' {
        Some(3)
    } else if character == '4' {
        Some(4)
    } else if character == '5' {
        Some(5)
    } else if character == '6' {
        Some(6)
    } else if character == '7' {
        Some(7)
    } else if character == '8' {
        Some(8)
    } else if character == '9' {
        Some(9)
    } else {
        None
    }
}

/// Writes one decimal digit.
pub fn digit_to_char(digit: u64) -> (character: char)
    ensures
        character == digit_char(digit as nat),
{
    match digit {
        0 => '0',
        1 => '1',
        2 => '2',
        3 => '3',
        4 => '4',
        5 => '5',
        6 => '6',
        7 => '7',
        8 => '8',
        _ => '9',
    }
}

/// Reads one decimal digit.
pub fn char_to_digit(character: char) -> (digit: Option<u64>)
    ensures
        match digit_of(character) {
            Some(value) => digit is Some && digit->0 == value,
            None => digit is None,
        },
{
    match character {
        '0' => Some(0),
        '1' => Some(1),
        '2' => Some(2),
        '3' => Some(3),
        '4' => Some(4),
        '5' => Some(5),
        '6' => Some(6),
        '7' => Some(7),
        '8' => Some(8),
        '9' => Some(9),
        _ => None,
    }
}

/// Writes a number in decimal digits.
pub fn decimal_text(number: u64) -> (text: String)
    ensures
        text@ == decimal(number as nat),
    decreases number,
{
    let mut text = if number < 10 { String::new() } else { decimal_text(number / 10) };
    text.push(digit_to_char(number % 10));
    proof {
        if number < 10 {
            assert(text@ =~= decimal(number as nat));
        }
    }
    text
}

/// Collects the characters of a string slice.
pub fn chars_of(text: &str) -> (characters: Vec<char>)
    ensures
        characters@ == text@,
{
    let mut characters: Vec<char> = Vec::new();
    for character in iterator: text.chars()
        invariant
            iterator.seq() == text@,
            characters@ == text@.subrange(0, iterator.index() as int),
    {
        characters.push(character);
        assert(characters@ =~= text@.subrange(0, iterator.index() + 1));
    }
    assert(text@.subrange(0, text@.len() as int) =~= text@);
    characters
}

/// Builds a string from the characters in `from..to`.
pub fn string_from(characters: &Vec<char>, from: usize, to: usize) -> (text: String)
    requires
        from <= to <= characters@.len(),
    ensures
        text@ == characters@.subrange(from as int, to as int),
{
    let mut text = String::new();
    let mut index: usize = from;
    while index < to
        invariant
            from <= index <= to <= characters@.len(),
            text@ == characters@.subrange(from as int, index as int),
        decreases to - index,
    {
        text.push(characters[index]);
        index += 1;
        assert(text@ =~= characters@.subrange(from as int, index as int));
    }
    text
}

/// Removes the white space at both ends of a text.
pub fn trim_text(text: &str) -> (trimmed: String)
    ensures
        trimmed@ == trim(text@),
{
    let characters = chars_of(text);
    let mut from: usize = 0;
    while from < characters.len() && is_whitespace_char(characters[from])
        invariant
            from <= characters@.len(),
            forall|i: int| 0 <= i < from ==> is_whitespace(#[trigger] characters@[i]),
        decreases characters@.len() - from,
    {
        from += 1;
    }
    let mut to: usize = characters.len();
    while from < to && is_whitespace_char(characters[to - 1])
        invariant
            from <= to <= characters@.len(),
            forall|i: int| to <= i < characters@.len() ==> is_whitespace(#[trigger] characters@[i]),
        decreases to,
    {
        to -= 1;
    }
    proof {
        lemma_trim_start(characters@, from as int);
        let rest = characters@.subrange(from as int, characters@.len() as int);
        assert forall|i: int| to - from <= i < rest.len() implies is_whitespace(
            #[trigger] rest[i],
        ) by {
            assert(rest[i] == characters@[i + from]);
        }
        lemma_trim_end(rest, to - from);
        assert(rest.subrange(0, to - from) =~= characters@.subrange(from as int, to as int));
    }
    string_from(&characters, from, to)
}

/// Decides whether a text is empty or only white space.
pub fn is_blank_text(text: &str) -> (blank: bool)
    ensures
        blank == is_blank(text@),
{
    let characters = chars_of(text);
    let mut index: usize = 0;
    while index < characters.len()
        invariant
            index <= characters@.len(),
            characters@ == text@,
            forall|i: int| 0 <= i < index ==> is_whitespace(#[trigger] characters@[i]),
        decreases characters@.len() - index,
    {
        if !is_whitespace_char(characters[index]) {
            assert(!is_whitespace(text@[index as int]));
            return false;
        }
        index += 1;
    }
    true
}

/// The text with each `\r`, and each `\r\n`, as one `\n`.
pub open spec fn with_unix_newlines(text: Seq<char>) -> Seq<char>
    decreases text.len(),
{
    if text.len() == 0 {
        Seq::empty()
    } else {
        let before = with_unix_newlines(text.drop_last());
        if text.last() == '\r' {
            before.push('\n')
        } else if text.last() == '\n' && text.len() >= 2 && text[text.len() - 2] == '\r' {
            before
        } else {
            before.push(text.last())
        }
    }
}

/// The parts of a text, one after the other.
pub open spec fn concat(parts: Seq<Seq<char>>) -> Seq<char>
    decreases parts.len(),
{
    if parts.len() == 0 {
        Seq::empty()
    } else {
        concat(parts.drop_last()) + parts.last()
    }
}

/// Two halves of a list, each joined, make the whole joined list.
pub proof fn lemma_concat_split(parts: Seq<Seq<char>>, middle: int)
    requires
        0 <= middle <= parts.len(),
    ensures
        concat(parts) == concat(parts.subrange(0, middle)) + concat(
            parts.subrange(middle, parts.len() as int),
        ),
    decreases parts.len(),
{
    if middle == parts.len() {
        assert(parts.subrange(0, middle) =~= parts);
        assert(concat(parts.subrange(middle, middle)) =~= Seq::empty());
        assert(concat(parts) + Seq::empty() =~= concat(parts));
    } else {
        let before = parts.drop_last();
        lemma_concat_split(before, middle);
        let tail = parts.subrange(middle, parts.len() as int);
        assert(before.subrange(0, middle) =~= parts.subrange(0, middle));
        assert(tail.drop_last() =~= before.subrange(middle, before.len() as int));
        assert(concat(parts) =~= concat(parts.subrange(0, middle)) + concat(tail));
    }
}

/// Joins the parts in `from..to`.
pub fn concat_text(parts: &Vec<String>, from: usize, to: usize) -> (text: String)
    requires
        from <= to <= parts@.len(),
    ensures
        text@ == concat(parts.deep_view().subrange(from as int, to as int)),
{
    let mut text = String::new();
    let mut index: usize = from;
    while index < to
        invariant
            from <= index <= to <= parts@.len(),
            text@ == concat(parts.deep_view().subrange(from as int, index as int)),
        decreases to - index,
    {
        text.push_str(&parts[index]);
        index += 1;
        proof {
            let joined = parts.deep_view().subrange(from as int, index as int);
            assert(joined.drop_last() =~= parts.deep_view().subrange(from as int, index - 1));
            assert(joined.last() == parts@[index - 1]@);
        }
    }
    text
}

/// The user-perceived characters of a text: what `UnicodeSegmentation::graphemes` yields for it
/// with extended clusters.
pub uninterp spec fn graphemes(text: Seq<char>) -> Seq<Seq<char>>;

/// `UnicodeSegmentation::graphemes` with extended clusters. It cuts the text into pieces that are
/// not empty and leaves nothing out.
#[verifier::external_body]
pub(crate) fn graphemes_of(text: &str) -> (pieces: Vec<String>)
    ensures
        pieces.deep_view() == graphemes(text@),
        concat(pieces.deep_view()) == text@,
        forall|i: int| 0 <= i < pieces@.len() ==> (#[trigger] pieces@[i])@.len() > 0,
{
    unicode_segmentation::UnicodeSegmentation::graphemes(text, true).map(String::from).collect()
}

/// The number of terminal columns of a text: what `UnicodeWidthStr::width` returns for it.
pub uninterp spec fn display_width(text: Seq<char>) -> usize;

/// `UnicodeWidthStr::width`, which depends on the text alone.
#[verifier::external_body]
pub(crate) fn width_of(text: &str) -> (width: usize)
    ensures
        width == display_width(text@),
{
    unicode_width::UnicodeWidthStr::width(text)
}

/// Text that cannot control the terminal: its only control character is the newline.
pub open spec fn is_terminal_safe(text: Seq<char>) -> bool {
    forall|i: int| 0 <= i < text.len() ==> !is_control(#[trigger] text[i]) || text[i] == '\n'
}

/// What follows a prefix.
pub open spec fn after_prefix(text: Seq<char>, prefix: Seq<char>) -> Option<Seq<char>> {
    if prefix.is_prefix_of(text) {
        Some(text.skip(prefix.len() as int))
    } else {
        None
    }
}

/// Takes a prefix off a text.
pub fn strip_prefix(text: &str, prefix: &str) -> (rest: Option<String>)
    ensures
        match rest {
            Some(rest) => after_prefix(text@, prefix@) == Some(rest@),
            None => after_prefix(text@, prefix@) is None,
        },
{
    let characters = chars_of(text);
    let wanted = chars_of(prefix);
    if characters.len() < wanted.len() {
        return None;
    }
    let mut index: usize = 0;
    while index < wanted.len()
        invariant
            index <= wanted@.len() <= characters@.len(),
            characters@ == text@,
            wanted@ == prefix@,
            forall|i: int| 0 <= i < index ==> characters@[i] == wanted@[i],
        decreases wanted@.len() - index,
    {
        if characters[index] != wanted[index] {
            assert(text@.subrange(0, prefix@.len() as int)[index as int] != prefix@[index as int]);
            return None;
        }
        index += 1;
    }
    proof {
        assert(prefix@ =~= text@.subrange(0, prefix@.len() as int));
        assert(characters@.subrange(index as int, characters@.len() as int) =~= text@.skip(
            prefix@.len() as int,
        ));
    }
    Some(string_from(&characters, index, characters.len()))
}

/// A decimal number cannot control the terminal.
pub proof fn lemma_decimal_is_terminal_safe(number: nat)
    ensures
        is_terminal_safe(decimal(number)),
    decreases number,
{
    if number >= 10 {
        lemma_decimal_is_terminal_safe(number / 10);
    }
}

/// A text is its prefix and what follows it, and what does not begin with the prefix has no rest.
pub proof fn lemma_prefixes_are_taken_off(text: Seq<char>, prefix: Seq<char>, rest: Seq<char>)
    ensures
        after_prefix(text, prefix) == Some(rest) <==> text == prefix + rest,
{
    if text == prefix + rest {
        assert(text.take(prefix.len() as int) =~= prefix);
        assert(text.skip(prefix.len() as int) =~= rest);
    }
    if after_prefix(text, prefix) == Some(rest) {
        assert(text =~= prefix + rest);
    }
}

/// Each line end is one line feed, whether it was written `\n`, `\r` or `\r\n`, and everything
/// else stays.
pub proof fn lemma_line_ends_become_newlines(text: Seq<char>, character: char)
    ensures
        character != '\r' && character != '\n' ==> with_unix_newlines(text.push(character))
            == with_unix_newlines(text).push(character),
        character == '\r' ==> with_unix_newlines(text.push(character)) == with_unix_newlines(
            text,
        ).push('\n'),
        character == '\n' && (text.len() == 0 || text.last() != '\r') ==> with_unix_newlines(
            text.push(character),
        ) == with_unix_newlines(text).push('\n'),
        with_unix_newlines(text.push('\r').push('\n')) == with_unix_newlines(text).push('\n'),
        with_unix_newlines(Seq::empty()) == Seq::<char>::empty(),
{
    let longer = text.push(character);
    assert(longer.drop_last() =~= text);
    let returned = text.push('\r');
    assert(returned.drop_last() =~= text);
    let ended = returned.push('\n');
    assert(ended.drop_last() =~= returned);
    assert(with_unix_newlines(returned) == with_unix_newlines(text).push('\n'));
    assert(ended.len() >= 2 && ended.last() == '\n' && ended[ended.len() - 2] == '\r');
    assert(with_unix_newlines(ended) == with_unix_newlines(returned));
}

/// A number is written in decimal: its last digit is what it leaves modulo ten, the digits before
/// it are those of its tenth, and it begins with no zero of its own.
pub proof fn lemma_decimals_are_written_in_tens(number: nat, digit: nat)
    requires
        digit < 10,
    ensures
        decimal(number).len() > 0,
        number > 0 ==> decimal(number)[0] != '0',
        number > 0 ==> decimal(10 * number + digit) == decimal(number).push(
            decimal(digit)[0],
        ),
        decimal(digit).len() == 1,
        decimal(digit)[0] as u32 == '0' as u32 + digit,
    decreases number,
{
    if number >= 10 {
        lemma_decimals_are_written_in_tens(number / 10, number % 10);
    }
    if number > 0 {
        let longer = 10 * number + digit;
        assert(longer / 10 == number && longer % 10 == digit);
    }
}

/// White space is what Unicode calls so: the blank, tabs and line ends among it, and no letter or
/// digit of ASCII.
pub proof fn lemma_letters_are_not_white_space(character: char)
    ensures
        character == ' ' || character == '\t' || character == '\n' || character == '\r'
            ==> is_whitespace(character),
        0x21 <= character as u32 <= 0x7e ==> !is_whitespace(character) && !is_control(character),
        character as u32 == 0x85 || character as u32 == 0xa0 || character as u32 == 0x3000
            ==> is_whitespace(character),
{
}

/// The blank edges of a text: what trimming takes off it and what it leaves.
pub open spec fn is_trimmed_of(text: Seq<char>, head: Seq<char>, tail: Seq<char>, left: Seq<char>) -> bool {
    &&& text == head + left + tail
    &&& is_blank(head)
    &&& is_blank(tail)
    &&& left.len() > 0 ==> !is_whitespace(left[0]) && !is_whitespace(left.last())
}

/// Trimming takes white space off both ends, all of it and nothing else.
pub proof fn lemma_trimming_takes_the_blank_edges(text: Seq<char>)
    ensures
        exists|head: Seq<char>, tail: Seq<char>| #[trigger]
            is_trimmed_of(text, head, tail, trim(text)),
{
    lemma_trim_start_splits(text);
    let head = choose|head: Seq<char>|
        text == #[trigger] (head + trim_start(text)) && is_blank(head);
    let started = trim_start(text);
    lemma_trim_end_splits(started);
    let tail = choose|tail: Seq<char>| started == #[trigger] (trim_end(started) + tail) && is_blank(
        tail,
    );
    lemma_trim_start_is_trimmed(text);
    lemma_trim_end_is_trimmed(started);
    assert(head + (trim(text) + tail) =~= head + trim(text) + tail);
    assert(is_trimmed_of(text, head, tail, trim(text)));
}

proof fn lemma_trim_start_splits(text: Seq<char>)
    ensures
        exists|head: Seq<char>| text == #[trigger] (head + trim_start(text)) && is_blank(head),
    decreases text.len(),
{
    if text.len() > 0 && is_whitespace(text[0]) {
        let rest = text.drop_first();
        lemma_trim_start_splits(rest);
        let head = choose|head: Seq<char>|
            rest == #[trigger] (head + trim_start(rest)) && is_blank(head);
        let longer = seq![text[0]] + head;
        assert(trim_start(text) == trim_start(rest));
        assert(longer + trim_start(rest) =~= seq![text[0]] + (head + trim_start(rest)));
        assert(seq![text[0]] + rest =~= text);
        assert(text == longer + trim_start(text));
        assert(is_blank(longer));
    } else {
        assert(Seq::<char>::empty() + trim_start(text) =~= text);
        assert(is_blank(Seq::<char>::empty()));
    }
}

proof fn lemma_trim_end_splits(text: Seq<char>)
    ensures
        exists|tail: Seq<char>| text == #[trigger] (trim_end(text) + tail) && is_blank(tail),
    decreases text.len(),
{
    if text.len() > 0 && is_whitespace(text.last()) {
        let rest = text.drop_last();
        lemma_trim_end_splits(rest);
        let tail = choose|tail: Seq<char>|
            rest == #[trigger] (trim_end(rest) + tail) && is_blank(tail);
        let longer = tail.push(text.last());
        assert(trim_end(text) == trim_end(rest));
        assert(trim_end(rest) + longer =~= (trim_end(rest) + tail).push(text.last()));
        assert(rest.push(text.last()) =~= text);
        assert(text == trim_end(text) + longer);
        assert(is_blank(longer));
    } else {
        assert(trim_end(text) + Seq::<char>::empty() =~= text);
        assert(is_blank(Seq::<char>::empty()));
    }
}

/// Digits are read and written as what they are.
pub proof fn lemma_digits_are_what_they_are()
    ensures
        forall|character: char, digit: Option<u64>| #[trigger]
            call_ensures(char_to_digit, (character,), digit) ==> {
                &&& digit is Some ==> digit->0 < 10 && '0' as u32 + digit->0 == character as u32
                &&& digit is None ==> character != '0' && character != '1' && character != '2'
                    && character != '3' && character != '4' && character != '5' && character != '6'
                    && character != '7' && character != '8' && character != '9'
            },
        forall|digit: u64, character: char| #[trigger]
            call_ensures(digit_to_char, (digit,), character) && digit < 10 ==> character as u32
                == '0' as u32 + digit,
{
}

} // verus!
