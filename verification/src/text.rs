//! Text as sequences of characters: the few operations that the rules of this
//! library are stated over.

use vstd::prelude::*;
use vstd::string::StringExecFns;

verus! {

/// `String::push` of std appends one character.
pub assume_specification[ std::string::String::push ](text: &mut std::string::String, c: char)
    ensures
        final(text)@ == old(text)@.push(c),
;

/// The decimal digit of a number below ten.
pub open spec fn digit(value: nat) -> char {
    (('0' as u32) + value) as char
}

/// A number in decimal, without leading zeros.
pub open spec fn decimal_text(value: nat) -> Seq<char>
    decreases value,
{
    if value < 10 {
        seq![digit(value)]
    } else {
        decimal_text(value / 10).push(digit(value % 10))
    }
}

/// The decimal digit of a number below ten.
pub fn digit_char(value: u64) -> (c: char)
    requires
        value < 10,
    ensures
        c == digit(value as nat),
{
    let code: u8 = 48u8 + value as u8;
    code as char
}

/// Writes a number in decimal.
pub fn decimal(value: u64) -> (text: String)
    ensures
        text@ == decimal_text(value as nat),
    decreases value,
{
    if value < 10 {
        let mut text = String::new();
        text.push(digit_char(value));
        assert(text@ =~= seq![digit(value as nat)]);
        text
    } else {
        let mut text = decimal(value / 10);
        text.push(digit_char(value % 10));
        text
    }
}

/// A number that may be negative, in decimal.
pub open spec fn signed_text(value: int) -> Seq<char> {
    if value < 0 {
        "-"@ + decimal_text((-value) as nat)
    } else {
        decimal_text(value as nat)
    }
}

/// Writes a number that may be negative in decimal.
pub fn signed_decimal(value: i64) -> (text: String)
    ensures
        text@ == signed_text(value as int),
{
    if value < 0 {
        let magnitude: u64 = if value == i64::MIN {
            0x8000_0000_0000_0000
        } else {
            (-value) as u64
        };
        join2("-", decimal(magnitude).as_str())
    } else {
        decimal(value as u64)
    }
}

/// A text with zeros in front, up to a length.
pub open spec fn zero_filled(text: Seq<char>, width: nat) -> Seq<char>
    decreases width - text.len(),
{
    if text.len() >= width {
        text
    } else {
        zero_filled(seq!['0'] + text, width)
    }
}

/// Writes a number in decimal with zeros in front, up to a length.
pub fn padded_decimal(value: u64, width: usize) -> (text: String)
    ensures
        text@ == zero_filled(decimal_text(value as nat), width as nat),
{
    let mut text = decimal(value);
    let mut count: usize = chars_of(text.as_str()).len();
    while count < width
        invariant
            count == text@.len(),
            zero_filled(text@, width as nat) == zero_filled(
                decimal_text(value as nat),
                width as nat,
            ),
        decreases width - count,
    {
        proof {
            reveal_strlit("0");
            assert("0"@ =~= seq!['0']);
        }
        text = join2("0", text.as_str());
        count += 1;
    }
    text
}

/// The characters of a text.
pub fn chars_of(text: &str) -> (chars: Vec<char>)
    ensures
        chars@ == text@,
{
    let mut chars: Vec<char> = Vec::new();
    for c in iter: text.chars()
        invariant
            iter.seq() == text@,
            chars@ == text@.take(iter.index()),
    {
        chars.push(c);
    }
    assert(text@.take(text@.len() as int) =~= text@);
    chars
}

/// The text made of a run of characters.
pub fn string_of(chars: &Vec<char>, from: usize, to: usize) -> (text: String)
    requires
        from <= to <= chars@.len(),
    ensures
        text@ == chars@.subrange(from as int, to as int),
{
    let mut text = String::new();
    let mut i: usize = from;
    while i < to
        invariant
            from <= i <= to <= chars@.len(),
            text@ == chars@.subrange(from as int, i as int),
        decreases to - i,
    {
        text.push(chars[i]);
        i += 1;
        assert(text@ =~= chars@.subrange(from as int, i as int));
    }
    text
}

/// Two texts, one after the other.
pub fn join2(a: &str, b: &str) -> (text: String)
    ensures
        text@ == a@ + b@,
{
    a.to_owned().concat(b)
}

/// Three texts, one after the other.
pub fn join3(a: &str, b: &str, c: &str) -> (text: String)
    ensures
        text@ == a@ + b@ + c@,
{
    a.to_owned().concat(b).concat(c)
}

/// Four texts, one after the other.
pub fn join4(a: &str, b: &str, c: &str, d: &str) -> (text: String)
    ensures
        text@ == a@ + b@ + c@ + d@,
{
    a.to_owned().concat(b).concat(c).concat(d)
}

/// Five texts, one after the other.
pub fn join5(a: &str, b: &str, c: &str, d: &str, e: &str) -> (text: String)
    ensures
        text@ == a@ + b@ + c@ + d@ + e@,
{
    a.to_owned().concat(b).concat(c).concat(d).concat(e)
}

/// Whether two texts are equal.
pub fn same_text(a: &str, b: &str) -> (same: bool)
    ensures
        same == (a@ == b@),
{
    a.to_owned() == b.to_owned()
}

/// How many bytes a text takes in UTF-8.
pub open spec fn utf8_len(text: Seq<char>) -> nat {
    vstd::utf8::encode_utf8(text).len()
}

/// How many bytes a text takes in UTF-8.
pub fn byte_len(text: &str) -> (count: usize)
    ensures
        count == utf8_len(text@),
{
    text.as_bytes().len()
}

/// The characters that Unicode calls white space.
pub open spec fn is_white_space(c: char) -> bool {
    let code = c as u32;
    ||| 0x9 <= code <= 0xd
    ||| code == 0x20
    ||| code == 0x85
    ||| code == 0xa0
    ||| code == 0x1680
    ||| 0x2000 <= code <= 0x200a
    ||| code == 0x2028
    ||| code == 0x2029
    ||| code == 0x202f
    ||| code == 0x205f
    ||| code == 0x3000
}

/// Whether Unicode calls the character white space.
pub fn white_space(c: char) -> (white: bool)
    ensures
        white == is_white_space(c),
{
    let code: u32 = c as u32;
    (0x9 <= code && code <= 0xd) || code == 0x20 || code == 0x85 || code == 0xa0 || code == 0x1680
        || (0x2000 <= code && code <= 0x200a) || code == 0x2028 || code == 0x2029 || code == 0x202f
        || code == 0x205f || code == 0x3000
}

/// The characters that Unicode calls control characters.
pub open spec fn is_control(c: char) -> bool {
    let code = c as u32;
    code < 0x20 || 0x7f <= code <= 0x9f
}

/// Some character is a control character.
pub open spec fn holds_control(text: Seq<char>) -> bool {
    exists|i: int| 0 <= i < text.len() && is_control(#[trigger] text[i])
}

/// Whether some character is a control character.
pub fn has_control(text: &str) -> (found: bool)
    ensures
        found == holds_control(text@),
{
    let chars = chars_of(text);
    let mut i: usize = 0;
    while i < chars.len()
        invariant
            i <= chars@.len(),
            chars@ == text@,
            forall|j: int| 0 <= j < i ==> !is_control(#[trigger] chars@[j]),
        decreases chars@.len() - i,
    {
        let code: u32 = chars[i] as u32;
        if code < 0x20 || (0x7f <= code && code <= 0x9f) {
            assert(is_control(text@[i as int]));
            return true;
        }
        i += 1;
    }
    false
}

/// A text without the white space in front.
pub open spec fn trim_start_text(text: Seq<char>) -> Seq<char>
    decreases text.len(),
{
    if text.len() > 0 && is_white_space(text[0]) {
        trim_start_text(text.skip(1))
    } else {
        text
    }
}

/// A text without the white space behind.
pub open spec fn trim_end_text(text: Seq<char>) -> Seq<char>
    decreases text.len(),
{
    if text.len() > 0 && is_white_space(text.last()) {
        trim_end_text(text.drop_last())
    } else {
        text
    }
}

/// A text without the white space at either end.
pub open spec fn trim_text(text: Seq<char>) -> Seq<char> {
    trim_end_text(trim_start_text(text))
}

/// Takes the white space off both ends.
pub fn trim(text: &str) -> (trimmed: String)
    ensures
        trimmed@ == trim_text(text@),
{
    let chars = chars_of(text);
    let mut from: usize = 0;
    assert(chars@.skip(0) =~= chars@);
    while from < chars.len() && white_space(chars[from])
        invariant
            from <= chars@.len(),
            trim_start_text(chars@) == trim_start_text(chars@.skip(from as int)),
        decreases chars@.len() - from,
    {
        assert(chars@.skip(from as int).skip(1) =~= chars@.skip(from + 1));
        from += 1;
    }
    let ghost front = chars@.skip(from as int);
    assert(trim_start_text(chars@) == front);
    let mut to: usize = chars.len();
    assert(front =~= chars@.subrange(from as int, to as int));
    while from < to && white_space(chars[to - 1])
        invariant
            from <= to <= chars@.len(),
            trim_end_text(front) == trim_end_text(chars@.subrange(from as int, to as int)),
        decreases to - from,
    {
        assert(chars@.subrange(from as int, to as int).drop_last() =~= chars@.subrange(
            from as int,
            to - 1,
        ));
        assert(chars@.subrange(from as int, to as int).last() == chars@[to - 1]);
        to -= 1;
    }
    proof {
        if from < to {
            assert(chars@.subrange(from as int, to as int).last() == chars@[to - 1]);
        }
    }
    string_of(&chars, from, to)
}

/// The ASCII lower case of a character; others stay.
pub open spec fn lower_char(c: char) -> char {
    if 'A' <= c <= 'Z' {
        (c as u32 + 32) as char
    } else {
        c
    }
}

/// A text in ASCII lower case.
pub open spec fn lower_text(text: Seq<char>) -> Seq<char> {
    text.map_values(|c: char| lower_char(c))
}

/// The ASCII lower case of a character.
pub fn to_lower_char(c: char) -> (lower: char)
    ensures
        lower == lower_char(c),
{
    if 'A' <= c && c <= 'Z' {
        let code: u8 = c as u8 + 32;
        code as char
    } else {
        c
    }
}

/// Writes a text in ASCII lower case.
pub fn to_lower(text: &str) -> (lower: String)
    ensures
        lower@ == lower_text(text@),
{
    let mut lower = String::new();
    for c in iter: text.chars()
        invariant
            iter.seq() == text@,
            lower@ == lower_text(text@.take(iter.index())),
    {
        let ghost at = iter.index();
        lower.push(to_lower_char(c));
        assert(lower@ =~= lower_text(text@.take(at + 1)));
    }
    assert(text@.take(text@.len() as int) =~= text@);
    lower
}

/// Whether every character is ASCII.
pub open spec fn all_ascii(text: Seq<char>) -> bool {
    forall|i: int| 0 <= i < text.len() ==> (#[trigger] text[i] as u32) < 128
}

/// Whether `tail` ends `text`.
pub open spec fn has_suffix(text: Seq<char>, tail: Seq<char>) -> bool {
    tail.len() <= text.len() && text.skip(text.len() - tail.len()) == tail
}

/// Whether `head` starts `text`.
pub open spec fn has_prefix(text: Seq<char>, head: Seq<char>) -> bool {
    head.len() <= text.len() && text.take(head.len() as int) == head
}

/// Whether `tail` ends `text`.
pub fn ends_with(text: &str, tail: &str) -> (ends: bool)
    ensures
        ends == has_suffix(text@, tail@),
{
    let whole = chars_of(text);
    let part = chars_of(tail);
    if part.len() > whole.len() {
        return false;
    }
    let offset: usize = whole.len() - part.len();
    let mut i: usize = 0;
    while i < part.len()
        invariant
            whole@ == text@,
            part@ == tail@,
            i <= part.len(),
            offset + part.len() == whole.len(),
            forall|j: int| 0 <= j < i ==> whole@[offset + j] == part@[j],
        decreases part.len() - i,
    {
        if whole[offset + i] != part[i] {
            assert(text@.skip(offset as int)[i as int] != tail@[i as int]);
            return false;
        }
        i += 1;
    }
    assert(text@.skip(offset as int) =~= tail@);
    true
}

/// Whether `head` starts `text`.
pub fn starts_with(text: &str, head: &str) -> (starts: bool)
    ensures
        starts == has_prefix(text@, head@),
{
    let whole = chars_of(text);
    let part = chars_of(head);
    if part.len() > whole.len() {
        return false;
    }
    let mut i: usize = 0;
    while i < part.len()
        invariant
            whole@ == text@,
            part@ == head@,
            i <= part.len() <= whole.len(),
            forall|j: int| 0 <= j < i ==> whole@[j] == part@[j],
        decreases part.len() - i,
    {
        if whole[i] != part[i] {
            assert(text@.take(head@.len() as int)[i as int] != head@[i as int]);
            return false;
        }
        i += 1;
    }
    assert(text@.take(head@.len() as int) =~= head@);
    true
}

proof fn lemma_trim_start(text: Seq<char>)
    ensures
        exists|front: Seq<char>|
            text == #[trigger] (front + trim_start_text(text)) && only_white_space(front),
        trim_start_text(text).len() > 0 ==> !is_white_space(trim_start_text(text)[0]),
    decreases text.len(),
{
    if text.len() > 0 && is_white_space(text[0]) {
        lemma_trim_start(text.skip(1));
        let rest = choose|front: Seq<char>|
            text.skip(1) == #[trigger] (front + trim_start_text(text.skip(1)))
                && only_white_space(front);
        let front = seq![text[0]] + rest;
        let inner = trim_start_text(text);
        assert(text.skip(1) == rest + inner);
        assert(text =~= seq![text[0]] + (rest + inner));
        assert(seq![text[0]] + (rest + inner) =~= front + inner);
        assert(text =~= front + trim_start_text(text));
        assert(only_white_space(front));
    } else {
        let front = Seq::<char>::empty();
        assert(text =~= front + trim_start_text(text));
        assert(only_white_space(front));
    }
}

proof fn lemma_trim_end(text: Seq<char>)
    ensures
        exists|back: Seq<char>|
            text == #[trigger] (trim_end_text(text) + back) && only_white_space(back),
        trim_end_text(text).len() > 0 ==> !is_white_space(trim_end_text(text).last()),
    decreases text.len(),
{
    if text.len() > 0 && is_white_space(text.last()) {
        lemma_trim_end(text.drop_last());
        let rest = choose|back: Seq<char>|
            text.drop_last() == #[trigger] (trim_end_text(text.drop_last()) + back)
                && only_white_space(back);
        let back = rest.push(text.last());
        let inner = trim_end_text(text);
        assert(text.drop_last() == inner + rest);
        assert(text =~= (inner + rest).push(text.last()));
        assert((inner + rest).push(text.last()) =~= inner + back);
        assert(text =~= trim_end_text(text) + back);
        assert(only_white_space(back));
    } else {
        let back = Seq::<char>::empty();
        assert(text =~= trim_end_text(text) + back);
        assert(only_white_space(back));
    }
}

/// Nothing but white space.
pub open spec fn only_white_space(text: Seq<char>) -> bool {
    forall|i: int| 0 <= i < text.len() ==> is_white_space(#[trigger] text[i])
}

/// A trimmed text is the text but for white space in front and behind, and neither begins
/// nor ends with white space.
pub proof fn law_only_white_space_is_trimmed(text: Seq<char>)
    ensures
        exists|front: Seq<char>, back: Seq<char>|
            text == #[trigger] (front + trim_text(text) + back) && only_white_space(front)
                && only_white_space(back),
        trim_text(text).len() > 0 ==> !is_white_space(trim_text(text)[0]) && !is_white_space(
            trim_text(text).last(),
        ),
{
    let inner = trim_start_text(text);
    lemma_trim_start(text);
    lemma_trim_end(inner);
    let front = choose|front: Seq<char>|
        text == #[trigger] (front + inner) && only_white_space(front);
    let back = choose|back: Seq<char>|
        inner == #[trigger] (trim_end_text(inner) + back) && only_white_space(back);
    assert(text =~= front + trim_text(text) + back);
    if trim_text(text).len() > 0 {
        assert(inner[0] == trim_text(text)[0]);
    }
}

/// Of the ASCII characters the space and those from the tab to the carriage return are
/// white space. No letter, digit or punctuation is white space or a control character.
pub proof fn law_printed_characters_are_not_white_space(c: char)
    ensures
        0x21 <= c as u32 <= 0x7e ==> !is_white_space(c) && !is_control(c),
        (c as u32) < 0x80 ==> (is_white_space(c) <==> c as u32 == 0x20 || 0x9 <= c as u32 <= 0xd),
        (c as u32) < 0x80 ==> (is_control(c) <==> (c as u32) < 0x20 || c as u32 == 0x7f),
{
}

/// Lower case changes the letters from A to Z alone, each to the letter that stands 32
/// places after it. A text in lower case has as many characters, no such letter, and to
/// put it in lower case again changes nothing.
pub proof fn law_lower_case_is_settled(text: Seq<char>, i: int)
    requires
        0 <= i < text.len(),
    ensures
        lower_text(text).len() == text.len(),
        !('A' <= lower_text(text)[i] <= 'Z'),
        !('A' <= text[i] <= 'Z') ==> lower_text(text)[i] == text[i],
        'A' <= text[i] <= 'Z' ==> lower_text(text)[i] as u32 == text[i] as u32 + 32,
        lower_text(lower_text(text)) == lower_text(text),
{
    assert forall|j: int| 0 <= j < text.len() implies lower_text(lower_text(text))[j]
        == #[trigger] lower_text(text)[j] by {
        assert(lower_char(lower_char(text[j])) == lower_char(text[j]));
    }
    assert(lower_text(lower_text(text)) =~= lower_text(text));
}

/// The text ends, or begins, with another if and only if it is that one with something in
/// front, or behind.
pub proof fn law_ends_are_parts(text: Seq<char>, other: Seq<char>)
    ensures
        has_suffix(text, other) <==> exists|front: Seq<char>| text == #[trigger] (front + other),
        has_prefix(text, other) <==> exists|back: Seq<char>| text == #[trigger] (other + back),
{
    if has_suffix(text, other) {
        let front = text.take(text.len() - other.len());
        assert(text =~= front + other);
    }
    if has_prefix(text, other) {
        let back = text.skip(other.len() as int);
        assert(text =~= other + back);
    }
    if exists|front: Seq<char>| text == #[trigger] (front + other) {
        let front = choose|front: Seq<char>| text == #[trigger] (front + other);
        assert(text.skip(text.len() - other.len()) =~= other);
    }
    if exists|back: Seq<char>| text == #[trigger] (other + back) {
        let back = choose|back: Seq<char>| text == #[trigger] (other + back);
        assert(text.take(other.len() as int) =~= other);
    }
}

/// A number in decimal has as many digits as it takes, and stands for the number: its last
/// digit is the rest by ten, and what stands in front of it is the number of tens.
pub proof fn law_decimal_numbers_are_digits(value: nat)
    ensures
        decimal_text(value).len() > 0,
        decimal_text(value).len() > 1 ==> decimal_text(value)[0] != '0',
        decimal_text(value).last() as u32 == 48 + value % 10,
        value >= 10 ==> decimal_text(value).drop_last() == decimal_text(value / 10),
        value < 10 ==> decimal_text(value).len() == 1,
    decreases value,
{
    if value >= 10 {
        law_decimal_numbers_are_digits(value / 10);
        assert(decimal_text(value).drop_last() =~= decimal_text(value / 10));
        if decimal_text(value / 10).len() == 1 {
            assert(value / 10 < 10) by {
                if value / 10 >= 10 {
                    law_decimal_numbers_are_digits(value / 10 / 10);
                }
            }
            assert(decimal_text(value)[0] as u32 == 48 + value / 10);
        }
    }
}

/// A text that is filled up has at least the width, ends with the text, and has nothing
/// but zeros in front of it; a text of that width stays as it is.
pub proof fn law_filling_puts_zeros_in_front(text: Seq<char>, width: nat)
    ensures
        zero_filled(text, width).len() == if text.len() >= width {
            text.len()
        } else {
            width
        },
        forall|i: int|
            0 <= i < zero_filled(text, width).len() - text.len() ==> #[trigger] zero_filled(
                text,
                width,
            )[i] == '0',
        zero_filled(text, width).skip(zero_filled(text, width).len() - text.len()) == text,
    decreases width - text.len(),
{
    let filled = zero_filled(text, width);
    if text.len() < width {
        let longer = seq!['0'] + text;
        law_filling_puts_zeros_in_front(longer, width);
        let tail = filled.skip(filled.len() - longer.len());
        assert(tail == longer);
        assert(filled.skip(filled.len() - text.len()) =~= tail.skip(1));
        assert(longer.skip(1) =~= text);
        assert forall|i: int| 0 <= i < filled.len() - text.len() implies #[trigger] filled[i]
            == '0' by {
            if i == filled.len() - longer.len() {
                assert(filled[i] == tail[0]);
            }
        }
    } else {
        assert(filled.skip(0) =~= text);
    }
}

} // verus!
