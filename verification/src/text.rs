//! Text as a sequence of characters: comparison, searching, line splitting and
//! decimal rendering.

use vstd::prelude::*;

verus! {

/// The views of a list of strings.
pub open spec fn texts(items: Seq<String>) -> Seq<Seq<char>> {
    items.map_values(|item: String| item@)
}

/// The view of an optional borrowed text.
pub open spec fn opt_str(item: Option<&str>) -> Option<Seq<char>> {
    match item {
        Some(value) => Some(value@),
        None => None,
    }
}

/// The view of an optional owned text.
pub open spec fn opt_string(item: Option<String>) -> Option<Seq<char>> {
    match item {
        Some(value) => Some(value@),
        None => None,
    }
}

/// Appends one character to a string.
///
/// `std::string::String::push` appends the character at the end and leaves the
/// rest as it was.
#[verifier::external_body]
pub(crate) fn push_char(out: &mut String, c: char)
    ensures
        final(out)@ == old(out)@.push(c),
{
    out.push(c);
}

/// Collects the characters of a text.
pub fn chars_of(text: &str) -> (out: Vec<char>)
    ensures
        out@ == text@,
{
    let mut out: Vec<char> = Vec::new();
    for c in it: text.chars()
        invariant
            out@ == it.seq().take(it.index() as int),
            it.seq() == text@,
    {
        out.push(c);
        assert(it.seq().take(it.index() as int + 1) =~= it.seq().take(it.index() as int).push(c));
    }
    assert(text@.take(text@.len() as int) =~= text@);
    out
}

/// Builds a string from characters.
pub fn text_of(chars: &[char]) -> (out: String)
    ensures
        out@ == chars@,
{
    let mut out = String::new();
    let mut i: usize = 0;
    while i < chars.len()
        invariant
            i <= chars@.len(),
            out@ == chars@.take(i as int),
        decreases chars@.len() - i,
    {
        push_char(&mut out, chars[i]);
        assert(chars@.take(i + 1) =~= chars@.take(i as int).push(chars@[i as int]));
        i += 1;
    }
    assert(chars@.take(i as int) =~= chars@);
    out
}

/// Whether two texts hold the same characters.
pub fn same_text(left: &str, right: &str) -> (same: bool)
    ensures
        same == (left@ == right@),
{
    let left_chars = chars_of(left);
    let right_chars = chars_of(right);
    if left_chars.len() != right_chars.len() {
        return false;
    }
    let mut i: usize = 0;
    while i < left_chars.len()
        invariant
            left_chars@ == left@,
            right_chars@ == right@,
            left_chars@.len() == right_chars@.len(),
            i <= left_chars@.len(),
            left@.take(i as int) == right@.take(i as int),
        decreases left_chars@.len() - i,
    {
        if left_chars[i] != right_chars[i] {
            assert(left@[i as int] != right@[i as int]);
            return false;
        }
        assert(left@.take(i + 1) =~= left@.take(i as int).push(left@[i as int]));
        assert(right@.take(i + 1) =~= right@.take(i as int).push(right@[i as int]));
        i += 1;
    }
    assert(left@.take(i as int) =~= left@);
    assert(right@.take(i as int) =~= right@);
    true
}

/// Whether an optional text holds exactly the expected characters.
pub fn is_text(actual: Option<&str>, expected: &str) -> (same: bool)
    ensures
        same == (opt_str(actual) == Some(expected@)),
{
    match actual {
        Some(value) => same_text(value, expected),
        None => false,
    }
}

/// One line without its `\r`, when the line break was `\r\n`.
pub open spec fn without_carriage_return(line: Seq<char>) -> Seq<char> {
    if line.len() > 0 && line.last() == '\r' {
        line.drop_last()
    } else {
        line
    }
}

/// The lines still to come when `current` holds the characters of the line
/// being read and `rest` what follows them.
pub open spec fn lines_from(current: Seq<char>, rest: Seq<char>) -> Seq<Seq<char>>
    decreases rest.len(),
{
    if rest.len() == 0 {
        if current.len() == 0 {
            seq![]
        } else {
            seq![current]
        }
    } else if rest[0] == '\n' {
        seq![without_carriage_return(current)] + lines_from(seq![], rest.drop_first())
    } else {
        lines_from(current.push(rest[0]), rest.drop_first())
    }
}

/// The lines of a text: a line ends at `\n` or `\r\n`, and a last line without
/// a line break counts when it holds anything.
pub open spec fn lines_of(text: Seq<char>) -> Seq<Seq<char>> {
    lines_from(seq![], text)
}

/// Splits a text into its lines.
pub fn split_lines(text: &str) -> (lines: Vec<String>)
    ensures
        texts(lines@) == lines_of(text@),
{
    let chars = chars_of(text);
    let mut lines: Vec<String> = Vec::new();
    let mut current: Vec<char> = Vec::new();
    let mut i: usize = 0;
    assert(chars@.skip(0) =~= chars@);
    assert(texts(lines@) =~= seq![]);
    assert(lines_of(text@) =~= texts(lines@) + lines_from(current@, chars@.skip(0)));
    while i < chars.len()
        invariant
            chars@ == text@,
            i <= chars@.len(),
            lines_of(text@) == texts(lines@) + lines_from(current@, chars@.skip(i as int)),
        decreases chars@.len() - i,
    {
        let ghost rest = chars@.skip(i as int);
        let ghost before = texts(lines@);
        assert(rest[0] == chars@[i as int]);
        assert(rest.drop_first() =~= chars@.skip(i + 1));
        if chars[i] == '\n' {
            let ghost line = current@;
            if current.len() > 0 && current[current.len() - 1] == '\r' {
                current.pop();
            }
            assert(current@ =~= without_carriage_return(line));
            lines.push(text_of(current.as_slice()));
            current = Vec::new();
            assert(texts(lines@) =~= before + seq![without_carriage_return(line)]);
            assert(before + (seq![without_carriage_return(line)] + lines_from(
                seq![],
                rest.drop_first(),
            )) =~= texts(lines@) + lines_from(seq![], rest.drop_first()));
            assert(current@ =~= seq![]);
        } else {
            current.push(chars[i]);
        }
        i += 1;
    }
    assert(chars@.skip(i as int) =~= seq![]);
    let ghost before = texts(lines@);
    if current.len() > 0 {
        lines.push(text_of(current.as_slice()));
        assert(texts(lines@) =~= before + seq![current@]);
    } else {
        assert(texts(lines@) =~= before + seq![]);
    }
    lines
}

/// The characters with the Unicode `White_Space` property.
pub open spec fn white(c: char) -> bool {
    ||| '\u{9}' <= c <= '\u{d}'
    ||| c == '\u{20}'
    ||| c == '\u{85}'
    ||| c == '\u{a0}'
    ||| c == '\u{1680}'
    ||| '\u{2000}' <= c <= '\u{200a}'
    ||| c == '\u{2028}'
    ||| c == '\u{2029}'
    ||| c == '\u{202f}'
    ||| c == '\u{205f}'
    ||| c == '\u{3000}'
}

/// Whether a character is white space.
pub fn is_white(c: char) -> (yes: bool)
    ensures
        yes == white(c),
{
    ('\u{9}' <= c && c <= '\u{d}') || c == '\u{20}' || c == '\u{85}' || c == '\u{a0}'
        || c == '\u{1680}' || ('\u{2000}' <= c && c <= '\u{200a}') || c == '\u{2028}'
        || c == '\u{2029}' || c == '\u{202f}' || c == '\u{205f}' || c == '\u{3000}'
}

/// The text without leading white space.
pub open spec fn trimmed_start(text: Seq<char>) -> Seq<char>
    decreases text.len(),
{
    if text.len() > 0 && white(text[0]) {
        trimmed_start(text.drop_first())
    } else {
        text
    }
}

/// The text without trailing white space.
pub open spec fn trimmed_end(text: Seq<char>) -> Seq<char>
    decreases text.len(),
{
    if text.len() > 0 && white(text.last()) {
        trimmed_end(text.drop_last())
    } else {
        text
    }
}

/// The text without white space at either end.
pub open spec fn trimmed(text: Seq<char>) -> Seq<char> {
    trimmed_end(trimmed_start(text))
}

/// Removes white space at both ends.
pub fn trim_text(text: &str) -> (out: String)
    ensures
        out@ == trimmed(text@),
{
    let chars = chars_of(text);
    let mut from: usize = 0;
    assert(chars@.skip(0) =~= chars@);
    while from < chars.len() && is_white(chars[from])
        invariant
            chars@ == text@,
            from <= chars@.len(),
            trimmed_start(text@) == trimmed_start(chars@.skip(from as int)),
        decreases chars@.len() - from,
    {
        assert(chars@.skip(from as int).drop_first() =~= chars@.skip(from + 1));
        from += 1;
    }
    assert(trimmed_start(text@) =~= chars@.skip(from as int));
    let mut to: usize = chars.len();
    assert(chars@.subrange(from as int, to as int) =~= chars@.skip(from as int));
    while from < to && is_white(chars[to - 1])
        invariant
            chars@ == text@,
            from <= to <= chars@.len(),
            trimmed(text@) == trimmed_end(chars@.subrange(from as int, to as int)),
        decreases to,
    {
        assert(chars@.subrange(from as int, to as int).drop_last() =~= chars@.subrange(
            from as int,
            to - 1,
        ));
        to -= 1;
    }
    let out = text_of(vstd::slice::slice_subrange(chars.as_slice(), from, to));
    assert(trimmed(text@) =~= chars@.subrange(from as int, to as int));
    out
}

/// The lower-case form of an ASCII letter; every other character as it is.
pub open spec fn lower(c: char) -> char {
    if 'A' <= c <= 'Z' {
        ((c as u32 + 32) as u32) as char
    } else {
        c
    }
}

/// The ASCII lower-case form of a text.
pub open spec fn lowered(text: Seq<char>) -> Seq<char> {
    text.map_values(|c: char| lower(c))
}

/// Lowers an ASCII letter.
pub fn lower_char(c: char) -> (out: char)
    ensures
        out == lower(c),
{
    if 'A' <= c && c <= 'Z' {
        (c as u8 + 32) as char
    } else {
        c
    }
}

/// Lowers every ASCII letter of a text.
pub fn lower_text(text: &str) -> (out: String)
    ensures
        out@ == lowered(text@),
{
    let chars = chars_of(text);
    let mut out = String::new();
    let mut i: usize = 0;
    while i < chars.len()
        invariant
            chars@ == text@,
            i <= chars@.len(),
            out@ == lowered(text@.take(i as int)),
        decreases chars@.len() - i,
    {
        push_char(&mut out, lower_char(chars[i]));
        assert(out@ =~= lowered(text@.take(i + 1)));
        i += 1;
    }
    assert(text@.take(i as int) =~= text@);
    out
}

/// Whether two texts are equal up to the case of ASCII letters.
pub fn same_ignoring_case(left: &str, right: &str) -> (same: bool)
    ensures
        same == (lowered(left@) == lowered(right@)),
{
    same_text(lower_text(left).as_str(), lower_text(right).as_str())
}

/// The lower-case form of a text by Unicode's rules.
pub uninterp spec fn unicode_lower(text: Seq<char>) -> Seq<char>;

/// Lowers a text by Unicode's rules.
///
/// `str::to_lowercase` maps each character to its Unicode lower-case form, which
/// the text alone decides; the result is given a name.
#[verifier::external_body]
pub(crate) fn unicode_lower_text(text: &str) -> (out: String)
    ensures
        out@ == unicode_lower(text@),
{
    text.to_lowercase()
}

/// Whether `part` occurs in `text` at position `at`.
pub open spec fn occurs_at(text: Seq<char>, part: Seq<char>, at: int) -> bool {
    0 <= at && at + part.len() <= text.len() && text.subrange(at, at + part.len()) == part
}

/// Whether `part` occurs anywhere in `text`.
pub open spec fn occurs(text: Seq<char>, part: Seq<char>) -> bool {
    exists|at: int| occurs_at(text, part, at)
}

/// A text occurs where it was put.
pub proof fn lemma_occurs_between(before: Seq<char>, part: Seq<char>, after: Seq<char>)
    ensures
        occurs(before + part + after, part),
{
    let whole = before + part + after;
    let at = before.len() as int;
    assert(whole.subrange(at, at + part.len()) =~= part);
    assert(occurs_at(whole, part, at));
}

/// Whether `text` begins with `part`.
pub open spec fn begins(text: Seq<char>, part: Seq<char>) -> bool {
    occurs_at(text, part, 0)
}

fn found_at(text: &Vec<char>, part: &Vec<char>, at: usize) -> (found: bool)
    requires
        at + part@.len() <= text@.len(),
    ensures
        found == occurs_at(text@, part@, at as int),
{
    let total: usize = text.len();
    let mut i: usize = 0;
    while i < part.len()
        invariant
            total == text@.len(),
            at + part@.len() <= total,
            i <= part@.len(),
            forall|k: int| 0 <= k < i ==> text@[at + k] == part@[k],
        decreases part@.len() - i,
    {
        if text[at + i] != part[i] {
            assert(text@.subrange(at as int, at + part@.len())[i as int] != part@[i as int]);
            return false;
        }
        i += 1;
    }
    assert(text@.subrange(at as int, at + part@.len()) =~= part@);
    true
}

/// Whether a text contains another.
pub fn contains_text(text: &str, part: &str) -> (found: bool)
    ensures
        found == occurs(text@, part@),
{
    let text_chars = chars_of(text);
    let part_chars = chars_of(part);
    if part_chars.len() > text_chars.len() {
        return false;
    }
    let last: usize = text_chars.len() - part_chars.len();
    let mut at: usize = 0;
    while at <= last
        invariant
            text_chars@ == text@,
            part_chars@ == part@,
            last + part@.len() == text@.len(),
            at <= last + 1,
            forall|k: int| 0 <= k < at ==> !occurs_at(text@, part@, k),
        decreases last + 1 - at,
    {
        if found_at(&text_chars, &part_chars, at) {
            return true;
        }
        if at == last {
            return false;
        }
        at += 1;
    }
    false
}

/// Whether a text begins with another.
pub fn begins_with(text: &str, part: &str) -> (found: bool)
    ensures
        found == begins(text@, part@),
{
    let text_chars = chars_of(text);
    let part_chars = chars_of(part);
    part_chars.len() <= text_chars.len() && found_at(&text_chars, &part_chars, 0)
}

/// The decimal digit for a number below ten.
pub open spec fn digit(value: nat) -> char {
    if value == 0 {
        '0'
    } else if value == 1 {
        '1'
    } else if value == 2 {
        '2'
    } else if value == 3 {
        '3'
    } else if value == 4 {
        '4'
    } else if value == 5 {
        '5'
    } else if value == 6 {
        '6'
    } else if value == 7 {
        '7'
    } else if value == 8 {
        '8'
    } else {
        '9'
    }
}

/// The decimal digit for a number below ten.
pub fn digit_char(value: u64) -> (c: char)
    requires
        value < 10,
    ensures
        c == digit(value as nat),
{
    match value {
        0 => '0',
        1 => '1',
        2 => '2',
        3 => '3',
        4 => '4',
        5 => '5',
        6 => '6',
        7 => '7',
        8 => '8',
        _ => '9',
    }
}

/// The decimal form of a number, without leading zeros.
pub open spec fn decimal(value: nat) -> Seq<char>
    decreases value,
{
    if value < 10 {
        seq![digit(value)]
    } else {
        decimal(value / 10).push(digit(value % 10))
    }
}

/// Renders a number in decimal.
pub fn decimal_text(value: u64) -> (out: String)
    ensures
        out@ == decimal(value as nat),
    decreases value,
{
    if value < 10 {
        let mut out = String::new();
        push_char(&mut out, digit_char(value));
        assert(out@ =~= decimal(value as nat));
        out
    } else {
        let mut out = decimal_text(value / 10);
        push_char(&mut out, digit_char(value % 10));
        out
    }
}

/// Texts one after the other, with a separator between each two.
pub open spec fn joined(parts: Seq<Seq<char>>, separator: Seq<char>) -> Seq<char>
    decreases parts.len(),
{
    if parts.len() == 0 {
        seq![]
    } else if parts.len() == 1 {
        parts[0]
    } else {
        joined(parts.drop_last(), separator) + separator + parts.last()
    }
}

/// Joins texts, with a separator between each two.
pub fn join_texts(parts: &Vec<String>, separator: &str) -> (out: String)
    ensures
        out@ == joined(texts(parts@), separator@),
{
    let mut out = String::new();
    let mut i: usize = 0;
    let ghost all = texts(parts@);
    assert(all.take(0) =~= seq![]);
    while i < parts.len()
        invariant
            all == texts(parts@),
            i <= parts@.len(),
            out@ == joined(all.take(i as int), separator@),
        decreases parts@.len() - i,
    {
        proof {
            let taken = all.take(i + 1);
            assert(taken.drop_last() =~= all.take(i as int));
            assert(taken.last() == parts@[i as int]@);
        }
        if i > 0 {
            out.append(separator);
        }
        out.append(parts[i].as_str());
        assert(out@ =~= joined(all.take(i + 1), separator@));
        i += 1;
    }
    assert(all.take(i as int) =~= all);
    out
}

/// The words still to come when `current` holds the characters of the word being
/// read and `rest` what follows them.
pub open spec fn words_from(current: Seq<char>, rest: Seq<char>) -> Seq<Seq<char>>
    decreases rest.len(),
{
    if rest.len() == 0 {
        if current.len() == 0 {
            seq![]
        } else {
            seq![current]
        }
    } else if white(rest[0]) {
        if current.len() == 0 {
            words_from(seq![], rest.drop_first())
        } else {
            seq![current] + words_from(seq![], rest.drop_first())
        }
    } else {
        words_from(current.push(rest[0]), rest.drop_first())
    }
}

/// The words of a text: what stands between white space.
pub open spec fn words_of(text: Seq<char>) -> Seq<Seq<char>> {
    words_from(seq![], text)
}

/// Splits a text into its words.
pub fn split_words(text: &str) -> (words: Vec<String>)
    ensures
        texts(words@) == words_of(text@),
{
    let chars = chars_of(text);
    let mut words: Vec<String> = Vec::new();
    let mut current: Vec<char> = Vec::new();
    let mut i: usize = 0;
    assert(chars@.skip(0) =~= chars@);
    assert(texts(words@) =~= seq![]);
    assert(words_of(text@) =~= texts(words@) + words_from(current@, chars@.skip(0)));
    while i < chars.len()
        invariant
            chars@ == text@,
            i <= chars@.len(),
            words_of(text@) == texts(words@) + words_from(current@, chars@.skip(i as int)),
        decreases chars@.len() - i,
    {
        let ghost rest = chars@.skip(i as int);
        let ghost before = texts(words@);
        assert(rest[0] == chars@[i as int]);
        assert(rest.drop_first() =~= chars@.skip(i + 1));
        if is_white(chars[i]) {
            if current.len() > 0 {
                words.push(text_of(current.as_slice()));
                assert(texts(words@) =~= before + seq![current@]);
                assert(before + (seq![current@] + words_from(seq![], rest.drop_first()))
                    =~= texts(words@) + words_from(seq![], rest.drop_first()));
                current = Vec::new();
            }
            assert(current@ =~= seq![]);
        } else {
            current.push(chars[i]);
        }
        i += 1;
    }
    assert(chars@.skip(i as int) =~= seq![]);
    let ghost before = texts(words@);
    if current.len() > 0 {
        words.push(text_of(current.as_slice()));
        assert(texts(words@) =~= before + seq![current@]);
    } else {
        assert(texts(words@) =~= before + seq![]);
    }
    words
}

/// Whether a text stands before another in the order of their characters.
pub open spec fn stands_before(left: Seq<char>, right: Seq<char>) -> bool
    decreases left.len(),
{
    if right.len() == 0 {
        false
    } else if left.len() == 0 {
        true
    } else if left[0] != right[0] {
        left[0] < right[0]
    } else {
        stands_before(left.drop_first(), right.drop_first())
    }
}

/// Whether a text stands before another in the order of their characters.
pub fn is_before(left: &str, right: &str) -> (yes: bool)
    ensures
        yes == stands_before(left@, right@),
{
    let left_chars = chars_of(left);
    let right_chars = chars_of(right);
    let mut i: usize = 0;
    assert(left_chars@.skip(0) =~= left@);
    assert(right_chars@.skip(0) =~= right@);
    while i < left_chars.len() && i < right_chars.len()
        invariant
            left_chars@ == left@,
            right_chars@ == right@,
            i <= left_chars@.len(),
            i <= right_chars@.len(),
            stands_before(left@, right@) == stands_before(
                left_chars@.skip(i as int),
                right_chars@.skip(i as int),
            ),
        decreases left_chars@.len() - i,
    {
        assert(left_chars@.skip(i as int).drop_first() =~= left_chars@.skip(i + 1));
        assert(right_chars@.skip(i as int).drop_first() =~= right_chars@.skip(i + 1));
        if left_chars[i] != right_chars[i] {
            return left_chars[i] < right_chars[i];
        }
        i += 1;
    }
    i < right_chars.len()
}

/// The order of texts is strict: of two different texts one stands before the
/// other, none before itself, and the order carries over.
pub proof fn lemma_text_order(a: Seq<char>, b: Seq<char>, c: Seq<char>)
    ensures
        !stands_before(a, a),
        stands_before(a, b) ==> !stands_before(b, a),
        a != b ==> stands_before(a, b) || stands_before(b, a),
        stands_before(a, b) && stands_before(b, c) ==> stands_before(a, c),
    decreases a.len() + b.len() + c.len(),
{
    if a.len() > 0 {
        lemma_text_order(
            a.drop_first(),
            if b.len() > 0 {
                b.drop_first()
            } else {
                b
            },
            if c.len() > 0 {
                c.drop_first()
            } else {
                c
            },
        );
        if a != b && b.len() > 0 && a[0] == b[0] {
            if a.drop_first() == b.drop_first() {
                assert(a =~= seq![a[0]] + a.drop_first());
                assert(b =~= seq![b[0]] + b.drop_first());
            }
        }
    } else if b.len() == 0 {
        assert(a =~= b);
    }
}

/// Trimming takes away the white space at both ends, and nothing else: what is left
/// stands in the text, only white space stands before and after it, and it neither begins
/// nor ends with any.
pub proof fn law_trimming_takes_the_white_space_at_the_ends(text: Seq<char>)
    ensures
        exists|from: int, to: int|
            #![trigger text.subrange(from, to)]
            0 <= from <= to <= text.len() && trimmed(text) == text.subrange(from, to) && (forall|
                i: int,
            |
                0 <= i < from ==> white(#[trigger] text[i])) && (forall|i: int|
                to <= i < text.len() ==> white(#[trigger] text[i])),
        trimmed(text).len() > 0 ==> !white(trimmed(text)[0]) && !white(trimmed(text).last()),
{
    lemma_trimmed_start(text);
    let from = text.len() - trimmed_start(text).len();
    let rest = trimmed_start(text);
    lemma_trimmed_end(rest);
    let to = from + trimmed_end(rest).len();
    assert(trimmed(text) =~= text.subrange(from, to));
    assert forall|i: int| to <= i < text.len() implies white(#[trigger] text[i]) by {
        assert(rest[i - from] == text[i]);
    }
    if trimmed(text).len() > 0 {
        assert(trimmed(text)[0] == rest[0]);
    }
}

proof fn lemma_trimmed_start(text: Seq<char>)
    ensures
        trimmed_start(text).len() <= text.len(),
        trimmed_start(text) == text.skip(text.len() - trimmed_start(text).len()),
        forall|i: int|
            0 <= i < text.len() - trimmed_start(text).len() ==> white(#[trigger] text[i]),
        trimmed_start(text).len() > 0 ==> !white(trimmed_start(text)[0]),
    decreases text.len(),
{
    if text.len() > 0 && white(text[0]) {
        let rest = text.drop_first();
        lemma_trimmed_start(rest);
        let left = trimmed_start(rest).len();
        assert(rest.skip(rest.len() - left) =~= text.skip(text.len() - left));
        assert forall|i: int| 0 <= i < text.len() - left implies white(#[trigger] text[i]) by {
            if i > 0 {
                assert(text[i] == rest[i - 1]);
            }
        }
    } else {
        assert(text.skip(0) =~= text);
    }
}

proof fn lemma_trimmed_end(text: Seq<char>)
    ensures
        trimmed_end(text).len() <= text.len(),
        trimmed_end(text) == text.take(trimmed_end(text).len() as int),
        forall|i: int| trimmed_end(text).len() <= i < text.len() ==> white(#[trigger] text[i]),
        trimmed_end(text).len() > 0 ==> !white(trimmed_end(text).last()),
    decreases text.len(),
{
    if text.len() > 0 && white(text.last()) {
        let rest = text.drop_last();
        lemma_trimmed_end(rest);
        let left = trimmed_end(rest).len();
        assert(rest.take(left as int) =~= text.take(left as int));
        assert forall|i: int| left <= i < text.len() implies white(#[trigger] text[i]) by {
            if i < rest.len() {
                assert(text[i] == rest[i]);
            }
        }
    } else {
        assert(text.take(text.len() as int) =~= text);
    }
}

/// A text without a line break is one line, unless it is empty; a text with one is the
/// line before it, without a carriage return at its end, and then the lines of the rest.
pub proof fn law_lines_end_at_line_breaks(line: Seq<char>, rest: Seq<char>)
    requires
        !line.contains('\n'),
    ensures
        lines_of(seq![]).len() == 0,
        line.len() > 0 ==> lines_of(line) == seq![line],
        lines_of(line + seq!['\n'] + rest) == seq![
            if line.len() > 0 && line.last() == '\r' {
                line.drop_last()
            } else {
                line
            },
        ] + lines_of(rest),
{
    lemma_line_read(seq![], line, seq![]);
    lemma_line_read(seq![], line, seq!['\n'] + rest);
    assert(line + Seq::<char>::empty() =~= line);
    assert(Seq::<char>::empty() + line =~= line);
    assert(line + seq!['\n'] + rest =~= line + (seq!['\n'] + rest));
    assert((seq!['\n'] + rest).drop_first() =~= rest);
}

proof fn lemma_line_read(current: Seq<char>, line: Seq<char>, rest: Seq<char>)
    requires
        !line.contains('\n'),
    ensures
        lines_from(current, line + rest) == lines_from(current + line, rest),
    decreases line.len(),
{
    if line.len() == 0 {
        assert(line + rest =~= rest);
        assert(current + line =~= current);
    } else {
        let tail = line.drop_first();
        assert(line.contains(line[0]));
        assert(!tail.contains('\n')) by {
            if tail.contains('\n') {
                let i = choose|i: int| 0 <= i < tail.len() && tail[i] == '\n';
                assert(line[i + 1] == '\n');
            }
        }
        lemma_line_read(current.push(line[0]), tail, rest);
        assert((line + rest).drop_first() =~= tail + rest);
        assert(current.push(line[0]) + tail =~= current + line);
    }
}

/// The number that decimal digits stand for.
pub open spec fn number_of(digits: Seq<char>) -> nat
    decreases digits.len(),
{
    if digits.len() == 0 {
        0
    } else {
        (10 * number_of(digits.drop_last()) + (digits.last() as u32 - '0' as u32)) as nat
    }
}

/// A number is written in decimal digits that stand for it, without a leading zero.
pub proof fn law_decimal_reads_back(value: nat)
    ensures
        number_of(decimal(value)) == value,
        decimal(value).len() > 0,
        forall|i: int| 0 <= i < decimal(value).len() ==> '0' <= #[trigger] decimal(value)[i] <= '9',
        value > 0 ==> decimal(value)[0] != '0',
        value == 0 ==> decimal(value) == seq!['0'],
    decreases value,
{
    if value < 10 {
        assert(decimal(value).drop_last() =~= seq![]);
        assert(number_of(seq![]) == 0);
    } else {
        law_decimal_reads_back(value / 10);
        assert(decimal(value).drop_last() =~= decimal(value / 10));
        assert forall|i: int| 0 <= i < decimal(value).len() implies '0' <= #[trigger] decimal(
            value,
        )[i] <= '9' by {
            if i < decimal(value / 10).len() {
                assert(decimal(value)[i] == decimal(value / 10)[i]);
            }
        }
        assert(decimal(value)[0] == decimal(value / 10)[0]);
    }
}

/// Joined parts stand one after the other with the separator between each two: one part
/// stands alone, and two lists are joined by a separator.
pub proof fn law_joining_keeps_every_part(
    left: Seq<Seq<char>>,
    right: Seq<Seq<char>>,
    part: Seq<char>,
    separator: Seq<char>,
)
    requires
        left.len() > 0,
        right.len() > 0,
    ensures
        joined(seq![], separator).len() == 0,
        joined(seq![part], separator) == part,
        joined(left + right, separator) == joined(left, separator) + separator + joined(
            right,
            separator,
        ),
    decreases right.len(),
{
    if right.len() == 1 {
        assert((left + right).drop_last() =~= left);
        assert((left + right).last() == right[0]);
    } else {
        law_joining_keeps_every_part(left, right.drop_last(), part, separator);
        assert((left + right).drop_last() =~= left + right.drop_last());
        assert((left + right).last() == right.last());
        assert(joined(left + right, separator) =~= joined(left, separator) + separator + joined(
            right,
            separator,
        ));
    }
}

/// Lowering a text lowers each of its letters from A to Z and leaves every other
/// character.
pub proof fn law_lowering_goes_by_characters(text: Seq<char>, at: int)
    requires
        0 <= at < text.len(),
    ensures
        lowered(text).len() == text.len(),
        'A' <= text[at] <= 'Z' ==> lowered(text)[at] as u32 == text[at] as u32 + 32,
        !('A' <= text[at] <= 'Z') ==> lowered(text)[at] == text[at],
        lowered(lowered(text)) == lowered(text),
{
    assert forall|i: int| 0 <= i < text.len() implies lowered(lowered(text))[i] == #[trigger] lowered(
        text,
    )[i] by {
        let c = text[i];
        if 'A' <= c <= 'Z' {
            assert(lower(c) as u32 == c as u32 + 32);
        }
    }
    assert(lowered(lowered(text)) =~= lowered(text));
}

/// The words of a text are what stands between white space: a text without any is one
/// word, unless it is empty, and white space parts the words before it from those after.
pub proof fn law_words_are_parted_by_white_space(left: Seq<char>, space: char, right: Seq<char>)
    requires
        white(space),
    ensures
        words_of(seq![]).len() == 0,
        left.len() > 0 && (forall|i: int| 0 <= i < left.len() ==> !white(#[trigger] left[i]))
            ==> words_of(left) == seq![left],
        words_of(left + seq![space] + right) == words_of(left) + words_of(right),
{
    lemma_words_split(seq![], left, space, right);
    if forall|i: int| 0 <= i < left.len() ==> !white(#[trigger] left[i]) {
        lemma_word_read(seq![], left);
        assert(Seq::<char>::empty() + left =~= left);
    }
}

proof fn lemma_word_read(current: Seq<char>, word: Seq<char>)
    requires
        forall|i: int| 0 <= i < word.len() ==> !white(#[trigger] word[i]),
    ensures
        words_from(current, word) == words_from(current + word, seq![]),
    decreases word.len(),
{
    if word.len() == 0 {
        assert(current + word =~= current);
        assert(word =~= seq![]);
    } else {
        let tail = word.drop_first();
        assert forall|i: int| 0 <= i < tail.len() implies !white(#[trigger] tail[i]) by {
            assert(tail[i] == word[i + 1]);
        }
        lemma_word_read(current.push(word[0]), tail);
        assert(current.push(word[0]) + tail =~= current + word);
    }
}

proof fn lemma_words_split(current: Seq<char>, left: Seq<char>, space: char, right: Seq<char>)
    requires
        white(space),
    ensures
        words_from(current, left + seq![space] + right) == words_from(current, left) + words_of(
            right,
        ),
    decreases left.len(),
{
    let whole = left + seq![space] + right;
    if left.len() == 0 {
        assert(whole.drop_first() =~= right);
        assert(whole[0] == space);
        if current.len() == 0 {
            assert(words_from(current, left) + words_of(right) =~= words_of(right));
        }
    } else {
        let tail = left.drop_first();
        assert(whole.drop_first() =~= tail + seq![space] + right);
        assert(whole[0] == left[0]);
        if white(left[0]) {
            lemma_words_split(seq![], tail, space, right);
            if current.len() > 0 {
                assert(words_from(current, whole) =~= words_from(current, left) + words_of(right));
            }
        } else {
            lemma_words_split(current.push(left[0]), tail, space, right);
        }
    }
}

/// A text stands before another exactly if it is a beginning of it that is shorter, or
/// has the lesser character where they first differ.
pub proof fn law_texts_are_ordered_by_characters(left: Seq<char>, right: Seq<char>)
    ensures
        stands_before(left, right) <==> exists|k: int|
            #![trigger left.take(k)]
            0 <= k <= left.len() && k < right.len() && left.take(k) == right.take(k) && (k
                == left.len() || left[k] < right[k]),
    decreases left.len(),
{
    if right.len() == 0 {
    } else if left.len() == 0 {
        assert(left.take(0) =~= right.take(0));
    } else if left[0] != right[0] {
        assert(left.take(0) =~= right.take(0));
        if exists|k: int|
            #![trigger left.take(k)]
            0 <= k <= left.len() && k < right.len() && left.take(k) == right.take(k) && (k
                == left.len() || left[k] < right[k]) {
            let k = choose|k: int|
                #![trigger left.take(k)]
                0 <= k <= left.len() && k < right.len() && left.take(k) == right.take(k) && (k
                    == left.len() || left[k] < right[k]);
            if k > 0 {
                assert(left.take(k)[0] == right.take(k)[0]);
            }
        }
    } else {
        let a = left.drop_first();
        let b = right.drop_first();
        law_texts_are_ordered_by_characters(a, b);
        if stands_before(a, b) {
            let k = choose|k: int|
                #![trigger a.take(k)]
                0 <= k <= a.len() && k < b.len() && a.take(k) == b.take(k) && (k == a.len() || a[k]
                    < b[k]);
            let longer = left.take(k + 1);
            assert forall|i: int| 0 <= i < k + 1 implies #[trigger] longer[i] == right.take(
                k + 1,
            )[i] by {
                if i > 0 {
                    assert(a.take(k)[i - 1] == b.take(k)[i - 1]);
                }
            }
            assert(left.take(k + 1) =~= right.take(k + 1));
        }
        if exists|k: int|
            #![trigger left.take(k)]
            0 <= k <= left.len() && k < right.len() && left.take(k) == right.take(k) && (k
                == left.len() || left[k] < right[k]) {
            let k = choose|k: int|
                #![trigger left.take(k)]
                0 <= k <= left.len() && k < right.len() && left.take(k) == right.take(k) && (k
                    == left.len() || left[k] < right[k]);
            assert(k > 0);
            let shorter = a.take(k - 1);
            assert forall|i: int| 0 <= i < k - 1 implies #[trigger] shorter[i] == b.take(k - 1)[i] by {
                assert(left.take(k)[i + 1] == right.take(k)[i + 1]);
            }
            assert(a.take(k - 1) =~= b.take(k - 1));
        }
    }
}

/// A text occurs at the end of what it was put behind.
pub proof fn lemma_occurs_behind(before: Seq<char>, part: Seq<char>)
    ensures
        occurs(before + part, part),
{
    lemma_occurs_between(before, part, seq![]);
    assert(before + part + seq![] =~= before + part);
}

/// What occurs in a text occurs in a longer one that begins with it.
pub proof fn lemma_occurs_further(text: Seq<char>, part: Seq<char>, after: Seq<char>)
    requires
        occurs(text, part),
    ensures
        occurs(text + after, part),
{
    let at = choose|at: int| occurs_at(text, part, at);
    assert((text + after).subrange(at, at + part.len()) =~= text.subrange(at, at + part.len()));
    assert(occurs_at(text + after, part, at));
}

/// Two texts occur where they were put, the one after the other.
pub proof fn lemma_both_occur(
    before: Seq<char>,
    one: Seq<char>,
    between: Seq<char>,
    other: Seq<char>,
)
    ensures
        occurs(before + one + between + other, one),
        occurs(before + one + between + other, other),
{
    lemma_occurs_behind(before, one);
    lemma_occurs_further(before + one, one, between);
    lemma_occurs_further(before + one + between, one, other);
    lemma_occurs_behind(before + one + between, other);
}

/// White space is what Unicode calls so: the five controls from the tab to the carriage
/// return, the next line, and the spaces and separators.
pub proof fn law_white_space(c: char)
    ensures
        white(c) <==> {
            let code = c as u32;
            ||| code == 0x9 || code == 0xa || code == 0xb || code == 0xc || code == 0xd
            ||| code == 0x20 || code == 0x85 || code == 0xa0 || code == 0x1680
            ||| 0x2000 <= code < 0x200b
            ||| code == 0x2028 || code == 0x2029 || code == 0x202f || code == 0x205f || code
                == 0x3000
        },
{
}

} // verus!
