//! Text as sequences of characters: the vocabulary that the contracts of this crate use for
//! strings, and the executable functions that match it.

use vstd::prelude::*;
use vstd::utf8::encode_utf8;

verus! {

/// `String::push` appends one character at the end.
pub assume_specification[ String::push ](buffer: &mut String, c: char)
    ensures
        final(buffer)@ == old(buffer)@.push(c),
;

/// What `{:?}` writes for a string: quoted, with `std`'s debug escapes.
pub uninterp spec fn str_debug(text: Seq<char>) -> Seq<char>;

/// What `{:?}` writes for a character.
pub uninterp spec fn char_debug(c: char) -> Seq<char>;

/// `format!("{text:?}")`, the debug form of a string slice. It depends on the text alone; the
/// escapes themselves are left to `str_debug`.
#[verifier::external_body]
pub(crate) fn debug_str(text: &str) -> (res: String)
    ensures
        res@ == str_debug(text@),
{
    format!("{text:?}")
}

/// `format!("{c:?}")`, the debug form of a character. It depends on the character alone.
#[verifier::external_body]
pub(crate) fn debug_char(c: char) -> (res: String)
    ensures
        res@ == char_debug(c),
{
    format!("{c:?}")
}

/// The characters with the Unicode `White_Space` property.
pub open spec fn is_whitespace(c: char) -> bool {
    ||| '\u{9}' <= c <= '\u{d}'
    ||| c == ' '
    ||| c == '\u{85}'
    ||| c == '\u{a0}'
    ||| c == '\u{1680}'
    ||| '\u{2000}' <= c <= '\u{200a}'
    ||| c == '\u{2028}'
    ||| c == '\u{2029}'
    ||| c == '\u{202f}'
    ||| c == '\u{205f}'
    ||| c == '\u{3000}'
}

/// Whether a character is white space.
pub fn char_is_whitespace(c: char) -> (res: bool)
    ensures
        res == is_whitespace(c),
{
    ('\u{9}' <= c && c <= '\u{d}') || c == ' ' || c == '\u{85}' || c == '\u{a0}' || c == '\u{1680}'
        || ('\u{2000}' <= c && c <= '\u{200a}') || c == '\u{2028}' || c == '\u{2029}' || c
        == '\u{202f}' || c == '\u{205f}' || c == '\u{3000}'
}

pub open spec fn is_ascii_digit(c: char) -> bool {
    '0' <= c <= '9'
}

pub open spec fn is_ascii_alphabetic(c: char) -> bool {
    'a' <= c <= 'z' || 'A' <= c <= 'Z'
}

pub open spec fn is_ascii_alphanumeric(c: char) -> bool {
    is_ascii_alphabetic(c) || is_ascii_digit(c)
}

pub fn char_is_ascii_digit(c: char) -> (res: bool)
    ensures
        res == is_ascii_digit(c),
{
    '0' <= c && c <= '9'
}

pub fn char_is_ascii_alphabetic(c: char) -> (res: bool)
    ensures
        res == is_ascii_alphabetic(c),
{
    ('a' <= c && c <= 'z') || ('A' <= c && c <= 'Z')
}

/// `text` without its leading white space.
pub open spec fn trim_start(text: Seq<char>) -> Seq<char>
    decreases text.len(),
{
    if text.len() > 0 && is_whitespace(text[0]) {
        trim_start(text.skip(1))
    } else {
        text
    }
}

/// `text` without its trailing white space.
pub open spec fn trim_end(text: Seq<char>) -> Seq<char>
    decreases text.len(),
{
    if text.len() > 0 && is_whitespace(text.last()) {
        trim_end(text.drop_last())
    } else {
        text
    }
}

/// `text` without white space at either end.
pub open spec fn trim(text: Seq<char>) -> Seq<char> {
    trim_end(trim_start(text))
}

/// `part` occurs in `text` at index `at`.
pub open spec fn occurs_at(text: Seq<char>, part: Seq<char>, at: int) -> bool {
    0 <= at && at + part.len() <= text.len() && text.subrange(at, at + part.len()) == part
}

/// The first index from `from` on at which `part` occurs in `text`.
pub open spec fn find_from(text: Seq<char>, part: Seq<char>, from: int) -> Option<int>
    decreases text.len() + 1 - from,
{
    if from < 0 || from + part.len() > text.len() {
        None
    } else if occurs_at(text, part, from) {
        Some(from)
    } else {
        find_from(text, part, from + 1)
    }
}

/// The number of bytes that `text` takes in UTF-8.
pub open spec fn byte_length(text: Seq<char>) -> nat {
    encode_utf8(text).len()
}

/// An ASCII capital as its small letter; any other character as it is.
pub open spec fn ascii_lower(c: char) -> char {
    if 'A' <= c <= 'Z' {
        ((c as u8) + 32) as char
    } else {
        c
    }
}

/// Equal up to the case of ASCII letters.
pub open spec fn same_ignoring_ascii_case(a: Seq<char>, b: Seq<char>) -> bool {
    a.len() == b.len() && forall|i: int|
        0 <= i < a.len() ==> ascii_lower(#[trigger] a[i]) == ascii_lower(b[i])
}

/// Lexicographic order by code point, which is also the order of the UTF-8 bytes.
pub open spec fn text_before(a: Seq<char>, b: Seq<char>) -> bool
    decreases a.len(),
{
    if b.len() == 0 {
        false
    } else if a.len() == 0 {
        true
    } else if a[0] == b[0] {
        text_before(a.skip(1), b.skip(1))
    } else {
        a[0] < b[0]
    }
}

/// The decimal digit for `d`, which is below ten.
pub open spec fn digit_char(d: int) -> char {
    (48 + d) as char
}

/// A number in decimal, without leading zeros.
pub open spec fn decimal(n: int) -> Seq<char>
    decreases n,
{
    if n < 10 {
        seq![digit_char(n)]
    } else {
        decimal(n / 10).push(digit_char(n % 10))
    }
}

/// `count` copies of `c`.
pub open spec fn repeated(c: char, count: nat) -> Seq<char> {
    Seq::new(count, |i: int| c)
}

/// Texts one after the other, with `separator` between each two.
pub open spec fn separated(parts: Seq<Seq<char>>, separator: Seq<char>) -> Seq<char>
    decreases parts.len(),
{
    if parts.len() == 0 {
        Seq::empty()
    } else if parts.len() == 1 {
        parts[0]
    } else {
        separated(parts.drop_last(), separator) + separator + parts.last()
    }
}

/// The views of strings.
pub open spec fn views(texts: Seq<String>) -> Seq<Seq<char>> {
    texts.map_values(|text: String| text@)
}

/// The view of an optional string.
pub open spec fn opt_view(text: Option<String>) -> Option<Seq<char>> {
    match text {
        Some(text) => Some(text@),
        None => None,
    }
}

/// The characters of a string.
pub fn chars_of(text: &str) -> (res: Vec<char>)
    ensures
        res@ == text@,
{
    let mut out: Vec<char> = Vec::new();
    for c in it: text.chars()
        invariant
            it.seq() == text@,
            out@ == it.seq().take(it.index() as int),
    {
        out.push(c);
    }
    out
}

/// The string made of the characters `from..to`.
pub fn string_of(chars: &[char], from: usize, to: usize) -> (res: String)
    requires
        from <= to <= chars@.len(),
    ensures
        res@ == chars@.subrange(from as int, to as int),
{
    let mut out = String::new();
    let mut i: usize = from;
    while i < to
        invariant
            from <= i <= to <= chars@.len(),
            out@ == chars@.subrange(from as int, i as int),
        decreases to - i,
    {
        out.push(chars[i]);
        i = i + 1;
        assert(chars@.subrange(from as int, i as int) == chars@.subrange(
            from as int,
            i - 1,
        ).push(chars@[i - 1]));
    }
    out
}

/// Whether two strings hold the same characters.
pub fn same_text(a: &str, b: &str) -> (res: bool)
    ensures
        res == (a@ == b@),
{
    a.to_owned() == b.to_owned()
}

/// Whether two optional strings are both absent or hold the same characters.
pub fn same_option(a: &Option<String>, b: &Option<String>) -> (res: bool)
    ensures
        res == (opt_view(*a) == opt_view(*b)),
{
    match (a, b) {
        (Some(a), Some(b)) => *a == *b,
        (None, None) => true,
        _ => false,
    }
}

/// The length of a string in bytes.
pub fn byte_len(text: &str) -> (res: usize)
    ensures
        res == byte_length(text@),
{
    text.as_bytes().len()
}

/// `text` followed by `more`.
pub fn joined(text: &str, more: &str) -> (res: String)
    ensures
        res@ == text@ + more@,
{
    let mut out = text.to_owned();
    out.append(more);
    out
}

/// `a`, `b` and `c` one after the other.
pub fn joined3(a: &str, b: &str, c: &str) -> (res: String)
    ensures
        res@ == a@ + b@ + c@,
{
    let mut out = a.to_owned();
    out.append(b);
    out.append(c);
    out
}

/// Strings one after the other, with `separator` between each two.
pub fn join(parts: &Vec<String>, separator: &str) -> (res: String)
    ensures
        res@ == separated(views(parts@), separator@),
{
    let mut out = String::new();
    let mut i: usize = 0;
    let ghost all = views(parts@);
    assert(all.take(0) == Seq::<Seq<char>>::empty());
    while i < parts.len()
        invariant
            i <= parts@.len(),
            all == views(parts@),
            out@ == separated(all.take(i as int), separator@),
        decreases parts@.len() - i,
    {
        assert(all.take(i + 1).drop_last() == all.take(i as int));
        assert(all.take(i + 1).last() == parts@[i as int]@);
        if i > 0 {
            out.append(separator);
        }
        let ghost before = out@;
        out.append(parts[i].as_str());
        assert(i == 0 ==> before + parts@[i as int]@ == parts@[i as int]@);
        i = i + 1;
    }
    assert(all.take(i as int) == all);
    out
}

/// Whether a text is among others.
pub fn contains(texts: &Vec<String>, text: &str) -> (res: bool)
    ensures
        res == views(texts@).contains(text@),
{
    let mut i: usize = 0;
    while i < texts.len()
        invariant
            i <= texts@.len(),
            forall|j: int| 0 <= j < i ==> #[trigger] views(texts@)[j] != text@,
        decreases texts@.len() - i,
    {
        if same_text(texts[i].as_str(), text) {
            assert(views(texts@)[i as int] == text@);
            return true;
        }
        i = i + 1;
    }
    false
}

/// `count` copies of `c`.
pub fn repeat_char(c: char, count: usize) -> (res: String)
    ensures
        res@ == repeated(c, count as nat),
{
    let mut out = String::new();
    let mut i: usize = 0;
    while i < count
        invariant
            i <= count,
            out@ == repeated(c, i as nat),
        decreases count - i,
    {
        out.push(c);
        i = i + 1;
        assert(repeated(c, i as nat) == repeated(c, (i - 1) as nat).push(c));
    }
    out
}

/// The decimal form of a number.
pub fn decimal_of(n: u64) -> (res: String)
    ensures
        res@ == decimal(n as int),
    decreases n,
{
    let d: u8 = (n % 10) as u8;
    let c: char = (48 + d) as char;
    if n < 10 {
        let mut out = String::new();
        out.push(c);
        assert(out@ == decimal(n as int));
        out
    } else {
        let mut out = decimal_of(n / 10);
        out.push(c);
        out
    }
}

/// Whether two strings are equal up to the case of ASCII letters.
pub fn eq_ignore_ascii_case(a: &str, b: &str) -> (res: bool)
    ensures
        res == same_ignoring_ascii_case(a@, b@),
{
    let left = chars_of(a);
    let right = chars_of(b);
    if left.len() != right.len() {
        return false;
    }
    let mut i: usize = 0;
    while i < left.len()
        invariant
            i <= left@.len(),
            left@.len() == right@.len(),
            left@ == a@,
            right@ == b@,
            forall|j: int| 0 <= j < i ==> ascii_lower(#[trigger] left@[j]) == ascii_lower(right@[j]),
        decreases left@.len() - i,
    {
        if lower_char(left[i]) != lower_char(right[i]) {
            assert(ascii_lower(a@[i as int]) != ascii_lower(b@[i as int]));
            return false;
        }
        i = i + 1;
    }
    true
}

fn lower_char(c: char) -> (res: char)
    ensures
        res == ascii_lower(c),
{
    if 'A' <= c && c <= 'Z' {
        ((c as u8) + 32) as char
    } else {
        c
    }
}

/// Whether `a` comes before `b` by code points.
pub fn str_before(a: &str, b: &str) -> (res: bool)
    ensures
        res == text_before(a@, b@),
{
    let left = chars_of(a);
    let right = chars_of(b);
    let mut i: usize = 0;
    assert(left@.skip(0) == left@);
    assert(right@.skip(0) == right@);
    while i < left.len() && i < right.len() && left[i] == right[i]
        invariant
            i <= left@.len(),
            i <= right@.len(),
            text_before(left@, right@) == text_before(left@.skip(i as int), right@.skip(i as int)),
        decreases left@.len() - i,
    {
        assert(left@.skip(i as int).skip(1) == left@.skip(i + 1));
        assert(right@.skip(i as int).skip(1) == right@.skip(i + 1));
        i = i + 1;
    }
    if i >= right.len() {
        false
    } else if i >= left.len() {
        true
    } else {
        left[i] < right[i]
    }
}

/// The index of the first character that is not white space.
pub fn leading_whitespace(chars: &[char], from: usize) -> (res: usize)
    requires
        from <= chars@.len(),
    ensures
        from <= res <= chars@.len(),
        trim_start(chars@.skip(from as int)) == chars@.skip(res as int),
{
    let mut i: usize = from;
    while i < chars.len() && char_is_whitespace(chars[i])
        invariant
            from <= i <= chars@.len(),
            trim_start(chars@.skip(from as int)) == trim_start(chars@.skip(i as int)),
        decreases chars@.len() - i,
    {
        assert(chars@.skip(i as int).skip(1) == chars@.skip(i + 1));
        i = i + 1;
    }
    i
}

/// The end of `chars[from..]` without its trailing white space.
pub fn trailing_whitespace(chars: &[char], from: usize) -> (res: usize)
    requires
        from <= chars@.len(),
    ensures
        from <= res <= chars@.len(),
        trim_end(chars@.skip(from as int)) == chars@.subrange(from as int, res as int),
{
    let mut i: usize = chars.len();
    assert(chars@.skip(from as int) == chars@.subrange(from as int, i as int));
    while i > from && char_is_whitespace(chars[i - 1])
        invariant
            from <= i <= chars@.len(),
            trim_end(chars@.skip(from as int)) == trim_end(chars@.subrange(from as int, i as int)),
        decreases i,
    {
        assert(chars@.subrange(from as int, i as int).drop_last() == chars@.subrange(
            from as int,
            i - 1,
        ));
        i = i - 1;
    }
    i
}

/// A string without white space at either end.
pub fn trimmed(text: &str) -> (res: String)
    ensures
        res@ == trim(text@),
{
    let chars = chars_of(text);
    assert(chars@.skip(0) == chars@);
    let from = leading_whitespace(&chars, 0);
    let to = trailing_whitespace(&chars, from);
    string_of(&chars, from, to)
}

/// Whether a string is empty or white space alone.
pub fn is_blank(text: &str) -> (res: bool)
    ensures
        res == (trim(text@).len() == 0),
{
    let content = trimmed(text);
    let chars = chars_of(content.as_str());
    chars.len() == 0
}

/// A string without its trailing white space.
pub fn trimmed_end(text: &str) -> (res: String)
    ensures
        res@ == trim_end(text@),
{
    let chars = chars_of(text);
    assert(chars@.skip(0) == chars@);
    let to = trailing_whitespace(&chars, 0);
    string_of(&chars, 0, to)
}

/// Whether `part` occurs in `text` at `at`.
pub fn part_at(text: &[char], part: &[char], at: usize) -> (res: bool)
    ensures
        res == occurs_at(text@, part@, at as int),
{
    if at > text.len() || part.len() > text.len() - at {
        return false;
    }
    let end: usize = text.len();
    let mut i: usize = 0;
    while i < part.len()
        invariant
            i <= part@.len(),
            end == text@.len(),
            at + part@.len() <= end,
            forall|j: int| 0 <= j < i ==> text@[at + j] == #[trigger] part@[j],
        decreases part@.len() - i,
    {
        if text[at + i] != part[i] {
            assert(text@.subrange(at as int, at + part@.len())[i as int] != part@[i as int]);
            return false;
        }
        i = i + 1;
    }
    assert(text@.subrange(at as int, at + part@.len()) == part@);
    true
}

/// The first index from `from` on at which `part` occurs in `text`.
pub fn find_part(text: &[char], part: &[char], from: usize) -> (res: Option<usize>)
    ensures
        match res {
            Some(at) => find_from(text@, part@, from as int) == Some(at as int),
            None => find_from(text@, part@, from as int) is None,
        },
{
    let mut i: usize = from;
    while i <= text.len() && part.len() <= text.len() - i
        invariant
            from <= i,
            i <= text@.len() || i == from,
            find_from(text@, part@, from as int) == find_from(text@, part@, i as int),
        decreases text@.len() + 1 - i,
    {
        if part_at(text, part, i) {
            return Some(i);
        }
        if i == text.len() {
            assert(find_from(text@, part@, i + 1) is None);
            return None;
        }
        i = i + 1;
    }
    None
}

/// The number that decimal digits stand for.
pub open spec fn number_of(digits: Seq<char>) -> int
    decreases digits.len(),
{
    if digits.len() == 0 {
        0
    } else {
        number_of(digits.drop_last()) * 10 + (digits.last() as int - '0' as int)
    }
}

/// A number that is written in decimal is read as the same number.
pub proof fn decimals_are_read_back(n: int)
    requires
        0 <= n,
    ensures
        number_of(decimal(n)) == n,
    decreases n,
{
    let digits = decimal(n);
    if n < 10 {
        assert(digits.drop_last() =~= Seq::<char>::empty());
        assert(number_of(digits.drop_last()) == 0);
    } else {
        decimals_are_read_back(n / 10);
        assert(digits.drop_last() =~= decimal(n / 10));
    }
}

/// Letters match in either case, and everything else matches only itself.
pub proof fn letters_match_in_either_case(a: Seq<char>, b: Seq<char>)
    ensures
        same_ignoring_ascii_case(a, b) <==> a.len() == b.len() && forall|i: int|
            0 <= i < a.len() ==> (#[trigger] a[i] == b[i] || ('A' <= a[i] <= 'Z' && b[i] as int
                == a[i] as int + 32) || ('A' <= b[i] <= 'Z' && a[i] as int == b[i] as int + 32)),
{
    if a.len() == b.len() {
        assert forall|i: int| 0 <= i < a.len() implies (ascii_lower(#[trigger] a[i]) == ascii_lower(
            b[i],
        ) <==> (a[i] == b[i] || ('A' <= a[i] <= 'Z' && b[i] as int == a[i] as int + 32) || ('A'
            <= b[i] <= 'Z' && a[i] as int == b[i] as int + 32))) by {}
    }
}

/// Spaces, tabs and the ends of lines are white space; no character that is seen on a keyboard is.
pub proof fn visible_characters_are_no_white_space(c: char)
    ensures
        c == ' ' || c == '\t' || c == '\n' || c == '\r' ==> is_whitespace(c),
        '!' <= c <= '~' ==> !is_whitespace(c),
{
}

proof fn lemma_trim_start(text: Seq<char>) -> (from: int)
    ensures
        0 <= from <= text.len(),
        trim_start(text) == text.skip(from),
        forall|i: int| 0 <= i < from ==> is_whitespace(#[trigger] text[i]),
        from < text.len() ==> !is_whitespace(text[from]),
    decreases text.len(),
{
    if text.len() > 0 && is_whitespace(text[0]) {
        let rest = text.skip(1);
        let from = lemma_trim_start(rest);
        assert(rest.skip(from) == text.skip(from + 1));
        assert forall|i: int| 0 <= i < from + 1 implies is_whitespace(#[trigger] text[i]) by {
            if i > 0 {
                assert(text[i] == rest[i - 1]);
            }
        }
        if from < rest.len() {
            assert(text[from + 1] == rest[from]);
        }
        from + 1
    } else {
        assert(text.skip(0) == text);
        0
    }
}

proof fn lemma_trim_end(text: Seq<char>) -> (to: int)
    ensures
        0 <= to <= text.len(),
        trim_end(text) == text.take(to),
        forall|i: int| to <= i < text.len() ==> is_whitespace(#[trigger] text[i]),
        to > 0 ==> !is_whitespace(text[to - 1]),
    decreases text.len(),
{
    if text.len() > 0 && is_whitespace(text.last()) {
        let rest = text.drop_last();
        let to = lemma_trim_end(rest);
        assert(rest.take(to) == text.take(to));
        assert forall|i: int| to <= i < text.len() implies is_whitespace(#[trigger] text[i]) by {
            if i < rest.len() {
                assert(text[i] == rest[i]);
            }
        }
        to
    } else {
        assert(text.take(text.len() as int) == text);
        text.len() as int
    }
}

/// To trim a text takes off the white space around it and nothing else: what is left is the part
/// between, and that neither begins nor ends with white space.
pub proof fn trimming_takes_off_white_space(text: Seq<char>)
    ensures
        exists|from: int, to: int|
            0 <= from <= to <= text.len() && trim(text) == #[trigger] text.subrange(from, to) && (
            forall|i: int|
                0 <= i < from || to <= i < text.len() ==> is_whitespace(#[trigger] text[i])),
        trim(text).len() > 0 ==> !is_whitespace(trim(text)[0]) && !is_whitespace(trim(text).last()),
{
    let from = lemma_trim_start(text);
    let rest = text.skip(from);
    let to = lemma_trim_end(rest);
    assert(rest.take(to) == text.subrange(from, from + to));
    assert forall|i: int| 0 <= i < from || from + to <= i < text.len() implies is_whitespace(
        #[trigger] text[i],
    ) by {
        if i >= from {
            assert(text[i] == rest[i - from]);
        }
    }
    if to > 0 {
        assert(trim(text)[0] == text[from]);
        assert(trim(text).last() == rest[to - 1]);
    }
}

/// To trim the end of a text keeps its beginning, and all that comes after it is white space.
pub proof fn ends_are_trimmed_of_white_space(text: Seq<char>)
    ensures
        exists|to: int|
            0 <= to <= text.len() && trim_end(text) == #[trigger] text.take(to) && forall|i: int|
                to <= i < text.len() ==> is_whitespace(#[trigger] text[i]),
        trim_end(text).len() > 0 ==> !is_whitespace(trim_end(text).last()),
{
    let to = lemma_trim_end(text);
    if to > 0 {
        assert(trim_end(text).last() == text[to - 1]);
    }
}

/// Parts are put one after the other, with the separator between each two and nowhere else.
pub proof fn parts_are_joined_by_separators(
    parts: Seq<Seq<char>>,
    part: Seq<char>,
    separator: Seq<char>,
)
    ensures
        separated(Seq::empty(), separator) == Seq::<char>::empty(),
        separated(seq![part], separator) == part,
        parts.len() > 0 ==> separated(parts.push(part), separator) == separated(parts, separator)
            + separator + part,
        repeated(' ', 0) == Seq::<char>::empty(),
        forall|c: char, count: nat| (#[trigger] repeated(c, count)).len() == count,
        forall|c: char, count: nat, i: int|
            0 <= i < count ==> #[trigger] repeated(c, count)[i] == c,
{
    assert(parts.push(part).drop_last() == parts);
}

/// A text comes before another where, at the first place in which they differ, its character comes
/// before the other's, or it ends.
pub proof fn texts_are_ordered_by_their_first_difference(a: Seq<char>, b: Seq<char>, at: int)
    requires
        0 <= at <= a.len(),
        at <= b.len(),
        forall|i: int| 0 <= i < at ==> #[trigger] a[i] == b[i],
        at == a.len() || at == b.len() || a[at] != b[at],
    ensures
        text_before(a, b) <==> at < b.len() && (at == a.len() || a[at] < b[at]),
    decreases at,
{
    if at > 0 {
        assert forall|i: int| 0 <= i < at - 1 implies #[trigger] a.skip(1)[i] == b.skip(1)[i] by {
            assert(a[i + 1] == b[i + 1]);
        }
        texts_are_ordered_by_their_first_difference(a.skip(1), b.skip(1), at - 1);
    }
}

/// A part is found where it first occurs, and not where it does not.
pub proof fn parts_are_found_where_they_first_occur(text: Seq<char>, part: Seq<char>, from: int)
    requires
        from >= 0,
    ensures
        find_from(text, part, from) matches Some(at) ==> from <= at && at + part.len() <= text.len()
            && text.subrange(at, at + part.len()) == part && forall|i: int|
            from <= i < at ==> #[trigger] text.subrange(i, i + part.len()) != part,
        find_from(text, part, from) is None ==> forall|i: int|
            from <= i && i + part.len() <= text.len() ==> #[trigger] text.subrange(
                i,
                i + part.len(),
            ) != part,
    decreases text.len() + 1 - from,
{
    if from + part.len() <= text.len() && !occurs_at(text, part, from) {
        parts_are_found_where_they_first_occur(text, part, from + 1);
    }
}

} // verus!
