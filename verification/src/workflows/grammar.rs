//! The grammar of the literals in a workflow's `meta` declaration.
//!
//! Each function reads `source` from an index on and gives what it read, or the message of the
//! error, together with the index at which reading stopped.

use vstd::prelude::*;
use vstd::utf8::encode_utf8;
use crate::ids;
use crate::text;
use crate::workflows::literal::LiteralView;

verus! {

/// What was read, or why nothing could be, and where reading stopped.
pub type Parsed<T> = (Result<T, Seq<char>>, int);

/// What a JSON number is read as: whether it is kept as a fraction, and its canonical text. `None`
/// for a text that is no JSON number, or one out of range.
pub uninterp spec fn json_number(text: Seq<char>) -> Option<(bool, Seq<char>)>;

/// `serde_json::from_str` for a `serde_json::Number`, with the number's `is_f64` and its text: what
/// JSON makes of `text`, which depends on the text alone.
#[verifier::external_body]
pub(crate) fn parse_json_number(text: &str) -> (res: Option<(bool, String)>)
    ensures
        match res {
            Some((fractional, canonical)) => json_number(text@) == Some((fractional, canonical@)),
            None => json_number(text@) is None,
        },
{
    let number: serde_json::Number = serde_json::from_str(text).ok()?;
    Some((number.is_f64(), number.to_string()))
}

pub open spec fn is_identifier_start_char(c: char) -> bool {
    text::is_ascii_alphabetic(c) || c == '_' || c == '$'
}

pub open spec fn is_identifier_continue_char(c: char) -> bool {
    is_identifier_start_char(c) || text::is_ascii_digit(c)
}

/// The characters that a number may be written with.
pub open spec fn is_number_char(c: char) -> bool {
    c == '-' || c == '+' || c == '.' || c == 'e' || c == 'E' || text::is_ascii_digit(c)
}

/// The character at `at`, if the source reaches that far.
pub open spec fn char_at(source: Seq<char>, at: int) -> Option<char> {
    if 0 <= at < source.len() {
        Some(source[at])
    } else {
        None
    }
}

/// The first index from `from` on that holds a line feed, or the end of the source.
pub open spec fn line_end(source: Seq<char>, from: int) -> int
    decreases source.len() - from,
{
    if 0 <= from < source.len() && source[from] != '\n' {
        line_end(source, from + 1)
    } else {
        from
    }
}

pub proof fn lemma_line_end(source: Seq<char>, from: int)
    ensures
        from <= line_end(source, from),
        from <= source.len() ==> line_end(source, from) <= source.len(),
    decreases source.len() - from,
{
    if 0 <= from < source.len() && source[from] != '\n' {
        lemma_line_end(source, from + 1);
    }
}

pub proof fn lemma_find_from(source: Seq<char>, part: Seq<char>, from: int)
    ensures
        text::find_from(source, part, from) matches Some(at) ==> from <= at && text::occurs_at(source, part, at)
            && forall|i: int| from <= i < at ==> !text::occurs_at(source, part, i),
        text::find_from(source, part, from) is None && 0 <= from ==> forall|i: int|
            from <= i ==> !text::occurs_at(source, part, i),
    decreases source.len() + 1 - from,
{
    if from < 0 || from + part.len() > source.len() || text::occurs_at(source, part, from) {
    } else {
        lemma_find_from(source, part, from + 1);
    }
}

/// White space, `//` comments and `/* */` comments, in any number and order.
pub open spec fn trivia(source: Seq<char>, from: int) -> Parsed<()>
    decreases source.len() - from,
{
    if from < 0 || from >= source.len() {
        (Ok(()), from)
    } else if text::is_whitespace(source[from]) {
        trivia(source, from + 1)
    } else if text::occurs_at(source, seq!['/', '/'], from) {
        let end = line_end(source, from + 2);
        proof {
            lemma_line_end(source, from + 2);
        }
        trivia(source, end)
    } else if text::occurs_at(source, seq!['/', '*'], from) {
        match text::find_from(source, seq!['*', '/'], from + 2) {
            None => (Err("unterminated comment in workflow meta"@), from),
            Some(end) => {
                proof {
                    lemma_find_from(source, seq!['*', '/'], from + 2);
                }
                trivia(source, end + 2)
            },
        }
    } else {
        (Ok(()), from)
    }
}

pub proof fn lemma_trivia(source: Seq<char>, from: int)
    ensures
        from <= trivia(source, from).1,
        from <= source.len() ==> trivia(source, from).1 <= source.len(),
        from > source.len() ==> trivia(source, from).1 == from,
    decreases source.len() - from,
{
    lemma_line_end(source, from + 2);
    lemma_find_from(source, seq!['*', '/'], from + 2);
    if from < 0 || from >= source.len() {
    } else if text::is_whitespace(source[from]) {
        lemma_trivia(source, from + 1);
    } else if text::occurs_at(source, seq!['/', '/'], from) {
        lemma_trivia(source, line_end(source, from + 2));
    } else if text::occurs_at(source, seq!['/', '*'], from) {
        match text::find_from(source, seq!['*', '/'], from + 2) {
            None => {},
            Some(end) => lemma_trivia(source, end + 2),
        }
    }
}

/// To skip trivia where trivia were just skipped changes nothing, and an error is found again.
pub proof fn trivia_are_skipped_at_once(source: Seq<char>, from: int)
    ensures
        trivia(source, trivia(source, from).1) == trivia(source, from),
    decreases source.len() - from,
{
    lemma_line_end(source, from + 2);
    lemma_find_from(source, seq!['*', '/'], from + 2);
    if from < 0 || from >= source.len() {
    } else if text::is_whitespace(source[from]) {
        trivia_are_skipped_at_once(source, from + 1);
    } else if text::occurs_at(source, seq!['/', '/'], from) {
        trivia_are_skipped_at_once(source, line_end(source, from + 2));
    } else if text::occurs_at(source, seq!['/', '*'], from) {
        match text::find_from(source, seq!['*', '/'], from + 2) {
            None => {},
            Some(end) => trivia_are_skipped_at_once(source, end + 2),
        }
    }
}

/// The number of bytes of a character in UTF-8.
pub open spec fn utf8_width(c: char) -> nat {
    text::byte_length(seq![c])
}

/// How many characters from `from` on take exactly `count` bytes; `None` where the source ends
/// before, or where a character straddles that boundary.
pub open spec fn chars_in_bytes(source: Seq<char>, from: int, count: int) -> Option<int>
    decreases source.len() - from,
{
    if count == 0 {
        Some(0int)
    } else if from < 0 || from >= source.len() || utf8_width(source[from]) > count {
        None
    } else {
        match chars_in_bytes(source, from + 1, count - utf8_width(source[from])) {
            Some(more) => Some(more + 1),
            None => None,
        }
    }
}

pub proof fn lemma_chars_in_bytes(source: Seq<char>, from: int, count: int)
    ensures
        chars_in_bytes(source, from, count) matches Some(chars) ==> 0 <= chars && (chars > 0
            ==> from + chars <= source.len()),
    decreases source.len() - from,
{
    if count == 0 || from < 0 || from >= source.len() || utf8_width(source[from]) > count {
    } else {
        lemma_chars_in_bytes(source, from + 1, count - utf8_width(source[from]));
    }
}

/// `count` bytes hold at most `count` characters.
pub proof fn lemma_at_most_bytes(source: Seq<char>, from: int, count: int)
    ensures
        chars_in_bytes(source, from, count) matches Some(chars) ==> chars <= count,
    decreases source.len() - from,
{
    if count == 0 || from < 0 || from >= source.len() || utf8_width(source[from]) > count {
    } else {
        lemma_utf8_width(source[from]);
        lemma_at_most_bytes(source, from + 1, count - utf8_width(source[from]));
    }
}

/// The UTF-8 width of a character by its code point.
pub proof fn lemma_utf8_width(c: char)
    ensures
        utf8_width(c) == (if (c as u32) < 0x80 {
            1nat
        } else if (c as u32) < 0x800 {
            2
        } else if (c as u32) < 0x10000 {
            3
        } else {
            4
        }),
{
    let one = seq![c];
    assert(one.drop_first() == Seq::<char>::empty());
    reveal_with_fuel(encode_utf8, 2);
}

/// Whether every character is ASCII.
pub open spec fn all_ascii(text: Seq<char>) -> bool {
    forall|i: int| 0 <= i < text.len() ==> #[trigger] text[i] < '\u{80}'
}

/// `count` bytes of ASCII text.
pub open spec fn ascii_text(source: Seq<char>, from: int, count: int) -> Parsed<Seq<char>> {
    match chars_in_bytes(source, from, count) {
        None => (Err("unterminated workflow meta escape"@), from),
        Some(chars) => {
            let text = source.subrange(from, from + chars);
            if all_ascii(text) {
                (Ok(text), from + chars)
            } else {
                (Err("invalid workflow meta escape"@), from)
            }
        },
    }
}

/// The value of a hexadecimal digit.
pub open spec fn hex_digit(c: char) -> Option<int> {
    if '0' <= c <= '9' {
        Some(c as int - '0' as int)
    } else if 'a' <= c <= 'f' {
        Some(c as int - 'a' as int + 10)
    } else if 'A' <= c <= 'F' {
        Some(c as int - 'A' as int + 10)
    } else {
        None
    }
}

/// The value of a text of hexadecimal digits.
pub open spec fn hex_digits(text: Seq<char>) -> Option<int>
    decreases text.len(),
{
    if text.len() == 0 {
        Some(0int)
    } else {
        match (hex_digits(text.drop_last()), hex_digit(text.last())) {
            (Some(high), Some(low)) => Some(high * 16 + low),
            _ => None,
        }
    }
}

/// A text whose first `upto` characters are not all hexadecimal digits has no value.
pub proof fn lemma_hex_prefix(text: Seq<char>, upto: int)
    requires
        0 <= upto <= text.len(),
        hex_digits(text.take(upto)) is None,
    ensures
        hex_digits(text) is None,
    decreases text.len(),
{
    if upto == text.len() {
        assert(text.take(upto) == text);
    } else {
        assert(text.drop_last().take(upto) == text.take(upto));
        lemma_hex_prefix(text.drop_last(), upto);
    }
}

/// The value of an unsigned hexadecimal number: digits, at least one, after an optional `+`.
pub open spec fn hex_number(text: Seq<char>) -> Option<int> {
    if text.len() > 0 && text[0] == '+' {
        if text.len() == 1 {
            None
        } else {
            hex_digits(text.skip(1))
        }
    } else if text.len() == 0 {
        None
    } else {
        hex_digits(text)
    }
}

/// Whether a number is a Unicode scalar value, and so a character.
pub open spec fn is_scalar_value(code: int) -> bool {
    0 <= code < 0xd800 || 0xe000 <= code <= 0x10ffff
}

/// The four digits of a `\u` escape.
pub open spec fn unicode_escape(source: Seq<char>, from: int) -> Parsed<char> {
    match ascii_text(source, from, 4) {
        (Err(message), at) => (Err(message), at),
        (Ok(digits), at) => match hex_number(digits) {
            Some(code) if is_scalar_value(code) => (Ok(code as char), at),
            _ => (Err("invalid workflow meta unicode escape"@), at),
        },
    }
}

/// The character that a one-letter escape stands for.
pub open spec fn simple_escape(c: char) -> Option<char> {
    if c == '\\' || c == '/' || c == '"' || c == '\'' {
        Some(c)
    } else if c == 'b' {
        Some('\u{8}')
    } else if c == 'f' {
        Some('\u{c}')
    } else if c == 'n' {
        Some('\n')
    } else if c == 'r' {
        Some('\r')
    } else if c == 't' {
        Some('\t')
    } else {
        None
    }
}

/// The rest of a string whose opening `quote` and characters `read` have been read.
pub open spec fn string_rest(source: Seq<char>, from: int, quote: char, read: Seq<char>) -> Parsed<
    Seq<char>,
>
    decreases source.len() - from,
{
    match char_at(source, from) {
        None => (Err("unterminated workflow meta string"@), from),
        Some(c) => if c == quote {
            (Ok(read), from + 1)
        } else if c != '\\' {
            string_rest(source, from + 1, quote, read.push(c))
        } else {
            match char_at(source, from + 1) {
                None => (Err("unterminated workflow meta escape"@), from + 1),
                Some(escaped) => match simple_escape(escaped) {
                    Some(plain) => string_rest(source, from + 2, quote, read.push(plain)),
                    None => if escaped == 'u' {
                        match unicode_escape(source, from + 2) {
                            (Err(message), at) => (Err(message), at),
                            (Ok(plain), at) => {
                                proof {
                                    lemma_chars_in_bytes(source, from + 2, 4);
                                }
                                string_rest(source, at, quote, read.push(plain))
                            },
                        }
                    } else {
                        (Err("unsupported workflow meta escape \\"@.push(escaped)), from + 2)
                    },
                },
            }
        },
    }
}

pub proof fn lemma_string_rest(source: Seq<char>, from: int, quote: char, read: Seq<char>)
    ensures
        from <= string_rest(source, from, quote, read).1,
        from <= source.len() ==> string_rest(source, from, quote, read).1 <= source.len(),
    decreases source.len() - from,
{
    lemma_chars_in_bytes(source, from + 2, 4);
    match char_at(source, from) {
        None => {},
        Some(c) => if c == quote {
        } else if c != '\\' {
            lemma_string_rest(source, from + 1, quote, read.push(c));
        } else {
            match char_at(source, from + 1) {
                None => {},
                Some(escaped) => match simple_escape(escaped) {
                    Some(plain) => lemma_string_rest(source, from + 2, quote, read.push(plain)),
                    None => if escaped == 'u' {
                        match unicode_escape(source, from + 2) {
                            (Err(_), at) => {},
                            (Ok(plain), at) => lemma_string_rest(
                                source,
                                at,
                                quote,
                                read.push(plain),
                            ),
                        }
                    },
                },
            }
        },
    }
}

/// A quoted string; its first character is the quote that ends it.
pub open spec fn string_literal(source: Seq<char>, from: int) -> Parsed<Seq<char>> {
    match char_at(source, from) {
        None => (Err("unterminated workflow meta string"@), from),
        Some(quote) => string_rest(source, from + 1, quote, Seq::empty()),
    }
}

/// How a character is written in a string between quotes `quote`: the quote, the backslash and the
/// control characters with a letter of their own are escaped.
pub open spec fn escape(c: char, quote: char) -> Seq<char> {
    if c == quote || c == '\\' {
        seq!['\\', c]
    } else if c == '\u{8}' {
        seq!['\\', 'b']
    } else if c == '\u{c}' {
        seq!['\\', 'f']
    } else if c == '\n' {
        seq!['\\', 'n']
    } else if c == '\r' {
        seq!['\\', 'r']
    } else if c == '\t' {
        seq!['\\', 't']
    } else {
        seq![c]
    }
}

/// The characters of a string as they are written between quotes `quote`.
pub open spec fn escaped(text: Seq<char>, quote: char) -> Seq<char>
    decreases text.len(),
{
    if text.len() == 0 {
        Seq::empty()
    } else {
        escape(text[0], quote) + escaped(text.skip(1), quote)
    }
}

proof fn lemma_escaped(
    before: Seq<char>,
    text: Seq<char>,
    quote: char,
    after: Seq<char>,
    read: Seq<char>,
)
    requires
        quote == '"' || quote == '\'',
    ensures
        string_rest(
            before + escaped(text, quote) + seq![quote] + after,
            before.len() as int,
            quote,
            read,
        ) == (
            Ok::<Seq<char>, Seq<char>>(read + text),
            before.len() + escaped(text, quote).len() + 1int,
        ),
    decreases text.len(),
{
    let source = before + escaped(text, quote) + seq![quote] + after;
    let at = before.len() as int;
    if text.len() == 0 {
        assert(source[at] == quote);
        assert(read + text == read);
    } else {
        let c = text[0];
        let first = escape(c, quote);
        let rest = escaped(text.skip(1), quote);
        lemma_escaped(before + first, text.skip(1), quote, after, read.push(c));
        assert(before + first + rest + seq![quote] + after =~= source);
        assert(read.push(c) + text.skip(1) =~= read + text);
        assert(source[at] == first[0]);
        if first.len() == 2 {
            assert(source[at + 1] == first[1]);
        }
    }
}

/// A string between quotes is read as what was written, whatever stands around it.
pub proof fn escaped_strings_are_read_back(
    before: Seq<char>,
    text: Seq<char>,
    quote: char,
    after: Seq<char>,
)
    requires
        quote == '"' || quote == '\'',
    ensures
        string_literal(
            before + seq![quote] + escaped(text, quote) + seq![quote] + after,
            before.len() as int,
        ) == (
            Ok::<Seq<char>, Seq<char>>(text),
            before.len() + escaped(text, quote).len() + 2int,
        ),
{
    let source = before + seq![quote] + escaped(text, quote) + seq![quote] + after;
    lemma_escaped(before + seq![quote], text, quote, after, Seq::empty());
    assert(source[before.len() as int] == quote);
    assert(Seq::<char>::empty() + text == text);
}

/// The hexadecimal digits of a character whose code point has at most four of them.
pub open spec fn four_digits(c: char) -> Seq<char> {
    let code = c as int;
    seq![
        ids::hex_digit(code / 4096),
        ids::hex_digit(code / 256 % 16),
        ids::hex_digit(code / 16 % 16),
        ids::hex_digit(code % 16),
    ]
}

proof fn lemma_hex_digit(value: int)
    requires
        0 <= value < 16,
    ensures
        hex_digit(ids::hex_digit(value)) == Some(value),
        ids::hex_digit(value) != '+',
        ids::hex_digit(value) < '\u{80}',
        utf8_width(ids::hex_digit(value)) == 1,
{
    lemma_utf8_width(ids::hex_digit(value));
}

/// A character that is written as `\u` and its four digits is read as that character.
pub proof fn unicode_escapes_are_read_back(source: Seq<char>, from: int, c: char)
    requires
        (c as int) < 0x10000,
        text::occurs_at(source, four_digits(c), from),
    ensures
        unicode_escape(source, from) == (Ok::<char, Seq<char>>(c), from + 4),
{
    let code = c as int;
    let digits = four_digits(c);
    lemma_hex_digit(code / 4096);
    lemma_hex_digit(code / 256 % 16);
    lemma_hex_digit(code / 16 % 16);
    lemma_hex_digit(code % 16);
    assert(source.subrange(from, from + 4) == digits);
    assert(source[from] == digits[0] && source[from + 1] == digits[1] && source[from + 2]
        == digits[2] && source[from + 3] == digits[3]) by {
        assert(source.subrange(from, from + 4)[0] == source[from]);
        assert(source.subrange(from, from + 4)[1] == source[from + 1]);
        assert(source.subrange(from, from + 4)[2] == source[from + 2]);
        assert(source.subrange(from, from + 4)[3] == source[from + 3]);
    }
    reveal_with_fuel(chars_in_bytes, 5);
    assert(chars_in_bytes(source, from, 4) == Some(4int));
    assert(all_ascii(digits));
    reveal_with_fuel(hex_digits, 5);
    let three = digits.drop_last();
    let two = three.drop_last();
    let one = two.drop_last();
    assert(one.drop_last() == Seq::<char>::empty());
    assert(hex_digits(one) == Some(code / 4096));
    assert(hex_digits(two) == Some(code / 4096 * 16 + code / 256 % 16));
    assert(hex_digits(three) == Some((code / 4096 * 16 + code / 256 % 16) * 16 + code / 16 % 16));
    assert(hex_digits(digits) == Some(code));
    assert(code as char == c);
}

/// The end of the number characters from `from` on.
pub open spec fn number_end(source: Seq<char>, from: int) -> int
    decreases source.len() - from,
{
    if 0 <= from < source.len() && is_number_char(source[from]) {
        number_end(source, from + 1)
    } else {
        from
    }
}

/// A number, as JSON has it.
pub open spec fn number_literal(source: Seq<char>, from: int) -> Parsed<LiteralView> {
    let end = number_end(source, from);
    match json_number(source.subrange(from, end)) {
        Some((fractional, text)) => (Ok(LiteralView::Number(fractional, text)), end),
        None => (Err("invalid workflow meta number"@), end),
    }
}

/// The end of the identifier characters from `from` on.
pub open spec fn identifier_end(source: Seq<char>, from: int) -> int
    decreases source.len() - from,
{
    if 0 <= from < source.len() && is_identifier_continue_char(source[from]) {
        identifier_end(source, from + 1)
    } else {
        from
    }
}

pub proof fn lemma_identifier_end(source: Seq<char>, from: int)
    ensures
        from <= identifier_end(source, from),
        from <= source.len() ==> identifier_end(source, from) <= source.len(),
    decreases source.len() - from,
{
    if 0 <= from < source.len() && is_identifier_continue_char(source[from]) {
        lemma_identifier_end(source, from + 1);
    }
}

/// The end of an identifier whose first character is at `from`.
pub open spec fn identifier_from(source: Seq<char>, from: int) -> int {
    if from < source.len() {
        identifier_end(source, from + 1)
    } else {
        from
    }
}

/// Whether `keyword` stands at `from` and does not run on into a longer identifier.
pub open spec fn keyword_at(source: Seq<char>, from: int, keyword: Seq<char>) -> bool {
    text::occurs_at(source, keyword, from) && match char_at(source, from + keyword.len()) {
        Some(c) => !is_identifier_continue_char(c),
        None => true,
    }
}

/// The message for a punctuation character that is missing.
pub open spec fn expected_message(c: char) -> Seq<char> {
    "expected "@ + text::char_debug(c) + " in workflow meta literal"@
}

/// An object's key: a string or an identifier.
pub open spec fn object_key(source: Seq<char>, from: int) -> Parsed<Seq<char>> {
    match char_at(source, from) {
        Some(c) => if c == '"' || c == '\'' {
            string_literal(source, from)
        } else if is_identifier_start_char(c) {
            let end = identifier_from(source, from);
            (Ok(source.subrange(from, end)), end)
        } else {
            (Err("workflow meta object keys must be identifiers or strings"@), from)
        },
        None => (Err("workflow meta object keys must be identifiers or strings"@), from),
    }
}

pub proof fn lemma_object_key(source: Seq<char>, from: int)
    ensures
        from <= object_key(source, from).1,
        from <= source.len() ==> object_key(source, from).1 <= source.len(),
{
    lemma_identifier_end(source, from + 1);
    if 0 <= from < source.len() {
        lemma_string_rest(source, from + 1, source[from], Seq::empty());
    }
}

/// Whether `key` is among the entries.
pub open spec fn has_key(entries: Seq<(Seq<char>, LiteralView)>, key: Seq<char>) -> bool {
    exists|i: int| 0 <= i < entries.len() && (#[trigger] entries[i]).0 == key
}

/// The place of `key` in the order of the entries' keys.
pub open spec fn entry_slot(entries: Seq<(Seq<char>, LiteralView)>, key: Seq<char>) -> int
    decreases entries.len(),
{
    if entries.len() == 0 || !text::text_before(entries[0].0, key) {
        0
    } else {
        1 + entry_slot(entries.skip(1), key)
    }
}

/// The entries with one more, in the order of the keys.
pub open spec fn with_entry(
    entries: Seq<(Seq<char>, LiteralView)>,
    key: Seq<char>,
    value: LiteralView,
) -> Seq<(Seq<char>, LiteralView)> {
    entries.insert(entry_slot(entries, key), (key, value))
}

/// Any literal, after trivia.
pub open spec fn value_literal(source: Seq<char>, from: int) -> Parsed<LiteralView>
    decreases source.len() - from, 2int,
{
    match trivia(source, from) {
        (Err(message), at) => (Err(message), at),
        (Ok(_), at) => match char_at(source, at) {
            None => (Err("workflow meta literal is missing"@), at),
            Some(c) => if c == '{' {
                proof {
                    lemma_trivia(source, from);
                }
                object_rest(source, at + 1, Seq::empty())
            } else if c == '[' {
                proof {
                    lemma_trivia(source, from);
                }
                array_rest(source, at + 1, Seq::empty())
            } else if c == '"' || c == '\'' {
                match string_literal(source, at) {
                    (Ok(text), end) => (Ok(LiteralView::Text(text)), end),
                    (Err(message), end) => (Err(message), end),
                }
            } else if c == '-' || text::is_ascii_digit(c) {
                number_literal(source, at)
            } else if keyword_at(source, at, "true"@) {
                (Ok(LiteralView::Bool(true)), at + 4)
            } else if keyword_at(source, at, "false"@) {
                (Ok(LiteralView::Bool(false)), at + 5)
            } else if keyword_at(source, at, "null"@) {
                (Ok(LiteralView::Null), at + 4)
            } else {
                (Err("workflow meta must be a pure literal; unexpected "@ + text::char_debug(c)), at)
            },
        },
    }
}

/// The rest of an object whose `entries` have been read, up to and with its closing brace.
pub open spec fn object_rest(
    source: Seq<char>,
    from: int,
    entries: Seq<(Seq<char>, LiteralView)>,
) -> Parsed<LiteralView>
    decreases source.len() - from, 1int,
{
    match trivia(source, from) {
        (Err(message), at) => (Err(message), at),
        (Ok(_), at) => if char_at(source, at) == Some('}') {
            (Ok(LiteralView::Object(entries)), at + 1)
        } else {
            match object_key(source, at) {
                (Err(message), after_key) => (Err(message), after_key),
                (Ok(key), after_key) => match trivia(source, after_key) {
                    (Err(message), colon) => (Err(message), colon),
                    (Ok(_), colon) => if char_at(source, colon) != Some(':') {
                        (Err(expected_message(':')), colon)
                    } else {
                        proof {
                            lemma_trivia(source, from);
                            lemma_object_key(source, at);
                            lemma_trivia(source, after_key);
                        }
                        match value_literal(source, colon + 1) {
                            (Err(message), after_value) => (Err(message), after_value),
                            (Ok(value), after_value) => if has_key(entries, key) {
                                (
                                    Err("workflow meta contains duplicate key "@ + text::str_debug(key)),
                                    after_value,
                                )
                            } else if after_value <= from || after_value > source.len() {
                                (Err(Seq::empty()), after_value)
                            } else {
                                object_tail(source, after_value, with_entry(entries, key, value))
                            },
                        }
                    },
                },
            }
        },
    }
}

/// What follows an entry of an object: its closing brace, or a comma and the rest.
pub open spec fn object_tail(
    source: Seq<char>,
    from: int,
    entries: Seq<(Seq<char>, LiteralView)>,
) -> Parsed<LiteralView>
    decreases source.len() - from, 0int,
{
    match trivia(source, from) {
        (Err(message), at) => (Err(message), at),
        (Ok(_), at) => if char_at(source, at) == Some('}') {
            (Ok(LiteralView::Object(entries)), at + 1)
        } else if char_at(source, at) != Some(',') {
            (Err(expected_message(',')), at)
        } else {
            proof {
                lemma_trivia(source, from);
            }
            object_rest(source, at + 1, entries)
        },
    }
}

/// The rest of an array whose `items` have been read, up to and with its closing bracket.
pub open spec fn array_rest(source: Seq<char>, from: int, items: Seq<LiteralView>) -> Parsed<
    LiteralView,
>
    decreases source.len() - from, 3int,
{
    match trivia(source, from) {
        (Err(message), at) => (Err(message), at),
        (Ok(_), at) => if char_at(source, at) == Some(']') {
            (Ok(LiteralView::Array(items)), at + 1)
        } else {
            proof {
                lemma_trivia(source, from);
            }
            match value_literal(source, at) {
                (Err(message), after_value) => (Err(message), after_value),
                (Ok(value), after_value) => if after_value <= from || after_value > source.len() {
                    (Err(Seq::empty()), after_value)
                } else {
                    array_tail(source, after_value, items.push(value))
                },
            }
        },
    }
}

/// What follows an item of an array: its closing bracket, or a comma and the rest.
pub open spec fn array_tail(source: Seq<char>, from: int, items: Seq<LiteralView>) -> Parsed<
    LiteralView,
>
    decreases source.len() - from, 0int,
{
    match trivia(source, from) {
        (Err(message), at) => (Err(message), at),
        (Ok(_), at) => if char_at(source, at) == Some(']') {
            (Ok(LiteralView::Array(items)), at + 1)
        } else if char_at(source, at) != Some(',') {
            (Err(expected_message(',')), at)
        } else {
            proof {
                lemma_trivia(source, from);
            }
            array_rest(source, at + 1, items)
        },
    }
}

proof fn lemma_number_end(source: Seq<char>, from: int)
    ensures
        from <= number_end(source, from),
        from <= source.len() ==> number_end(source, from) <= source.len(),
    decreases source.len() - from,
{
    if 0 <= from < source.len() && is_number_char(source[from]) {
        lemma_number_end(source, from + 1);
    }
}

/// Reading never goes back and never leaves the source, and a literal that was read has at least
/// one character.
pub proof fn literals_advance(source: Seq<char>, from: int)
    requires
        0 <= from <= source.len(),
    ensures
        from <= value_literal(source, from).1 <= source.len(),
        value_literal(source, from).0 is Ok ==> from < value_literal(source, from).1,
    decreases source.len() - from, 2int,
{
    lemma_trivia(source, from);
    let at = trivia(source, from).1;
    if trivia(source, from).0 is Ok && at < source.len() {
        let c = source[at];
        if c == '{' {
            objects_advance(source, at + 1, Seq::empty());
        } else if c == '[' {
            arrays_advance(source, at + 1, Seq::empty());
        } else {
            lemma_string_rest(source, at + 1, c, Seq::empty());
            lemma_number_end(source, at + 1);
            reveal_strlit("true");
            reveal_strlit("false");
            reveal_strlit("null");
        }
    }
}

proof fn objects_advance(source: Seq<char>, from: int, entries: Seq<(Seq<char>, LiteralView)>)
    requires
        0 <= from <= source.len(),
    ensures
        from <= object_rest(source, from, entries).1 <= source.len(),
        object_rest(source, from, entries).0 is Ok ==> from < object_rest(source, from, entries).1,
    decreases source.len() - from, 1int,
{
    lemma_trivia(source, from);
    let at = trivia(source, from).1;
    lemma_object_key(source, at);
    let after_key = object_key(source, at).1;
    lemma_trivia(source, after_key);
    let colon = trivia(source, after_key).1;
    if char_at(source, colon) == Some(':') {
        literals_advance(source, colon + 1);
        let (value, after_value) = value_literal(source, colon + 1);
        if let (Ok(key), Ok(value)) = (object_key(source, at).0, value) {
            let more = with_entry(entries, key, value);
            lemma_trivia(source, after_value);
            let comma = trivia(source, after_value).1;
            reveal_with_fuel(object_rest, 2);
            if char_at(source, comma) == Some(',') {
                objects_advance(source, comma + 1, more);
            }
        }
    }
}

proof fn arrays_advance(source: Seq<char>, from: int, items: Seq<LiteralView>)
    requires
        0 <= from <= source.len(),
    ensures
        from <= array_rest(source, from, items).1 <= source.len(),
        array_rest(source, from, items).0 is Ok ==> from < array_rest(source, from, items).1,
    decreases source.len() - from, 3int,
{
    lemma_trivia(source, from);
    let at = trivia(source, from).1;
    literals_advance(source, at);
    let (value, after_value) = value_literal(source, at);
    if let Ok(value) = value {
        let more = items.push(value);
        lemma_trivia(source, after_value);
        let comma = trivia(source, after_value).1;
        reveal_with_fuel(array_rest, 2);
        if char_at(source, comma) == Some(',') {
            arrays_advance(source, comma + 1, more);
        }
    }
}

} // verus!
