//! The parser for a workflow's `meta` declaration.

use vstd::prelude::*;
use crate::text;
use crate::workflows::grammar;
use crate::workflows::literal;
use crate::workflows::literal::{Literal, LiteralEntry, LiteralNumber, LiteralView};
use crate::workflows::meta;
use crate::workflows::meta::{MetaView, WorkflowMeta};

verus! {

/// `char::from_u32` gives the character with that code point, for a Unicode scalar value.
pub assume_specification[ std::char::from_u32 ](code: u32) -> (res: Option<char>)
    ensures
        res is Some <==> grammar::is_scalar_value(code as int),
        res matches Some(c) ==> c as u32 == code,
;

/// The value of a result with its error message.
pub open spec fn unit_outcome(res: Result<(), String>) -> Result<(), Seq<char>> {
    match res {
        Ok(_) => Ok(()),
        Err(message) => Err(message@),
    }
}

pub open spec fn text_outcome(res: Result<String, String>) -> Result<Seq<char>, Seq<char>> {
    match res {
        Ok(value) => Ok(value@),
        Err(message) => Err(message@),
    }
}

pub open spec fn char_outcome(res: Result<char, String>) -> Result<char, Seq<char>> {
    match res {
        Ok(value) => Ok(value),
        Err(message) => Err(message@),
    }
}

pub open spec fn literal_outcome(res: Result<Literal, String>) -> Result<LiteralView, Seq<char>> {
    match res {
        Ok(value) => Ok(value@),
        Err(message) => Err(message@),
    }
}

/// Whether a character may start an identifier.
pub fn is_identifier_start(character: char) -> (res: bool)
    ensures
        res == grammar::is_identifier_start_char(character),
{
    text::char_is_ascii_alphabetic(character) || character == '_' || character == '$'
}

/// Whether a character may stand in an identifier after its start.
pub fn is_identifier_continue(character: char) -> (res: bool)
    ensures
        res == grammar::is_identifier_continue_char(character),
{
    is_identifier_start(character) || text::char_is_ascii_digit(character)
}

fn is_number_character(c: char) -> (res: bool)
    ensures
        res == grammar::is_number_char(c),
{
    c == '-' || c == '+' || c == '.' || c == 'e' || c == 'E' || text::char_is_ascii_digit(c)
}

/// Reads literals from a text, one after the other.
#[derive(Debug, PartialEq, Eq)]
pub struct LiteralParser {
    pub source: Vec<char>,
    pub position: usize,
}

impl LiteralParser {
    /// The position stays within the source.
    pub open spec fn well_formed(&self) -> bool {
        self.position <= self.source@.len()
    }

    /// A parser at the start of `source`.
    pub fn new(source: &str) -> (res: LiteralParser)
        ensures
            res.well_formed(),
            res.source@ == source@,
            res.position == 0,
    {
        LiteralParser { source: text::chars_of(source), position: 0 }
    }

    /// How far reading has come, in bytes.
    pub fn position(&self) -> (res: usize)
        requires
            self.well_formed(),
        ensures
            res == text::byte_length(self.source@.take(self.position as int)),
    {
        let read = text::string_of(&self.source, 0, self.position);
        text::byte_len(read.as_str())
    }

    /// The next character, which stays unread.
    pub fn peek_char(&self) -> (res: Option<char>)
        ensures
            res == grammar::char_at(self.source@, self.position as int),
    {
        if self.position < self.source.len() {
            Some(self.source[self.position])
        } else {
            None
        }
    }

    /// Reads the next character.
    pub fn next_char(&mut self) -> (res: Option<char>)
        requires
            old(self).well_formed(),
        ensures
            final(self).well_formed(),
            final(self).source == old(self).source,
            res == grammar::char_at(old(self).source@, old(self).position as int),
            final(self).position == old(self).position + (if res is Some {
                1int
            } else {
                0
            }),
    {
        if self.position < self.source.len() {
            let next = self.source[self.position];
            self.position = self.position + 1;
            Some(next)
        } else {
            None
        }
    }

    /// Reads `expected`, if it is the next character.
    pub fn consume_char(&mut self, expected: char) -> (res: bool)
        requires
            old(self).well_formed(),
        ensures
            final(self).well_formed(),
            final(self).source == old(self).source,
            res == (grammar::char_at(old(self).source@, old(self).position as int) == Some(
                expected,
            )),
            final(self).position == old(self).position + (if res {
                1int
            } else {
                0
            }),
    {
        if self.position < self.source.len() && self.source[self.position] == expected {
            self.position = self.position + 1;
            true
        } else {
            false
        }
    }

    /// Reads `expected`, which has to be the next character.
    pub fn expect_char(&mut self, expected: char) -> (res: Result<(), String>)
        requires
            old(self).well_formed(),
        ensures
            final(self).well_formed(),
            final(self).source == old(self).source,
            match res {
                Ok(_) => grammar::char_at(old(self).source@, old(self).position as int) == Some(
                    expected,
                ) && final(self).position == old(self).position + 1,
                Err(message) => grammar::char_at(old(self).source@, old(self).position as int)
                    != Some(expected) && final(self).position == old(self).position && message@
                    == grammar::expected_message(expected),
            },
    {
        if self.consume_char(expected) {
            Ok(())
        } else {
            let shown = text::debug_char(expected);
            Err(text::joined3("expected ", shown.as_str(), " in workflow meta literal"))
        }
    }

    /// Whether `part` comes next.
    fn comes_next(&self, part: &str) -> (res: bool)
        ensures
            res == text::occurs_at(self.source@, part@, self.position as int),
    {
        let chars = text::chars_of(part);
        text::part_at(&self.source, &chars, self.position)
    }

    /// Reads white space and comments.
    #[verifier::loop_isolation(false)]
    pub fn skip_trivia(&mut self) -> (res: Result<(), String>)
        requires
            old(self).well_formed(),
        ensures
            final(self).well_formed(),
            final(self).source == old(self).source,
            final(self).position >= old(self).position,
            grammar::trivia(old(self).source@, old(self).position as int) == (
                unit_outcome(res),
                final(self).position as int,
            ),
    {
        let ghost start = self.position as int;
        let ghost source = self.source;
        proof {
            reveal_strlit("//");
            reveal_strlit("/*");
            reveal_strlit("*/");
            assert("//"@ == seq!['/', '/']);
            assert("/*"@ == seq!['/', '*']);
            assert("*/"@ == seq!['*', '/']);
        }
        loop
            invariant
                self.well_formed(),
                self.source == source,
                self.position >= start,
                "//"@ == seq!['/', '/'],
                "/*"@ == seq!['/', '*'],
                "*/"@ == seq!['*', '/'],
                grammar::trivia(source@, start) == grammar::trivia(
                    source@,
                    self.position as int,
                ),
            decreases self.source@.len() - self.position,
        {
            if self.position < self.source.len() && text::char_is_whitespace(
                self.source[self.position],
            ) {
                self.position = self.position + 1;
            } else if self.comes_next("//") {
                let end = self.end_of_line(self.position + 2);
                self.position = end;
            } else if self.comes_next("/*") {
                let mark = text::chars_of("*/");
                match text::find_part(&self.source, &mark, self.position + 2) {
                    Some(end) => {
                        proof {
                            grammar::lemma_find_from(
                                source@,
                                seq!['*', '/'],
                                self.position + 2,
                            );
                        }
                        self.position = end + 2;
                    },
                    None => {
                        return Err("unterminated comment in workflow meta".to_string());
                    },
                }
            } else {
                return Ok(());
            }
        }
    }

    fn end_of_line(&self, from: usize) -> (res: usize)
        requires
            from <= self.source@.len(),
        ensures
            from <= res <= self.source@.len(),
            res == grammar::line_end(self.source@, from as int),
    {
        let mut i: usize = from;
        while i < self.source.len() && self.source[i] != '\n'
            invariant
                from <= i <= self.source@.len(),
                grammar::line_end(self.source@, from as int) == grammar::line_end(
                    self.source@,
                    i as int,
                ),
            decreases self.source@.len() - i,
        {
            i = i + 1;
        }
        i
    }

    /// Reads `keyword`, unless it runs on into a longer identifier.
    pub fn consume_keyword(&mut self, keyword: &str) -> (res: bool)
        requires
            old(self).well_formed(),
        ensures
            final(self).well_formed(),
            final(self).source == old(self).source,
            res == grammar::keyword_at(old(self).source@, old(self).position as int, keyword@),
            final(self).position == old(self).position + (if res {
                keyword@.len() as int
            } else {
                0
            }),
    {
        let chars = text::chars_of(keyword);
        let total: usize = self.source.len();
        if !text::part_at(&self.source, &chars, self.position) {
            return false;
        }
        let end = self.position + chars.len();
        if end < total && is_identifier_continue(self.source[end]) {
            return false;
        }
        self.position = end;
        true
    }

    /// Reads an identifier; its first character is taken as it is.
    #[verifier::loop_isolation(false)]
    pub fn parse_identifier(&mut self) -> (res: String)
        requires
            old(self).well_formed(),
        ensures
            final(self).well_formed(),
            final(self).source == old(self).source,
            final(self).position == grammar::identifier_from(
                old(self).source@,
                old(self).position as int,
            ),
            res@ == old(self).source@.subrange(
                old(self).position as int,
                final(self).position as int,
            ),
            old(self).position < old(self).source@.len() ==> final(self).position
                > old(self).position,
    {
        let start = self.position;
        let _ = self.next_char();
        let ghost first = self.position as int;
        while self.position < self.source.len() && is_identifier_continue(
            self.source[self.position],
        )
            invariant
                self.well_formed(),
                self.source == old(self).source,
                start <= first <= self.position,
                grammar::identifier_end(self.source@, first) == grammar::identifier_end(
                    self.source@,
                    self.position as int,
                ),
            decreases self.source@.len() - self.position,
        {
            self.position = self.position + 1;
        }
        text::string_of(&self.source, start, self.position)
    }

    /// Reads ASCII text of `count` bytes.
    #[verifier::loop_isolation(false)]
    pub fn take_ascii(&mut self, count: usize) -> (res: Result<String, String>)
        requires
            old(self).well_formed(),
        ensures
            final(self).well_formed(),
            final(self).source == old(self).source,
            final(self).position >= old(self).position,
            grammar::ascii_text(old(self).source@, old(self).position as int, count as int) == (
                text_outcome(res),
                final(self).position as int,
            ),
    {
        let ghost goal = grammar::chars_in_bytes(self.source@, self.position as int, count as int);
        let start = self.position;
        let mut end: usize = start;
        let mut left: usize = count;
        while left > 0
            invariant
                start <= end <= self.source@.len(),
                self.source@ == old(self).source@,
                match grammar::chars_in_bytes(self.source@, end as int, left as int) {
                    Some(more) => goal == Some(more + (end - start)),
                    None => goal is None,
                },
            decreases left,
        {
            if end >= self.source.len() {
                return Err("unterminated workflow meta escape".to_string());
            }
            let width = width_of(self.source[end]);
            if width > left {
                return Err("unterminated workflow meta escape".to_string());
            }
            left = left - width;
            end = end + 1;
        }
        let mut i: usize = start;
        while i < end
            invariant
                start <= i <= end <= self.source@.len(),
                forall|j: int| start <= j < i ==> #[trigger] self.source@[j] < '\u{80}',
            decreases end - i,
        {
            if self.source[i] >= '\u{80}' {
                assert(self.source@.subrange(start as int, end as int)[i - start] >= '\u{80}');
                return Err("invalid workflow meta escape".to_string());
            }
            i = i + 1;
        }
        assert(grammar::all_ascii(self.source@.subrange(start as int, end as int)));
        self.position = end;
        Ok(text::string_of(&self.source, start, end))
    }

    /// Reads the digits of a `\u` escape.
    fn unicode_escape(&mut self) -> (res: Result<char, String>)
        requires
            old(self).well_formed(),
        ensures
            final(self).well_formed(),
            final(self).source == old(self).source,
            final(self).position >= old(self).position,
            grammar::unicode_escape(old(self).source@, old(self).position as int) == (
                char_outcome(res),
                final(self).position as int,
            ),
    {
        let digits = match self.take_ascii(4) {
            Ok(digits) => digits,
            Err(message) => {
                return Err(message);
            },
        };
        proof {
            grammar::lemma_chars_in_bytes(old(self).source@, old(self).position as int, 4);
            grammar::lemma_at_most_bytes(old(self).source@, old(self).position as int, 4);
        }
        match hex_value(digits.as_str()) {
            Some(code) => match std::char::from_u32(code) {
                Some(c) => {
                    proof {
                        vstd::utf8::char_u32_cast(c, code);
                    }
                    Ok(c)
                },
                None => Err("invalid workflow meta unicode escape".to_string()),
            },
            None => Err("invalid workflow meta unicode escape".to_string()),
        }
    }

    /// Reads a quoted string; its first character is the quote that ends it.
    #[verifier::loop_isolation(false)]
    pub fn parse_string(&mut self) -> (res: Result<String, String>)
        requires
            old(self).well_formed(),
        ensures
            final(self).well_formed(),
            final(self).source == old(self).source,
            final(self).position >= old(self).position,
            res is Ok ==> final(self).position > old(self).position,
            grammar::string_literal(old(self).source@, old(self).position as int) == (
                text_outcome(res),
                final(self).position as int,
            ),
    {
        let quote = match self.next_char() {
            Some(quote) => quote,
            None => {
                return Err("unterminated workflow meta string".to_string());
            },
        };
        let mut output = String::new();
        let ghost start = self.position as int;
        loop
            invariant
                self.well_formed(),
                self.source == old(self).source,
                self.position >= start > old(self).position,
                grammar::string_rest(self.source@, start, quote, Seq::empty())
                    == grammar::string_rest(
                    self.source@,
                    self.position as int,
                    quote,
                    output@,
                ),
            decreases self.source@.len() - self.position,
        {
            let character = match self.next_char() {
                Some(character) => character,
                None => {
                    return Err("unterminated workflow meta string".to_string());
                },
            };
            if character == quote {
                return Ok(output);
            }
            if character != '\\' {
                output.push(character);
                continue;
            }
            let escaped = match self.next_char() {
                Some(escaped) => escaped,
                None => {
                    return Err("unterminated workflow meta escape".to_string());
                },
            };
            match plain_escape(escaped) {
                Some(plain) => {
                    output.push(plain);
                },
                None => {
                    if escaped == 'u' {
                        match self.unicode_escape() {
                            Ok(plain) => {
                                output.push(plain);
                            },
                            Err(message) => {
                                return Err(message);
                            },
                        }
                    } else {
                        let mut message = "unsupported workflow meta escape \\".to_string();
                        message.push(escaped);
                        return Err(message);
                    }
                },
            }
        }
    }

    /// Reads a number, as JSON has it.
    #[verifier::loop_isolation(false)]
    pub fn parse_number(&mut self) -> (res: Result<LiteralNumber, String>)
        requires
            old(self).well_formed(),
        ensures
            final(self).well_formed(),
            final(self).source == old(self).source,
            final(self).position >= old(self).position,
            match res {
                Ok(number) => grammar::number_literal(
                    old(self).source@,
                    old(self).position as int,
                ) == (
                    Ok::<LiteralView, Seq<char>>(
                        LiteralView::Number(number.fractional, number.text@),
                    ),
                    final(self).position as int,
                ),
                Err(message) => grammar::number_literal(
                    old(self).source@,
                    old(self).position as int,
                ) == (Err::<LiteralView, Seq<char>>(message@), final(self).position as int),
            },
            (old(self).position < old(self).source@.len() && grammar::is_number_char(
                old(self).source@[old(self).position as int],
            )) ==> final(self).position > old(self).position,
    {
        let start = self.position;
        while self.position < self.source.len() && is_number_character(self.source[self.position])
            invariant
                self.well_formed(),
                self.source == old(self).source,
                start <= self.position,
                grammar::number_end(self.source@, start as int) == grammar::number_end(
                    self.source@,
                    self.position as int,
                ),
            decreases self.source@.len() - self.position,
        {
            self.position = self.position + 1;
        }
        let written = text::string_of(&self.source, start, self.position);
        match grammar::parse_json_number(written.as_str()) {
            Some((fractional, canonical)) => Ok(LiteralNumber { fractional, text: canonical }),
            None => Err("invalid workflow meta number".to_string()),
        }
    }

    /// Reads an object's key.
    fn parse_key(&mut self) -> (res: Result<String, String>)
        requires
            old(self).well_formed(),
        ensures
            final(self).well_formed(),
            final(self).source == old(self).source,
            final(self).position >= old(self).position,
            grammar::object_key(old(self).source@, old(self).position as int) == (
                text_outcome(res),
                final(self).position as int,
            ),
    {
        match self.peek_char() {
            Some(c) => {
                if c == '"' || c == '\'' {
                    return self.parse_string();
                }
                if is_identifier_start(c) {
                    return Ok(self.parse_identifier());
                }
            },
            None => {},
        }
        Err("workflow meta object keys must be identifiers or strings".to_string())
    }

    /// Reads an object: its braces, and between them keys with their values.
    pub fn parse_object(&mut self) -> (res: Result<Literal, String>)
        requires
            old(self).well_formed(),
        ensures
            final(self).well_formed(),
            final(self).source == old(self).source,
            final(self).position >= old(self).position,
            res is Ok ==> final(self).position > old(self).position,
            (if grammar::char_at(old(self).source@, old(self).position as int) == Some('{') {
                grammar::object_rest(
                    old(self).source@,
                    old(self).position + 1,
                    Seq::empty(),
                )
            } else {
                (Err(grammar::expected_message('{')), old(self).position as int)
            }) == (literal_outcome(res), final(self).position as int),
        decreases old(self).source@.len() - old(self).position, 1int,
    {
        match self.expect_char('{') {
            Ok(_) => {},
            Err(message) => {
                return Err(message);
            },
        }
        let ghost start = self.position as int;
        let mut entries: Vec<LiteralEntry> = Vec::new();
        loop
            invariant
                self.well_formed(),
                self.source == old(self).source,
                self.position >= start == old(self).position + 1,
                grammar::char_at(old(self).source@, old(self).position as int) == Some('{'),
                grammar::object_rest(self.source@, start, Seq::empty()) == grammar::object_rest(
                    self.source@,
                    self.position as int,
                    literal::entry_views(entries@),
                ),
            decreases self.source@.len() - self.position,
        {
            let ghost from = self.position as int;
            match self.skip_trivia() {
                Ok(_) => {},
                Err(message) => {
                    return Err(message);
                },
            }
            if self.consume_char('}') {
                return Ok(Literal::Object(entries));
            }
            let key = match self.parse_key() {
                Ok(key) => key,
                Err(message) => {
                    return Err(message);
                },
            };
            match self.skip_trivia() {
                Ok(_) => {},
                Err(message) => {
                    return Err(message);
                },
            }
            match self.expect_char(':') {
                Ok(_) => {},
                Err(message) => {
                    return Err(message);
                },
            }
            let value = match self.parse_value() {
                Ok(value) => value,
                Err(message) => {
                    return Err(message);
                },
            };
            if contains_key(&entries, key.as_str()) {
                let shown = text::debug_str(key.as_str());
                return Err(text::joined("workflow meta contains duplicate key ", shown.as_str()));
            }
            let ghost read = literal::entry_views(entries@);
            insert_entry(&mut entries, key, value);
            assert(grammar::object_rest(self.source@, from, read) == grammar::object_tail(
                self.source@,
                self.position as int,
                literal::entry_views(entries@),
            ));
            match self.skip_trivia() {
                Ok(_) => {},
                Err(message) => {
                    return Err(message);
                },
            }
            if self.consume_char('}') {
                return Ok(Literal::Object(entries));
            }
            match self.expect_char(',') {
                Ok(_) => {},
                Err(message) => {
                    return Err(message);
                },
            }
        }
    }

    /// Reads an array: its brackets, and between them values.
    pub fn parse_array(&mut self) -> (res: Result<Literal, String>)
        requires
            old(self).well_formed(),
        ensures
            final(self).well_formed(),
            final(self).source == old(self).source,
            final(self).position >= old(self).position,
            res is Ok ==> final(self).position > old(self).position,
            (if grammar::char_at(old(self).source@, old(self).position as int) == Some('[') {
                grammar::array_rest(
                    old(self).source@,
                    old(self).position + 1,
                    Seq::empty(),
                )
            } else {
                (Err(grammar::expected_message('[')), old(self).position as int)
            }) == (literal_outcome(res), final(self).position as int),
        decreases old(self).source@.len() - old(self).position, 1int,
    {
        match self.expect_char('[') {
            Ok(_) => {},
            Err(message) => {
                return Err(message);
            },
        }
        let ghost start = self.position as int;
        let mut values: Vec<Literal> = Vec::new();
        loop
            invariant
                self.well_formed(),
                self.source == old(self).source,
                self.position >= start == old(self).position + 1,
                grammar::char_at(old(self).source@, old(self).position as int) == Some('['),
                grammar::array_rest(self.source@, start, Seq::empty()) == grammar::array_rest(
                    self.source@,
                    self.position as int,
                    literal::literal_views(values@),
                ),
            decreases self.source@.len() - self.position,
        {
            let ghost from = self.position as int;
            match self.skip_trivia() {
                Ok(_) => {},
                Err(message) => {
                    return Err(message);
                },
            }
            if self.consume_char(']') {
                return Ok(Literal::Array(values));
            }
            let value = match self.parse_value() {
                Ok(value) => value,
                Err(message) => {
                    return Err(message);
                },
            };
            let ghost before = values@;
            values.push(value);
            assert(values@.drop_last() == before);
            assert(grammar::array_rest(self.source@, from, literal::literal_views(before))
                == grammar::array_tail(
                self.source@,
                self.position as int,
                literal::literal_views(values@),
            ));
            match self.skip_trivia() {
                Ok(_) => {},
                Err(message) => {
                    return Err(message);
                },
            }
            if self.consume_char(']') {
                return Ok(Literal::Array(values));
            }
            match self.expect_char(',') {
                Ok(_) => {},
                Err(message) => {
                    return Err(message);
                },
            }
        }
    }

    /// Reads any literal.
    pub fn parse_value(&mut self) -> (res: Result<Literal, String>)
        requires
            old(self).well_formed(),
        ensures
            final(self).well_formed(),
            final(self).source == old(self).source,
            final(self).position >= old(self).position,
            res is Ok ==> final(self).position > old(self).position,
            grammar::value_literal(old(self).source@, old(self).position as int) == (
                literal_outcome(res),
                final(self).position as int,
            ),
        decreases old(self).source@.len() - old(self).position, 2int,
    {
        match self.skip_trivia() {
            Ok(_) => {},
            Err(message) => {
                return Err(message);
            },
        }
        proof {
            reveal_strlit("true");
            reveal_strlit("false");
            reveal_strlit("null");
        }
        match self.peek_char() {
            Some(c) => {
                if c == '{' {
                    self.parse_object()
                } else if c == '[' {
                    self.parse_array()
                } else if c == '"' || c == '\'' {
                    match self.parse_string() {
                        Ok(value) => Ok(Literal::Text(value)),
                        Err(message) => Err(message),
                    }
                } else if c == '-' || text::char_is_ascii_digit(c) {
                    match self.parse_number() {
                        Ok(number) => Ok(Literal::Number(number)),
                        Err(message) => Err(message),
                    }
                } else if self.consume_keyword("true") {
                    Ok(Literal::Bool(true))
                } else if self.consume_keyword("false") {
                    Ok(Literal::Bool(false))
                } else if self.consume_keyword("null") {
                    Ok(Literal::Null)
                } else {
                    let shown = text::debug_char(c);
                    Err(
                        text::joined(
                            "workflow meta must be a pure literal; unexpected ",
                            shown.as_str(),
                        ),
                    )
                }
            },
            None => Err("workflow meta literal is missing".to_string()),
        }
    }
}

/// The character that a one-letter escape stands for.
fn plain_escape(c: char) -> (res: Option<char>)
    ensures
        res == grammar::simple_escape(c),
{
    match c {
        '\\' | '/' | '"' | '\'' => Some(c),
        'b' => Some('\u{8}'),
        'f' => Some('\u{c}'),
        'n' => Some('\n'),
        'r' => Some('\r'),
        't' => Some('\t'),
        _ => None,
    }
}

/// Whether an entry has the key `key`.
fn contains_key(entries: &Vec<LiteralEntry>, key: &str) -> (res: bool)
    ensures
        res == grammar::has_key(literal::entry_views(entries@), key@),
{
    proof {
        literal::lemma_entry_views(entries@);
    }
    let mut i: usize = 0;
    while i < entries.len()
        invariant
            i <= entries@.len(),
            literal::entry_views(entries@).len() == entries@.len(),
            forall|j: int|
                0 <= j < entries@.len() ==> #[trigger] literal::entry_views(entries@)[j] == (
                    entries@[j].key@,
                    entries@[j].value@,
                ),
            forall|j: int| 0 <= j < i ==> (#[trigger] literal::entry_views(entries@)[j]).0 != key@,
        decreases entries@.len() - i,
    {
        if text::same_text(entries[i].key.as_str(), key) {
            assert(literal::entry_views(entries@)[i as int].0 == key@);
            return true;
        }
        i = i + 1;
    }
    false
}

/// Adds an entry at its place in the order of the keys.
fn insert_entry(entries: &mut Vec<LiteralEntry>, key: String, value: Literal)
    ensures
        literal::entry_views(final(entries)@) == grammar::with_entry(
            literal::entry_views(old(entries)@),
            key@,
            value@,
        ),
{
    let ghost views = literal::entry_views(entries@);
    let ghost before = entries@;
    proof {
        literal::lemma_entry_views(entries@);
        assert(views.skip(0) == views);
    }
    let mut slot: usize = 0;
    while slot < entries.len() && text::str_before(entries[slot].key.as_str(), key.as_str())
        invariant
            slot <= entries@.len(),
            entries@ == before,
            views.len() == entries@.len(),
            forall|j: int|
                0 <= j < entries@.len() ==> #[trigger] views[j] == (
                    entries@[j].key@,
                    entries@[j].value@,
                ),
            grammar::entry_slot(views, key@) == slot + grammar::entry_slot(
                views.skip(slot as int),
                key@,
            ),
        decreases entries@.len() - slot,
    {
        assert(views.skip(slot as int)[0] == views[slot as int]);
        assert(views.skip(slot as int).skip(1) == views.skip(slot + 1));
        slot = slot + 1;
    }
    assert(slot < views.len() ==> views.skip(slot as int)[0] == views[slot as int]);
    entries.insert(slot, LiteralEntry { key, value });
    proof {
        literal::lemma_entry_views(entries@);
        assert(literal::entry_views(entries@) =~= views.insert(slot as int, (key@, value@)));
    }
}

/// The number of bytes of a character in UTF-8.
fn width_of(c: char) -> (res: usize)
    ensures
        res == grammar::utf8_width(c),
        1 <= res <= 4,
{
    proof {
        grammar::lemma_utf8_width(c);
    }
    let code = c as u32;
    if code < 0x80 {
        1
    } else if code < 0x800 {
        2
    } else if code < 0x10000 {
        3
    } else {
        4
    }
}

/// The value of a short hexadecimal number.
#[verifier::loop_isolation(false)]
fn hex_value(digits: &str) -> (res: Option<u32>)
    requires
        digits@.len() <= 4,
    ensures
        match res {
            Some(value) => grammar::hex_number(digits@) == Some(value as int),
            None => grammar::hex_number(digits@) is None,
        },
{
    let chars = text::chars_of(digits);
    let from: usize = if chars.len() > 0 && chars[0] == '+' {
        1
    } else {
        0
    };
    if from == chars.len() {
        return None;
    }
    let ghost all = chars@.skip(from as int);
    assert(from == 0 ==> all == chars@);
    let mut value: u32 = 0;
    let mut i: usize = from;
    assert(chars@.subrange(from as int, from as int) == Seq::<char>::empty());
    while i < chars.len()
        invariant
            from <= i <= chars@.len() <= 4,
            all == chars@.skip(from as int),
            grammar::hex_digits(chars@.subrange(from as int, i as int)) == Some(value as int),
            i - from == 0 ==> value == 0,
            i - from == 1 ==> value < 0x10,
            i - from == 2 ==> value < 0x100,
            i - from == 3 ==> value < 0x1000,
            value < 0x10000,
        decreases chars@.len() - i,
    {
        let c = chars[i];
        let digit: u32 = if '0' <= c && c <= '9' {
            c as u32 - '0' as u32
        } else if 'a' <= c && c <= 'f' {
            c as u32 - 'a' as u32 + 10
        } else if 'A' <= c && c <= 'F' {
            c as u32 - 'A' as u32 + 10
        } else {
            proof {
                assert(chars@.subrange(from as int, i + 1).drop_last() == chars@.subrange(
                    from as int,
                    i as int,
                ));
                grammar::lemma_hex_prefix(all, i + 1 - from);
                assert(all.take(i + 1 - from) == chars@.subrange(from as int, i + 1));
            }
            return None;
        };
        assert(chars@.subrange(from as int, i + 1).drop_last() == chars@.subrange(
            from as int,
            i as int,
        ));
        value = value * 16 + digit;
        i = i + 1;
    }
    assert(chars@.subrange(from as int, i as int) == all);
    Some(value)
}

/// How a workflow's source begins.
pub const META_PREFIX: &'static str = "export const meta";

/// A workflow's declaration and the program that follows it.
#[derive(Debug, PartialEq, Eq)]
pub struct ParsedWorkflow {
    pub meta: WorkflowMeta,
    pub body: String,
}

/// The literal that a source declares: what follows `export const meta =`.
pub open spec fn literal_source(source: Seq<char>) -> Result<Seq<char>, Seq<char>> {
    let declaration = text::trim_start(source);
    if !text::occurs_at(declaration, META_PREFIX@, 0) {
        Err("workflow must start with `export const meta = { ... }`"@)
    } else {
        let assignment = text::trim_start(declaration.skip(META_PREFIX@.len() as int));
        if assignment.len() == 0 || assignment[0] != '=' {
            Err("workflow meta declaration must assign a literal object"@)
        } else {
            Ok(text::trim_start(assignment.skip(1)))
        }
    }
}

/// What follows a literal that ends at `end`: one semicolon is left out.
pub open spec fn body_from(literal: Seq<char>, end: int) -> Seq<char> {
    if grammar::char_at(literal, end) == Some(';') {
        literal.skip(end + 1)
    } else {
        literal.skip(end)
    }
}

/// What a workflow's source holds: its declaration and its body, or what is wrong with it.
pub open spec fn workflow(source: Seq<char>) -> Result<(MetaView, Seq<char>), Seq<char>> {
    match literal_source(source) {
        Err(message) => Err(message),
        Ok(literal) => match grammar::value_literal(literal, 0) {
            (Err(message), _) => Err(message),
            (Ok(value), after_value) => match grammar::trivia(literal, after_value) {
                (Err(message), _) => Err(message),
                (Ok(_), end) => match meta::meta_value(value) {
                    Err(message) => Err("invalid workflow meta: "@ + message),
                    Ok(declared) => match meta::meta_problem(declared) {
                        Some(message) => Err(message),
                        None => Ok((declared, body_from(literal, end))),
                    },
                },
            },
        },
    }
}

/// The views of a parsed workflow, or the message.
pub open spec fn workflow_outcome(res: Result<ParsedWorkflow, String>) -> Result<
    (MetaView, Seq<char>),
    Seq<char>,
> {
    match res {
        Ok(parsed) => Ok((parsed.meta@, parsed.body@)),
        Err(message) => Err(message@),
    }
}

/// The text of the literal that a source declares.
fn declared_literal(source: &str) -> (res: Result<String, String>)
    ensures
        text_outcome(res) == literal_source(source@),
{
    let chars = text::chars_of(source);
    let prefix = text::chars_of(META_PREFIX);
    let length: usize = chars.len();
    assert(chars@.skip(0) == chars@);
    let start = text::leading_whitespace(&chars, 0);
    let ghost declaration = text::trim_start(source@);
    assert(text::occurs_at(declaration, prefix@, 0) == text::occurs_at(
        chars@,
        prefix@,
        start as int,
    )) by {
        if start + prefix@.len() <= chars@.len() {
            assert(declaration.subrange(0, prefix@.len() as int) == chars@.subrange(
                start as int,
                start + prefix@.len(),
            ));
        }
    }
    if !text::part_at(&chars, &prefix, start) {
        return Err("workflow must start with `export const meta = { ... }`".to_string());
    }
    assert(start + prefix@.len() <= length);
    let after_prefix: usize = start + prefix.len();
    assert(declaration.skip(prefix@.len() as int) == chars@.skip(after_prefix as int));
    let equals = text::leading_whitespace(&chars, after_prefix);
    if equals >= chars.len() || chars[equals] != '=' {
        return Err("workflow meta declaration must assign a literal object".to_string());
    }
    assert(chars@.skip(equals as int).skip(1) == chars@.skip(equals + 1));
    let from = text::leading_whitespace(&chars, equals + 1);
    assert(chars@.skip(from as int) == chars@.subrange(from as int, chars@.len() as int));
    Ok(text::string_of(&chars, from, length))
}

/// Reads a workflow: its `meta` declaration, a pure literal, and the body after it.
pub fn parse(source: &str) -> (res: Result<ParsedWorkflow, String>)
    ensures
        workflow_outcome(res) == workflow(source@),
{
    let declared = match declared_literal(source) {
        Ok(declared) => declared,
        Err(message) => {
            return Err(message);
        },
    };
    let mut parser = LiteralParser::new(declared.as_str());
    let value = match parser.parse_value() {
        Ok(value) => value,
        Err(message) => {
            return Err(message);
        },
    };
    match parser.skip_trivia() {
        Ok(_) => {},
        Err(message) => {
            return Err(message);
        },
    }
    let mut body_start: usize = parser.position;
    if parser.peek_char() == Some(';') {
        body_start = body_start + 1;
    }
    let meta = match meta::read_meta(&value) {
        Ok(meta) => meta,
        Err(message) => {
            return Err(text::joined("invalid workflow meta: ", message.as_str()));
        },
    };
    match meta::validate_meta(&meta) {
        Ok(_) => {},
        Err(message) => {
            return Err(message);
        },
    }
    let end: usize = parser.source.len();
    let body = text::string_of(&parser.source, body_start, end);
    assert(parser.source@.skip(body_start as int) == parser.source@.subrange(
        body_start as int,
        end as int,
    ));
    Ok(ParsedWorkflow { meta, body })
}

/// Whether `text` is what is left of `source` after some first characters.
pub open spec fn is_rest_of(source: Seq<char>, rest: Seq<char>) -> bool {
    rest.len() <= source.len() && source.skip(source.len() - rest.len()) == rest
}

proof fn lemma_rest_of(source: Seq<char>, rest: Seq<char>, from: int)
    requires
        is_rest_of(source, rest),
        0 <= from <= rest.len(),
    ensures
        is_rest_of(source, rest.skip(from)),
{
    let start = source.len() - rest.len();
    assert(source.skip(start).skip(from) == source.skip(start + from));
}

proof fn lemma_trim_start_is_rest(source: Seq<char>, rest: Seq<char>)
    requires
        is_rest_of(source, rest),
    ensures
        is_rest_of(source, text::trim_start(rest)),
    decreases rest.len(),
{
    if rest.len() > 0 && text::is_whitespace(rest[0]) {
        lemma_rest_of(source, rest, 1);
        lemma_trim_start_is_rest(source, rest.skip(1));
    }
}

/// A workflow that is accepted has a sound declaration, and its body is the source's own text,
/// unchanged, after the declaration.
pub proof fn accepted_workflows(source: Seq<char>)
    requires
        workflow(source) is Ok,
    ensures
        meta::meta_problem(workflow(source)->Ok_0.0) is None,
        is_rest_of(source, workflow(source)->Ok_0.1),
{
    assert(source.skip(0) == source);
    assert(is_rest_of(source, source));
    lemma_trim_start_is_rest(source, source);
    let declaration = text::trim_start(source);
    lemma_rest_of(source, declaration, META_PREFIX@.len() as int);
    lemma_trim_start_is_rest(source, declaration.skip(META_PREFIX@.len() as int));
    let assignment = text::trim_start(declaration.skip(META_PREFIX@.len() as int));
    lemma_rest_of(source, assignment, 1);
    lemma_trim_start_is_rest(source, assignment.skip(1));
    let literal = literal_source(source)->Ok_0;
    grammar::literals_advance(literal, 0);
    let after_value = grammar::value_literal(literal, 0).1;
    grammar::lemma_trivia(literal, after_value);
    let end = grammar::trivia(literal, after_value).1;
    lemma_rest_of(source, literal, end);
    if grammar::char_at(literal, end) == Some(';') {
        lemma_rest_of(source, literal, end + 1);
    }
}

} // verus!
