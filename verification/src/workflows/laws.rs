//! What holds of the programs of runs, whatever they are made of.

use vstd::prelude::*;
use crate::paths;
use crate::paths::PathBase;
use crate::text;
use crate::workflows::grammar;
use crate::workflows::handler;
use crate::workflows::handler::{CallSourceView, ToolNameView, WorkflowArgs};
use crate::workflows::journal;
use crate::workflows::journal::{LineView, RecordView};
use crate::workflows::literal::LiteralView;
use crate::workflows::meta;
use crate::workflows::meta::{MetaView, PhaseView};
use crate::workflows::parser;
use crate::workflows::runtime;
use crate::workflows::runtime::RuntimeInput;
use crate::workflows::store;
use crate::workflows::store::SelectionView;
use crate::workflows::tools;
use crate::workflows::tools::ParameterType;

verus! {

/// Texts with separators between them begin with the first text.
proof fn lemma_separated_front(parts: Seq<Seq<char>>, separator: Seq<char>)
    requires
        parts.len() > 1,
    ensures
        text::separated(parts, separator) == parts[0] + separator + text::separated(
            parts.skip(1),
            separator,
        ),
    decreases parts.len(),
{
    let first = parts.drop_last();
    let rest = parts.skip(1);
    assert(rest.last() == parts.last());
    if parts.len() == 2 {
        assert(first[0] == parts[0]);
        assert(rest[0] == parts[1]);
        assert(text::separated(first, separator) == parts[0]);
        assert(text::separated(rest, separator) == parts[1]);
    } else {
        lemma_separated_front(first, separator);
        assert(first.skip(1) =~= rest.drop_last());
        assert(first[0] == parts[0]);
        assert(text::separated(parts, separator) =~= parts[0] + separator + text::separated(
            rest,
            separator,
        ));
    }
}

/// The place behind a JSON value that begins at `at`: the comma or the closing bracket that follows
/// it. `depth` brackets are open by then, and `quoted` tells whether a string is.
pub open spec fn item_end(source: Seq<char>, at: int, depth: nat, quoted: bool) -> int
    decreases source.len() - at,
{
    if at < 0 || at >= source.len() {
        at
    } else if quoted {
        if source[at] == '\\' {
            if at + 1 < source.len() {
                item_end(source, at + 2, depth, true)
            } else {
                at + 2
            }
        } else {
            item_end(source, at + 1, depth, source[at] != '"')
        }
    } else if source[at] == '"' {
        item_end(source, at + 1, depth, true)
    } else if source[at] == '{' || source[at] == '[' {
        item_end(source, at + 1, depth + 1, false)
    } else if source[at] == '}' || source[at] == ']' {
        if depth == 0 {
            at
        } else {
            item_end(source, at + 1, (depth - 1) as nat, false)
        }
    } else if source[at] == ',' && depth == 0 {
        at
    } else {
        item_end(source, at + 1, depth, false)
    }
}

/// Whether a text is one item of a JSON array: its brackets and strings are closed, and no comma is
/// outside of them.
pub open spec fn is_item(value: Seq<char>) -> bool {
    item_end(value.push(','), 0, 0, false) == value.len()
}

pub proof fn lemma_item_end(source: Seq<char>, at: int, depth: nat, quoted: bool)
    ensures
        at <= item_end(source, at, depth, quoted),
    decreases source.len() - at,
{
    if at < 0 || at >= source.len() {
    } else if quoted {
        if source[at] == '\\' {
            if at + 1 < source.len() {
                lemma_item_end(source, at + 2, depth, true);
            }
        } else {
            lemma_item_end(source, at + 1, depth, source[at] != '"');
        }
    } else if source[at] == '"' {
        lemma_item_end(source, at + 1, depth, true);
    } else if source[at] == '{' || source[at] == '[' {
        lemma_item_end(source, at + 1, depth + 1, false);
    } else if source[at] == '}' || source[at] == ']' {
        if depth > 0 {
            lemma_item_end(source, at + 1, (depth - 1) as nat, false);
        }
    } else {
        lemma_item_end(source, at + 1, depth, false);
    }
}

/// What is an item by itself is one wherever it stands, inside of any brackets.
proof fn lemma_item_anywhere(
    value: Seq<char>,
    i: int,
    depth: nat,
    quoted: bool,
    source: Seq<char>,
    from: int,
    around: nat,
)
    requires
        0 <= i <= value.len(),
        0 <= from,
        from + value.len() <= source.len(),
        source.subrange(from, from + value.len()) == value,
        item_end(value.push(','), i, depth, quoted) == value.len(),
    ensures
        item_end(source, from + i, depth + around, quoted) == item_end(
            source,
            from + value.len(),
            around,
            false,
        ),
    decreases value.len() - i,
{
    let own = value.push(',');
    let past = value.len() + 1int;
    assert(item_end(own, past, depth, true) == past);
    assert(item_end(own, past, depth, false) == past);
    if i < value.len() {
        assert(own[i] == value[i]);
        assert(source.subrange(from, from + value.len())[i] == source[from + i]);
        let c = value[i];
        if quoted {
            if c == '\\' {
                if i + 2 <= value.len() {
                    lemma_item_anywhere(value, i + 2, depth, true, source, from, around);
                }
            } else {
                lemma_item_anywhere(value, i + 1, depth, c != '"', source, from, around);
            }
        } else if c == '"' {
            lemma_item_anywhere(value, i + 1, depth, true, source, from, around);
        } else if c == '{' || c == '[' {
            lemma_item_anywhere(value, i + 1, depth + 1, false, source, from, around);
        } else if c == '}' || c == ']' {
            lemma_item_anywhere(value, i + 1, (depth - 1) as nat, false, source, from, around);
        } else {
            lemma_item_anywhere(value, i + 1, depth, false, source, from, around);
        }
    } else {
        assert(own[i] == ',');
    }
}

/// Behind characters that mean nothing outside of strings, nothing has changed.
proof fn lemma_plain(source: Seq<char>, at: int, upto: int, depth: nat)
    requires
        0 <= at <= upto <= source.len(),
        forall|i: int|
            at <= i < upto ==> (#[trigger] source[i]) != '"' && source[i] != '{' && source[i] != '}'
                && source[i] != '[' && source[i] != ']' && source[i] != ',',
    ensures
        item_end(source, at, depth, false) == item_end(source, upto, depth, false),
    decreases upto - at,
{
    if at < upto {
        lemma_plain(source, at + 1, upto, depth);
    }
}

/// A string that is written as JSON ends where it was meant to end.
proof fn lemma_string(source: Seq<char>, at: int, value: Seq<char>, depth: nat)
    requires
        0 <= at,
        at + runtime::json_escaped(value).len() < source.len(),
        source.subrange(at, at + runtime::json_escaped(value).len()) == runtime::json_escaped(value),
        source[at + runtime::json_escaped(value).len()] == '"',
    ensures
        item_end(source, at, depth, true) == item_end(
            source,
            at + runtime::json_escaped(value).len() + 1,
            depth,
            false,
        ),
    decreases value.len(),
{
    let written = runtime::json_escaped(value);
    if value.len() > 0 {
        let first = runtime::json_escape(value[0]);
        let rest = runtime::json_escaped(value.skip(1));
        runtime::lemma_escape(value[0]);
        assert forall|i: int| 0 <= i < written.len() implies source[at + i] == #[trigger] written[i] by {
            assert(source.subrange(at, at + written.len())[i] == source[at + i]);
        }
        assert(source[at] == written[0] && written[0] == first[0]);
        assert(source.subrange(at + first.len(), at + written.len()) =~= rest) by {
            assert forall|i: int| 0 <= i < rest.len() implies source[at + first.len() + i]
                == rest[i] by {
                assert(written[first.len() + i] == rest[i]);
            }
        }
        lemma_string(source, at + first.len(), value.skip(1), depth);
        if first.len() == 6 {
            assert(source[at + 2] == written[2] && written[2] == first[2]);
            assert(source[at + 3] == written[3] && written[3] == first[3]);
            assert(source[at + 4] == written[4] && written[4] == first[4]);
            assert(source[at + 5] == written[5] && written[5] == first[5]);
            let next = item_end(source, at + 6, depth, true);
            assert(item_end(source, at + 5, depth, true) == next);
            assert(item_end(source, at + 4, depth, true) == next);
            assert(item_end(source, at + 3, depth, true) == next);
            assert(item_end(source, at + 2, depth, true) == next);
        }
    }
}

/// Decimal digits mean nothing else.
proof fn lemma_digits(n: int)
    requires
        0 <= n,
    ensures
        text::decimal(n).len() > 0,
        forall|i: int|
            0 <= i < text::decimal(n).len() ==> '0' <= (#[trigger] text::decimal(n)[i]) <= '9',
    decreases n,
{
    if n >= 10 {
        lemma_digits(n / 10);
    }
}

/// Inside of a string, characters that do not end it mean nothing.
proof fn lemma_quoted(source: Seq<char>, at: int, upto: int, depth: nat)
    requires
        0 <= at <= upto < source.len(),
        source[upto] == '"',
        forall|i: int|
            at <= i < upto ==> (#[trigger] source[i]) != '"' && source[i] != '\\',
    ensures
        item_end(source, at, depth, true) == item_end(source, upto + 1, depth, false),
    decreases upto - at,
{
    if at < upto {
        lemma_quoted(source, at + 1, upto, depth);
    }
}

/// Where a record's parts stand.
pub open spec fn is_laid_out(source: Seq<char>, record: RecordView) -> bool {
    let digits = text::decimal(record.index as int);
    let key = runtime::json_string(record.key);
    let a = 9int;
    let b = a + digits.len();
    let c = b + 7;
    let d = c + key.len();
    let e = d + 9;
    let f = e + record.value.len();
    &&& source.len() == f + 2
    &&& source.subrange(0, a) == "{\"index\":"@
    &&& source.subrange(a, b) == digits
    &&& source.subrange(b, c) == ",\"key\":"@
    &&& source.subrange(c, d) == key
    &&& source.subrange(d, e) == ",\"value\":"@
    &&& source.subrange(e, f) == record.value
    &&& source[f] == '}'
    &&& source[f + 1] == ','
}

proof fn lemma_laid_out(record: RecordView)
    ensures
        is_laid_out(journal::record_json(record).push(','), record),
        journal::record_json(record)[0] == '{',
        journal::record_json(record).len() + 1 == journal::record_json(record).push(',').len(),
{
    reveal_strlit("{\"index\":");
    reveal_strlit(",\"key\":");
    reveal_strlit(",\"value\":");
    reveal_strlit("}");
    let digits = text::decimal(record.index as int);
    let key = runtime::json_string(record.key);
    let source = journal::record_json(record).push(',');
    let a = 9int;
    let b = a + digits.len();
    let c = b + 7;
    let d = c + key.len();
    let e = d + 9;
    let f = e + record.value.len();
    assert(source.subrange(0, a) =~= "{\"index\":"@);
    assert(source.subrange(a, b) =~= digits);
    assert(source.subrange(b, c) =~= ",\"key\":"@);
    assert(source.subrange(c, d) =~= key);
    assert(source.subrange(d, e) =~= ",\"value\":"@);
    assert(source.subrange(e, f) =~= record.value);
}

/// The first key of a record.
proof fn lemma_first_key(source: Seq<char>)
    requires
        source.len() > 9,
        source.subrange(0, 9) == "{\"index\":"@,
    ensures
        item_end(source, 0, 0, false) == item_end(source, 9, 1, false),
{
    reveal_strlit("{\"index\":");
    let part = source.subrange(0, 9);
    assert(source[0] == part[0] && source[1] == part[1] && source[2] == part[2] && source[3]
        == part[3] && source[4] == part[4] && source[5] == part[5] && source[6] == part[6]
        && source[7] == part[7] && source[8] == part[8]);
    assert(item_end(source, 0, 0, false) == item_end(source, 1, 1, false));
    assert(item_end(source, 1, 1, false) == item_end(source, 2, 1, true));
    lemma_quoted(source, 2, 7, 1);
    assert(item_end(source, 8, 1, false) == item_end(source, 9, 1, false));
}

/// A further key of a record.
proof fn lemma_further_key(source: Seq<char>, at: int, part: Seq<char>)
    requires
        part == ",\"key\":"@ || part == ",\"value\":"@,
        0 <= at,
        at + part.len() < source.len(),
        source.subrange(at, at + part.len()) == part,
    ensures
        item_end(source, at, 1, false) == item_end(source, at + part.len(), 1, false),
{
    reveal_strlit(",\"key\":");
    reveal_strlit(",\"value\":");
    let n = part.len() as int;
    assert forall|i: int| 0 <= i < n implies source[at + i] == #[trigger] part[i] by {
        assert(source.subrange(at, at + n)[i] == source[at + i]);
    }
    assert(source[at] == part[0] && source[at + 1] == part[1] && source[at + n - 2] == part[n - 2]
        && source[at + n - 1] == part[n - 1]);
    assert(item_end(source, at, 1, false) == item_end(source, at + 1, 1, false));
    assert(item_end(source, at + 1, 1, false) == item_end(source, at + 2, 1, true));
    assert forall|i: int| at + 2 <= i < at + n - 2 implies (#[trigger] source[i]) != '"' && source[i]
        != '\\' by {
        assert(source[at + (i - at)] == part[i - at]);
    }
    lemma_quoted(source, at + 2, at + n - 2, 1);
    assert(item_end(source, at + n - 1, 1, false) == item_end(source, at + n, 1, false));
}

/// A record is one item of the journal's array, provided that its value is a JSON value.
proof fn lemma_record_is_item(record: RecordView)
    requires
        is_item(record.value),
    ensures
        is_item(journal::record_json(record)),
        journal::record_json(record).len() > 0,
        journal::record_json(record)[0] == '{',
{
    lemma_laid_out(record);
    lemma_laid_out_is_item(journal::record_json(record).push(','), record);
}

proof fn lemma_laid_out_is_item(source: Seq<char>, record: RecordView)
    requires
        is_laid_out(source, record),
        is_item(record.value),
    ensures
        item_end(source, 0, 0, false) == source.len() - 1,
{
    let digits = text::decimal(record.index as int);
    let escaped = runtime::json_escaped(record.key);
    let key = runtime::json_string(record.key);
    let a = 9int;
    let b = a + digits.len();
    let c = b + 7;
    let d = c + key.len();
    let e = d + 9;
    let f = e + record.value.len();
    lemma_digits(record.index as int);
    lemma_first_key(source);
    assert forall|i: int| a <= i < b implies '0' <= #[trigger] source[i] <= '9' by {
        assert(source.subrange(a, b)[i - a] == source[i]);
    }
    lemma_plain(source, a, b, 1);
    assert(",\"key\":"@.len() == 7) by {
        reveal_strlit(",\"key\":");
    }
    assert(",\"value\":"@.len() == 9) by {
        reveal_strlit(",\"value\":");
    }
    lemma_further_key(source, b, ",\"key\":"@);
    assert(source[c] == '"') by {
        assert(source.subrange(c, d)[0] == source[c]);
    }
    assert(item_end(source, c, 1, false) == item_end(source, c + 1, 1, true));
    assert(source.subrange(c + 1, c + 1 + escaped.len()) =~= escaped) by {
        assert forall|i: int| 0 <= i < escaped.len() implies source[c + 1 + i] == escaped[i] by {
            assert(source.subrange(c, d)[i + 1] == source[c + 1 + i]);
        }
    }
    assert(source[d - 1] == '"') by {
        assert(source.subrange(c, d)[d - 1 - c] == source[d - 1]);
    }
    lemma_string(source, c + 1, record.key, 1);
    lemma_further_key(source, d, ",\"value\":"@);
    lemma_item_anywhere(record.value, 0, 0, false, source, e, 1);
    assert(item_end(source, f, 1, false) == item_end(source, f + 1, 0, false));
}

/// The items of a JSON array from `at` on, up to its closing bracket.
pub open spec fn items_from(source: Seq<char>, at: int) -> Seq<Seq<char>>
    decreases source.len() - at,
{
    let end = item_end(source, at, 0, false);
    proof {
        lemma_item_end(source, at, 0, false);
    }
    if 0 <= at <= end < source.len() && source[end] == ',' {
        seq![source.subrange(at, end)] + items_from(source, end + 1)
    } else {
        seq![source.subrange(at, end)]
    }
}

/// The items of a JSON array.
pub open spec fn array_items(array: Seq<char>) -> Seq<Seq<char>> {
    if array.len() > 1 && array[1] == ']' {
        Seq::empty()
    } else {
        items_from(array, 1)
    }
}

proof fn lemma_items(before: Seq<char>, parts: Seq<Seq<char>>, after: Seq<char>)
    requires
        parts.len() > 0,
        forall|i: int| 0 <= i < parts.len() ==> is_item(#[trigger] parts[i]),
    ensures
        items_from(
            before + text::separated(parts, seq![',']) + seq![']'] + after,
            before.len() as int,
        ) == parts,
    decreases parts.len(),
{
    let source = before + text::separated(parts, seq![',']) + seq![']'] + after;
    let at = before.len() as int;
    let end = at + parts[0].len();
    assert(is_item(parts[0]));
    if parts.len() == 1 {
        assert(source.subrange(at, end) =~= parts[0]);
        assert(source[end] == ']');
        lemma_item_anywhere(parts[0], 0, 0, false, source, at, 0);
        assert(items_from(source, at) =~= parts);
    } else {
        lemma_separated_front(parts, seq![',']);
        let rest = parts.skip(1);
        let next = before + parts[0] + seq![','];
        assert(next + text::separated(rest, seq![',']) + seq![']'] + after =~= source);
        assert forall|i: int| 0 <= i < rest.len() implies is_item(#[trigger] rest[i]) by {
            assert(rest[i] == parts[i + 1]);
        }
        lemma_items(next, rest, after);
        assert(source.subrange(at, end) =~= parts[0]);
        assert(source[end] == ',');
        lemma_item_anywhere(parts[0], 0, 0, false, source, at, 0);
        assert(items_from(source, at) =~= parts);
    }
}

/// Whether every record of a journal holds a JSON value.
pub open spec fn holds_values(journal: Seq<Option<RecordView>>) -> bool {
    forall|i: int|
        0 <= i < journal.len() ==> (#[trigger] journal[i] matches Some(record) ==> is_item(
            record.value,
        ))
}

/// Whether an item of the journal's array tells a place of the journal: null where it is empty, else
/// an object with the record's index, its key as a string, and its value.
pub open spec fn tells_place(item: Seq<char>, place: Option<RecordView>) -> bool {
    match place {
        None => item == "null"@,
        Some(record) => exists|digits: Seq<char>, key: Seq<char>|
            item == "{\"index\":"@ + digits + ",\"key\":"@ + key + ",\"value\":"@ + record.value
                + "}"@ && #[trigger] text::number_of(digits) == record.index
                && #[trigger] grammar::string_literal(key, 0) == (
                Ok::<Seq<char>, Seq<char>>(record.key),
                key.len() as int,
            ),
    }
}

proof fn lemma_place_items(journal: Seq<Option<RecordView>>)
    requires
        holds_values(journal),
    ensures
        array_items(journal::journal_json(journal)) == journal.map_values(
            |place: Option<RecordView>| journal::place_json(place),
        ),
{
    let parts = journal.map_values(|place: Option<RecordView>| journal::place_json(place));
    let array = journal::journal_json(journal);
    reveal_strlit("[");
    reveal_strlit("]");
    reveal_strlit(",");
    reveal_strlit("null");
    assert("["@ =~= seq!['[']);
    assert("]"@ =~= seq![']']);
    assert(","@ =~= seq![',']);
    if journal.len() == 0 {
        assert(array[1] == ']');
        assert(parts =~= Seq::<Seq<char>>::empty());
    } else {
        assert forall|i: int| 0 <= i < parts.len() implies is_item(#[trigger] parts[i])
            && parts[i].len() > 0 && parts[i][0] != ']' by {
            match journal[i] {
                Some(record) => lemma_record_is_item(record),
                None => {
                    let source = "null"@.push(',');
                    assert(source[0] == 'n' && source[1] == 'u' && source[2] == 'l' && source[3]
                        == 'l' && source[4] == ',');
                    lemma_plain(source, 0, 4, 0);
                },
            }
        }
        lemma_items(seq!['['], parts, Seq::empty());
        assert(seq!['['] + text::separated(parts, seq![',']) + seq![']'] + Seq::<char>::empty()
            =~= array);
        if parts.len() > 1 {
            lemma_separated_front(parts, seq![',']);
        }
        assert(is_item(parts[0]) && parts[0][0] != ']');
        assert(array[1] == parts[0][0]);
    }
}

/// What a program gets of the journal is an array with an item for each place of it, in order, that
/// tells what is there.
pub proof fn programs_get_the_whole_journal(
    run_id: Seq<char>,
    script_path: Seq<char>,
    body: Seq<char>,
    declared: MetaView,
    args: Seq<char>,
    journal: Seq<Option<RecordView>>,
    concurrency: int,
    which: int,
)
    requires
        holds_values(journal),
        ({
            let values = runtime::runtime_replacements(
                run_id,
                script_path,
                body,
                declared,
                args,
                journal,
                concurrency,
            );
            0 <= which < values.len() && values[which].0 == "__CODEX_JOURNAL__"@
        }),
    ensures
        ({
            let array = runtime::runtime_replacements(
                run_id,
                script_path,
                body,
                declared,
                args,
                journal,
                concurrency,
            )[which].1;
            &&& array.len() > 1 && array[0] == '[' && array[array.len() - 1] == ']'
            &&& array_items(array).len() == journal.len()
            &&& forall|i: int|
                0 <= i < journal.len() ==> tells_place(#[trigger] array_items(array)[i], journal[i])
        }),
{
    lemma_marker_places(run_id, script_path, body, declared, args, journal, concurrency, which);
    let array = journal::journal_json(journal);
    lemma_place_items(journal);
    reveal_strlit("[");
    reveal_strlit("]");
    assert forall|i: int| 0 <= i < journal.len() implies tells_place(
        #[trigger] array_items(array)[i],
        journal[i],
    ) by {
        if let Some(record) = journal[i] {
            let digits = text::decimal(record.index as int);
            let key = runtime::json_string(record.key);
            text::decimals_are_read_back(record.index as int);
            lemma_json_alone(record.key);
            assert(text::number_of(digits) == record.index);
            assert(grammar::string_literal(key, 0) == (
                Ok::<Seq<char>, Seq<char>>(record.key),
                key.len() as int,
            ));
        }
    }
}

proof fn lemma_json_alone(value: Seq<char>)
    ensures
        grammar::string_literal(runtime::json_string(value), 0) == (
            Ok::<Seq<char>, Seq<char>>(value),
            runtime::json_string(value).len() as int,
        ),
{
    let none = Seq::<char>::empty();
    runtime::json_strings_are_read_back(none, value, none);
    assert(none + runtime::json_string(value) + none =~= runtime::json_string(value));
}

/// Which value stands for which marker.
proof fn lemma_marker_places(
    run_id: Seq<char>,
    script_path: Seq<char>,
    body: Seq<char>,
    declared: MetaView,
    args: Seq<char>,
    journal: Seq<Option<RecordView>>,
    concurrency: int,
    which: int,
)
    ensures
        ({
            let values = runtime::runtime_replacements(
                run_id,
                script_path,
                body,
                declared,
                args,
                journal,
                concurrency,
            );
            &&& values.len() == 8
            &&& 0 <= which < 8 ==> {
                &&& values[which].0 == "__CODEX_RUN_ID__"@ ==> which == 0
                &&& values[which].0 == "__CODEX_SCRIPT_PATH__"@ ==> which == 1
                &&& values[which].0 == "__CODEX_WORKFLOW_NAME__"@ ==> which == 2
                &&& values[which].0 == "__CODEX_WORKFLOW_BODY__"@ ==> which == 3
                &&& values[which].0 == "__CODEX_PHASES__"@ ==> which == 4
                &&& values[which].0 == "__CODEX_ARGS__"@ ==> which == 5
                &&& values[which].0 == "__CODEX_JOURNAL__"@ ==> which == 6
                &&& values[which].0 == "__CODEX_CONCURRENCY__"@ ==> which == 7
            }
        }),
{
    reveal_strlit("__CODEX_RUN_ID__");
    reveal_strlit("__CODEX_SCRIPT_PATH__");
    reveal_strlit("__CODEX_WORKFLOW_NAME__");
    reveal_strlit("__CODEX_WORKFLOW_BODY__");
    reveal_strlit("__CODEX_PHASES__");
    reveal_strlit("__CODEX_ARGS__");
    reveal_strlit("__CODEX_JOURNAL__");
    reveal_strlit("__CODEX_CONCURRENCY__");
    assert("__CODEX_RUN_ID__"@[8] == 'R');
    assert("__CODEX_SCRIPT_PATH__"@[8] == 'S');
    assert("__CODEX_WORKFLOW_NAME__"@[8] == 'W' && "__CODEX_WORKFLOW_NAME__"@[17] == 'N');
    assert("__CODEX_WORKFLOW_BODY__"@[8] == 'W' && "__CODEX_WORKFLOW_BODY__"@[17] == 'B');
    assert("__CODEX_PHASES__"@[8] == 'P');
    assert("__CODEX_ARGS__"@[8] == 'A');
    assert("__CODEX_JOURNAL__"@[8] == 'J');
    assert("__CODEX_CONCURRENCY__"@[8] == 'C');
}

/// Two journals that differ in any place give different programs their values.
pub proof fn different_journals_are_told_apart(
    a: Seq<Option<RecordView>>,
    b: Seq<Option<RecordView>>,
)
    requires
        holds_values(a),
        holds_values(b),
        journal::journal_json(a) == journal::journal_json(b),
    ensures
        a == b,
{
    lemma_place_items(a);
    lemma_place_items(b);
    let array = journal::journal_json(a);
    assert(a.len() == array_items(array).len());
    assert(b.len() == array_items(array).len());
    assert forall|i: int| 0 <= i < a.len() implies a[i] == b[i] by {
        assert(journal::place_json(a[i]) == array_items(array)[i]);
        assert(journal::place_json(b[i]) == array_items(array)[i]);
        lemma_same_place(a[i], b[i]);
    }
    assert(a =~= b);
}

proof fn lemma_same_place(a: Option<RecordView>, b: Option<RecordView>)
    requires
        journal::place_json(a) == journal::place_json(b),
    ensures
        a == b,
{
    reveal_strlit("{\"index\":");
    reveal_strlit(",\"key\":");
    reveal_strlit(",\"value\":");
    reveal_strlit("}");
    reveal_strlit("null");
    if let (Some(x), Some(y)) = (a, b) {
        let source = journal::record_json(x);
        let dx = text::decimal(x.index as int);
        let dy = text::decimal(y.index as int);
        lemma_digits(x.index as int);
        lemma_digits(y.index as int);
        assert(dx.len() == dy.len()) by {
            assert(source[9int + dx.len()] == ',');
            assert(journal::record_json(y)[9int + dy.len()] == ',');
            if dx.len() < dy.len() {
                assert(journal::record_json(y)[9int + dx.len()] == dy[dx.len() as int]);
            } else if dy.len() < dx.len() {
                assert(source[9int + dy.len()] == dx[dy.len() as int]);
            }
        }
        assert(dx =~= dy) by {
            assert(source.subrange(9, 9int + dx.len()) =~= dx);
            assert(journal::record_json(y).subrange(9, 9int + dy.len()) =~= dy);
        }
        text::decimals_are_read_back(x.index as int);
        text::decimals_are_read_back(y.index as int);
        let before = "{\"index\":"@ + dx + ",\"key\":"@;
        let after_x = ",\"value\":"@ + x.value + "}"@;
        let after_y = ",\"value\":"@ + y.value + "}"@;
        assert(source =~= before + runtime::json_string(x.key) + after_x);
        assert(source =~= before + runtime::json_string(y.key) + after_y);
        runtime::json_strings_are_read_back(before, x.key, after_x);
        runtime::json_strings_are_read_back(before, y.key, after_y);
        let start = before.len() + runtime::json_string(x.key).len() + 9;
        assert(source.subrange(start as int, source.len() - 1) =~= x.value);
        assert(source.subrange(start as int, source.len() - 1) =~= y.value);
    } else if a is Some || b is Some {
        assert("null"@[0] == 'n');
        if let Some(x) = a {
            assert(journal::record_json(x)[0] == '{');
        }
        if let Some(y) = b {
            assert(journal::record_json(y)[0] == '{');
        }
    }
}

/// One string of an array is read.
proof fn lemma_array_step(
    source: Seq<char>,
    at: int,
    items: Seq<LiteralView>,
    title: Seq<char>,
    end: int,
)
    requires
        0 <= at < end < source.len(),
        source[at] == '"',
        grammar::string_literal(source, at) == (Ok::<Seq<char>, Seq<char>>(title), end),
    ensures
        grammar::array_rest(source, at, items) == grammar::array_tail(
            source,
            end,
            items.push(LiteralView::Text(title)),
        ),
{
    assert(grammar::trivia(source, at) == (Ok::<(), Seq<char>>(()), at)) by {
        lemma_no_trivia(source, at);
    }
    assert(grammar::value_literal(source, at) == (
        Ok::<LiteralView, Seq<char>>(LiteralView::Text(title)),
        end,
    ));
}

proof fn lemma_no_trivia(source: Seq<char>, at: int)
    requires
        0 <= at < source.len(),
        source[at] == '"' || source[at] == ',' || source[at] == ']' || source[at] == '[',
    ensures
        grammar::trivia(source, at) == (Ok::<(), Seq<char>>(()), at),
{
    if text::occurs_at(source, seq!['/', '/'], at) {
        assert(source.subrange(at, at + 2)[0] == source[at]);
    }
    if text::occurs_at(source, seq!['/', '*'], at) {
        assert(source.subrange(at, at + 2)[0] == source[at]);
    }
}

/// What follows a string of an array.
proof fn lemma_array_follow(source: Seq<char>, end: int, items: Seq<LiteralView>)
    requires
        0 <= end < source.len(),
    ensures
        source[end] == ']' ==> grammar::array_tail(source, end, items) == (
            Ok::<LiteralView, Seq<char>>(LiteralView::Array(items)),
            end + 1,
        ),
        source[end] == ',' ==> grammar::array_tail(source, end, items) == grammar::array_rest(
            source,
            end + 1,
            items,
        ),
{
    if source[end] == ']' || source[end] == ',' {
        lemma_no_trivia(source, end);
    }
}

/// Strings as JSON.
pub open spec fn written(titles: Seq<Seq<char>>) -> Seq<Seq<char>> {
    titles.map_values(|title: Seq<char>| runtime::json_string(title))
}

/// Strings as literals.
pub open spec fn literals(titles: Seq<Seq<char>>) -> Seq<LiteralView> {
    titles.map_values(|title: Seq<char>| LiteralView::Text(title))
}

proof fn lemma_titles(
    before: Seq<char>,
    titles: Seq<Seq<char>>,
    after: Seq<char>,
    items: Seq<LiteralView>,
)
    requires
        titles.len() > 0,
    ensures
        grammar::array_rest(
            before + text::separated(written(titles), seq![',']) + seq![']'] + after,
            before.len() as int,
            items,
        ) == (
            Ok::<LiteralView, Seq<char>>(LiteralView::Array(items + literals(titles))),
            before.len() + text::separated(written(titles), seq![',']).len() + 1int,
        ),
    decreases titles.len(),
{
    let parts = written(titles);
    let source = before + text::separated(parts, seq![',']) + seq![']'] + after;
    let at = before.len() as int;
    let end = at + parts[0].len();
    let more = items.push(LiteralView::Text(titles[0]));
    if titles.len() == 1 {
        let tail = seq![']'] + after;
        assert(source =~= before + parts[0] + tail);
        runtime::json_strings_are_read_back(before, titles[0], tail);
        assert(source[at] == parts[0][0]);
        assert(source[end] == tail[0]);
        lemma_array_step(source, at, items, titles[0], end);
        lemma_array_follow(source, end, more);
        assert(items + literals(titles) =~= more);
    } else {
        let rest = titles.skip(1);
        assert(written(rest) =~= parts.skip(1));
        lemma_separated_front(parts, seq![',']);
        let others = text::separated(written(rest), seq![',']);
        let tail = seq![','] + others + seq![']'] + after;
        assert(source =~= before + parts[0] + tail);
        runtime::json_strings_are_read_back(before, titles[0], tail);
        assert(source[at] == parts[0][0]);
        assert(source[end] == tail[0]);
        lemma_array_step(source, at, items, titles[0], end);
        lemma_array_follow(source, end, more);
        let next = before + parts[0] + seq![','];
        assert(next + others + seq![']'] + after =~= source);
        lemma_titles(next, rest, after, more);
        assert(more + literals(rest) =~= items + literals(titles));
    }
}

/// What a program gets of the phases is read, where a literal may stand, as the list of their titles:
/// one for each phase that is declared, in the same order.
pub proof fn programs_get_the_titles_of_the_phases(
    run_id: Seq<char>,
    script_path: Seq<char>,
    body: Seq<char>,
    declared: MetaView,
    args: Seq<char>,
    journal: Seq<Option<RecordView>>,
    concurrency: int,
    which: int,
    before: Seq<char>,
    after: Seq<char>,
)
    requires
        ({
            let values = runtime::runtime_replacements(
                run_id,
                script_path,
                body,
                declared,
                args,
                journal,
                concurrency,
            );
            0 <= which < values.len() && values[which].0 == "__CODEX_PHASES__"@
        }),
    ensures
        ({
            let value = runtime::runtime_replacements(
                run_id,
                script_path,
                body,
                declared,
                args,
                journal,
                concurrency,
            )[which].1;
            let (read, end) = grammar::value_literal(before + value + after, before.len() as int);
            &&& end == before.len() + value.len()
            &&& read matches Ok(LiteralView::Array(titles)) && titles.len() == declared.phases.len()
                && forall|i: int|
                0 <= i < titles.len() ==> #[trigger] titles[i] == LiteralView::Text(
                    declared.phases[i].title,
                )
        }),
{
    lemma_marker_places(run_id, script_path, body, declared, args, journal, concurrency, which);
    let phases = declared.phases;
    let value = runtime::phases_json(phases);
    let titles = phases.map_values(|phase: PhaseView| runtime::json_string(phase.title));
    reveal_strlit("[");
    reveal_strlit("]");
    reveal_strlit(",");
    assert("["@ =~= seq!['[']);
    assert("]"@ =~= seq![']']);
    assert(","@ =~= seq![',']);
    let source = before + value + after;
    let at = before.len() as int;
    assert(source[at] == '[');
    lemma_no_trivia(source, at);
    let opened = before + seq!['['];
    assert(opened + text::separated(titles, seq![',']) + seq![']'] + after =~= source);
    if phases.len() == 0 {
        assert(source[at + 1] == ']');
        lemma_no_trivia(source, at + 1);
    } else {
        let names = phases.map_values(|phase: PhaseView| phase.title);
        assert(written(names) =~= titles);
        lemma_titles(opened, names, after, Seq::empty());
        assert(Seq::<LiteralView>::empty() + literals(names) =~= literals(names));
    }
}

/// What a program gets of the run's ID, of the path of its script, of the workflow's name and of its
/// body are strings that are read as them; what it is called with is put in as it is; and the number
/// of agents at a time is at least one.
pub proof fn programs_get_what_the_run_is_made_of(
    run_id: Seq<char>,
    script_path: Seq<char>,
    body: Seq<char>,
    declared: MetaView,
    args: Seq<char>,
    journal: Seq<Option<RecordView>>,
    concurrency: int,
    which: int,
)
    requires
        0 <= which < runtime::runtime_replacements(
            run_id,
            script_path,
            body,
            declared,
            args,
            journal,
            concurrency,
        ).len(),
    ensures
        ({
            let (marker, value) = runtime::runtime_replacements(
                run_id,
                script_path,
                body,
                declared,
                args,
                journal,
                concurrency,
            )[which];
            let (read, end) = grammar::string_literal(value, 0);
            let whole = end == value.len();
            &&& marker == "__CODEX_RUN_ID__"@ ==> whole && read == Ok::<Seq<char>, Seq<char>>(run_id)
            &&& marker == "__CODEX_SCRIPT_PATH__"@ ==> whole && read == Ok::<Seq<char>, Seq<char>>(
                script_path,
            )
            &&& marker == "__CODEX_WORKFLOW_NAME__"@ ==> whole && read == Ok::<Seq<char>, Seq<char>>(
                declared.name,
            )
            &&& marker == "__CODEX_WORKFLOW_BODY__"@ ==> whole && read == Ok::<Seq<char>, Seq<char>>(
                body,
            )
            &&& marker == "__CODEX_ARGS__"@ ==> value == args
            &&& marker == "__CODEX_CONCURRENCY__"@ ==> text::number_of(value) >= 1 && (concurrency
                >= 1 ==> text::number_of(value) == concurrency)
        }),
{
    lemma_marker_places(run_id, script_path, body, declared, args, journal, concurrency, which);
    lemma_json_alone(run_id);
    lemma_json_alone(script_path);
    lemma_json_alone(declared.name);
    lemma_json_alone(body);
    text::decimals_are_read_back(
        if concurrency < 1 {
            1
        } else {
            concurrency
        },
    );
}

/// Each marker has a value, and wherever the template has the marker, the program has the value.
pub proof fn markers_become_their_values(
    run_id: Seq<char>,
    script_path: Seq<char>,
    body: Seq<char>,
    declared: MetaView,
    args: Seq<char>,
    journal: Seq<Option<RecordView>>,
    concurrency: int,
    template: Seq<char>,
    at: int,
    marker: Seq<char>,
)
    requires
        marker == "__CODEX_RUN_ID__"@ || marker == "__CODEX_SCRIPT_PATH__"@ || marker
            == "__CODEX_WORKFLOW_NAME__"@ || marker == "__CODEX_WORKFLOW_BODY__"@ || marker
            == "__CODEX_PHASES__"@ || marker == "__CODEX_ARGS__"@ || marker == "__CODEX_JOURNAL__"@
            || marker == "__CODEX_CONCURRENCY__"@,
        0 <= at < template.len(),
        text::occurs_at(template, marker, at),
    ensures
        ({
            let values = runtime::runtime_replacements(
                run_id,
                script_path,
                body,
                declared,
                args,
                journal,
                concurrency,
            );
            exists|which: int|
                0 <= which < values.len() && (#[trigger] values[which]).0 == marker
                    && runtime::substitute(template, values, at) == values[which].1
                    + runtime::substitute(template, values, at + marker.len())
        }),
{
    let values = runtime::runtime_replacements(
        run_id,
        script_path,
        body,
        declared,
        args,
        journal,
        concurrency,
    );
    runtime::lemma_marker_at(template, values, at, 0);
    lemma_distinct_markers();
    let which = if marker == "__CODEX_RUN_ID__"@ {
        0int
    } else if marker == "__CODEX_SCRIPT_PATH__"@ {
        1
    } else if marker == "__CODEX_WORKFLOW_NAME__"@ {
        2
    } else if marker == "__CODEX_WORKFLOW_BODY__"@ {
        3
    } else if marker == "__CODEX_PHASES__"@ {
        4
    } else if marker == "__CODEX_ARGS__"@ {
        5
    } else if marker == "__CODEX_JOURNAL__"@ {
        6
    } else {
        7
    };
    assert(values[which].0 == marker);
    let found = runtime::marker_at(template, values, at, 0);
    assert(found is Some);
    let other = values[found->0].0;
    assert forall|i: int| 0 <= i < marker.len() implies template[at + i] == #[trigger] marker[i] by {
        assert(template.subrange(at, at + marker.len())[i] == template[at + i]);
    }
    assert forall|i: int| 0 <= i < other.len() implies template[at + i] == #[trigger] other[i] by {
        assert(template.subrange(at, at + other.len())[i] == template[at + i]);
    }
    assert(other.len() > 8 && marker.len() > 8);
    assert(other[8] == marker[8]);
    assert(found->0 == which) by {
        if (found->0 == 2 || found->0 == 3) && (which == 2 || which == 3) {
            assert(other[17] == marker[17]);
        }
    }
}

proof fn lemma_distinct_markers()
    ensures
        "__CODEX_RUN_ID__"@.len() > 8 && "__CODEX_RUN_ID__"@[8] == 'R',
        "__CODEX_SCRIPT_PATH__"@.len() > 8 && "__CODEX_SCRIPT_PATH__"@[8] == 'S',
        "__CODEX_WORKFLOW_NAME__"@.len() > 17 && "__CODEX_WORKFLOW_NAME__"@[8] == 'W'
            && "__CODEX_WORKFLOW_NAME__"@[17] == 'N',
        "__CODEX_WORKFLOW_BODY__"@.len() > 17 && "__CODEX_WORKFLOW_BODY__"@[8] == 'W'
            && "__CODEX_WORKFLOW_BODY__"@[17] == 'B',
        "__CODEX_PHASES__"@.len() > 8 && "__CODEX_PHASES__"@[8] == 'P',
        "__CODEX_ARGS__"@.len() > 8 && "__CODEX_ARGS__"@[8] == 'A',
        "__CODEX_JOURNAL__"@.len() > 8 && "__CODEX_JOURNAL__"@[8] == 'J',
        "__CODEX_CONCURRENCY__"@.len() > 8 && "__CODEX_CONCURRENCY__"@[8] == 'C',
{
    reveal_strlit("__CODEX_RUN_ID__");
    reveal_strlit("__CODEX_SCRIPT_PATH__");
    reveal_strlit("__CODEX_WORKFLOW_NAME__");
    reveal_strlit("__CODEX_WORKFLOW_BODY__");
    reveal_strlit("__CODEX_PHASES__");
    reveal_strlit("__CODEX_ARGS__");
    reveal_strlit("__CODEX_JOURNAL__");
    reveal_strlit("__CODEX_CONCURRENCY__");
}

/// The program of an input gets that input: each of its fields, and each record of its journal with
/// the record's own index, key and value.
pub proof fn inputs_reach_their_program(input: RuntimeInput<'_>)
    ensures
        ({
            let journal = journal::journal_view(input.journal@);
            &&& runtime::input_replacements(input) == runtime::runtime_replacements(
                input.run_id@,
                input.script_path@,
                input.body@,
                input.meta@,
                input.args@,
                journal,
                input.concurrency as int,
            )
            &&& input.meta@.name == input.meta.name@
            &&& input.meta@.phases.len() == input.meta.phases@.len()
            &&& forall|i: int|
                0 <= i < input.meta.phases@.len() ==> (#[trigger] input.meta@.phases[i]).title
                    == input.meta.phases@[i].title@
            &&& journal.len() == input.journal@.len()
            &&& forall|i: int|
                0 <= i < journal.len() ==> match (#[trigger] journal[i], input.journal@[i]) {
                    (Some(view), Some(record)) => view.index == record.index && view.key
                        == record.key@ && view.value == record.value@,
                    (None, None) => true,
                    _ => false,
                }
        }),
{
}

/// At least one and at most sixteen agents run at a time, and two processors are left free wherever
/// there are more than two; one more processor never means fewer agents.
pub proof fn processors_are_left_free(processors: usize, more: usize)
    requires
        processors <= more,
    ensures
        1 <= handler::agent_limit(Some(processors)) <= 16,
        processors > 2 ==> handler::agent_limit(Some(processors)) + 2 <= processors,
        2 < processors <= 18 ==> handler::agent_limit(Some(processors)) + 2 == processors,
        handler::agent_limit(Some(processors)) <= handler::agent_limit(Some(more)),
        more >= 18 ==> handler::agent_limit(Some(more)) == 16,
        handler::agent_limit(None) == 1,
{
}

/// A call names exactly one source, and that is the one which is run.
pub proof fn calls_name_one_source(thread_id: Seq<char>, args: WorkflowArgs)
    ensures
        handler::call_source(thread_id, args) is Ok ==> (args.script is Some && args.script_path is None
            && args.name is None) || (args.script is None && args.script_path is Some
            && args.name is None) || (args.script is None && args.script_path is None
            && args.name is Some),
        args.script_path is None && args.name is None ==> (args.script matches Some(script)
            ==> handler::call_source(thread_id, args) == Ok::<CallSourceView, Seq<char>>(
            CallSourceView::Inline(script@),
        )),
        args.script is None && args.name is None ==> (args.script_path matches Some(path) ==> (
        handler::call_source(thread_id, args) matches Ok(
            CallSourceView::Stored(SelectionView::Path { path: found, .. }),
        ) && found == path@)),
        args.script is None && args.script_path is None ==> (args.name matches Some(name) ==> (
        paths::is_component(name@) <==> handler::call_source(thread_id, args) is Ok)),
{
}

/// A name may stand for a workflow or a run where it has one to 128 characters, each an ASCII letter,
/// an ASCII digit, an underscore or a hyphen.
pub proof fn components_are_plain(value: Seq<char>)
    ensures
        paths::is_component(value) <==> 0 < value.len() <= 128 && forall|i: int|
            0 <= i < value.len() ==> ('a' <= #[trigger] value[i] <= 'z') || ('A' <= value[i] <= 'Z')
                || ('0' <= value[i] <= '9') || value[i] == '_' || value[i] == '-',
{
    if forall|i: int|
        0 <= i < value.len() ==> ('a' <= #[trigger] value[i] <= 'z') || ('A' <= value[i] <= 'Z') || (
        '0' <= value[i] <= '9') || value[i] == '_' || value[i] == '-' {
        assert(vstd::utf8::is_ascii_chars(value));
        vstd::utf8::is_ascii_chars_encode_utf8(value);
        assert forall|i: int| 0 <= i < value.len() implies paths::is_component_char(
            #[trigger] value[i],
        ) by {
        }
    } else if paths::is_component(value) {
        let i = choose|i: int|
            0 <= i < value.len() && !(('a' <= #[trigger] value[i] <= 'z') || ('A' <= value[i] <= 'Z')
                || ('0' <= value[i] <= '9') || value[i] == '_' || value[i] == '-');
        assert(paths::is_component_char(value[i]));
    }
}

/// A workflow that is asked for by its name is looked for in the project, then among those of every
/// project. One that is asked for by its path must lie under the runs of the thread or under one of
/// these two directories.
pub proof fn workflows_are_kept_in_three_places(
    thread_id: Seq<char>,
    name: Option<Seq<char>>,
    path: Option<Seq<char>>,
)
    ensures
        match store::source_selection(thread_id, name, path) {
            Ok(SelectionView::Saved { project, global }) => {
                &&& path is None && name is Some
                &&& project.base == PathBase::Project && project.components.len() == 3
                &&& project.components[0] == ".codex"@ && project.components[1] == "workflows"@
                &&& project.components[2] == name->0 + ".js"@
                &&& global.base == PathBase::Home && global.components.len() == 2
                &&& global.components[0] == "workflows"@
                &&& global.components[1] == name->0 + ".js"@
            },
            Ok(SelectionView::Path { path: found, roots }) => {
                &&& name is None && path == Some(found)
                &&& roots.len() == 3
                &&& roots[0].base == PathBase::Home && roots[0].components == seq![
                    "workflow-runs"@,
                    thread_id,
                ]
                &&& roots[1].base == PathBase::Project && roots[1].components == seq![
                    ".codex"@,
                    "workflows"@,
                ]
                &&& roots[2].base == PathBase::Home && roots[2].components == seq!["workflows"@]
            },
            Err(_) => (name is Some <==> path is Some) || !paths::is_component(name->0),
        },
{
}

/// A path lies under a directory where it begins with the directory's components, one by one.
pub proof fn directories_hold_what_begins_with_them(path: Seq<Seq<u8>>, root: Seq<Seq<u8>>)
    ensures
        store::lies_under(path, root) <==> root.len() <= path.len() && forall|i: int|
            0 <= i < root.len() ==> path[i] == #[trigger] root[i],
{
    if store::lies_under(path, root) {
        assert forall|i: int| 0 <= i < root.len() implies path[i] == #[trigger] root[i] by {
            assert(path.take(root.len() as int)[i] == path[i]);
        }
    } else if root.len() <= path.len() && forall|i: int|
        0 <= i < root.len() ==> path[i] == #[trigger] root[i] {
        assert(path.take(root.len() as int) =~= root);
    }
}

/// A run is prepared only of a source of at most 65536 bytes; its script and its journal are kept
/// beside each other under its own ID, below the directory of its thread.
pub proof fn runs_are_kept_under_their_ids(
    thread_id: Seq<char>,
    source: Seq<char>,
    run_id: Seq<char>,
)
    ensures
        handler::prepared_run(thread_id, source, run_id) matches Ok(run) ==> {
            &&& text::byte_length(source) <= 65536
            &&& paths::is_component(run_id)
            &&& run.run_id == run_id
            &&& parser::workflow(source) == Ok::<(MetaView, Seq<char>), Seq<char>>(
                (run.meta, run.body),
            )
            &&& run.script.base == PathBase::Home && run.script.components == seq![
                "workflow-runs"@,
                thread_id,
                run_id + ".js"@,
            ]
            &&& run.journal.base == PathBase::Home && run.journal.components == seq![
                "workflow-runs"@,
                thread_id,
                run_id + ".journal.jsonl"@,
            ]
        },
        text::byte_length(source) <= 65536 && paths::is_component(run_id) && parser::workflow(
            source,
        ) is Ok ==> handler::prepared_run(thread_id, source, run_id) is Ok,
        store::journal_location(thread_id, run_id) matches Ok(path) ==> path.base == PathBase::Home
            && path.components == seq!["workflow-runs"@, thread_id, run_id + ".journal.jsonl"@],
        store::run_script_location(thread_id, run_id, source) matches Ok(path) ==> path.base
            == PathBase::Home && path.components == seq!["workflow-runs"@, thread_id, run_id + ".js"@]
            && text::byte_length(source) <= 65536,
{
    if let Ok(run) = handler::prepared_run(thread_id, source, run_id) {
        assert(run.script.components =~= seq!["workflow-runs"@, thread_id, run_id + ".js"@]);
        assert(run.journal.components =~= seq![
            "workflow-runs"@,
            thread_id,
            run_id + ".journal.jsonl"@,
        ]);
    }
    if let Ok(path) = store::journal_location(thread_id, run_id) {
        assert(path.components =~= seq!["workflow-runs"@, thread_id, run_id + ".journal.jsonl"@]);
    }
    if let Ok(path) = store::run_script_location(thread_id, run_id, source) {
        assert(path.components =~= seq!["workflow-runs"@, thread_id, run_id + ".js"@]);
    }
}

/// A journal's line is taken over as it is where it was read, has at most 1048576 bytes and is of one
/// of the first 1000 agents; any other line is an error.
pub proof fn journal_lines_are_limited(line: LineView)
    ensures
        journal::line_record(line) matches Ok(record) ==> record.index < 1000 && (
        line matches LineView::Read { bytes, record: read } && bytes <= 1048576 && read == Ok::<
            RecordView,
            Seq<char>,
        >(record)),
        line matches LineView::Read { bytes, record: Ok(record) } && bytes <= 1048576
            && record.index < 1000 ==> journal::line_record(line) is Ok,
{
}

/// What is appended to a journal is one line: the record, and a line feed at the end. Records of the
/// first 1000 agents with at most 1048576 bytes may be appended, no others.
pub proof fn appended_lines_hold_their_record(record: RecordView)
    ensures
        journal::appended_line(record) is Ok <==> record.index < 1000 && text::byte_length(
            journal::record_json(record),
        ) <= 1048576,
        journal::appended_line(record) matches Ok(line) ==> line.len() > 0 && line.last() == '\n'
            && tells_place(line.drop_last(), Some(record)),
{
    if let Ok(line) = journal::appended_line(record) {
        reveal_strlit("\n");
        let item = journal::record_json(record);
        assert(line.drop_last() =~= item);
        let digits = text::decimal(record.index as int);
        let key = runtime::json_string(record.key);
        text::decimals_are_read_back(record.index as int);
        lemma_json_alone(record.key);
        assert(text::number_of(digits) == record.index);
        assert(grammar::string_literal(key, 0) == (
            Ok::<Seq<char>, Seq<char>>(record.key),
            key.len() as int,
        ));
    }
}

/// A record takes its own place in a journal, and no other place changes.
pub proof fn records_take_their_own_place(journal: Seq<Option<RecordView>>, record: RecordView)
    ensures
        ({
            let after = journal::with_record(journal, record);
            &&& after.len() >= journal.len() && after.len() > record.index
            &&& after.len() == journal.len() || after.len() == record.index + 1
            &&& after[record.index as int] == Some(record)
            &&& forall|i: int|
                0 <= i < after.len() && i != record.index ==> (#[trigger] after[i]) == (if i
                    < journal.len() {
                    journal[i]
                } else {
                    None
                })
        }),
{
}

/// What a string is read as by itself.
pub open spec fn reads_as(written: Seq<char>, value: Seq<char>) -> bool {
    grammar::string_literal(written, 0) == (
        Ok::<Seq<char>, Seq<char>>(value),
        written.len() as int,
    )
}

/// What the load tool answers tells the body, and of the declaration the description, the name, when
/// to use it, and the title and the detail of each phase.
pub proof fn answers_tell_the_workflow(declared: MetaView, body: Seq<char>)
    ensures
        exists|b: Seq<char>, d: Seq<char>, n: Seq<char>, phases: Seq<Seq<char>>, w: Seq<char>|
            #![trigger reads_as(b, body), reads_as(d, declared.description), reads_as(n, declared.name), text::separated(phases, ","@), w.len()]
            handler::loaded_json(declared, body) == "{\"body\":"@ + b
                + ",\"meta\":"@ + ("{\"description\":"@ + d + ",\"name\":"@ + n + ",\"phases\":["@
                + text::separated(phases, ","@) + "],\"whenToUse\":"@ + w + "}"@) + "}"@ && reads_as(b, body)
                && reads_as(d, declared.description) && reads_as(n, declared.name) && phases.len()
                == declared.phases.len() && (forall|i: int|
                0 <= i < phases.len() ==> tells_phase(#[trigger] phases[i], declared.phases[i]))
                && match declared.when_to_use {
                Some(content) => reads_as(w, content),
                None => w == "null"@,
            },
{
    let b = runtime::json_string(body);
    let d = runtime::json_string(declared.description);
    let n = runtime::json_string(declared.name);
    let phases = declared.phases.map_values(|phase: PhaseView| handler::phase_json(phase));
    let w = match declared.when_to_use {
        Some(content) => runtime::json_string(content),
        None => "null"@,
    };
    lemma_json_alone(body);
    lemma_json_alone(declared.description);
    lemma_json_alone(declared.name);
    if let Some(content) = declared.when_to_use {
        lemma_json_alone(content);
    }
    assert(reads_as(b, body) && reads_as(d, declared.description) && reads_as(n, declared.name));
    assert(w.len() >= 0);
    let joined = text::separated(phases, ","@);
    assert forall|i: int| 0 <= i < phases.len() implies tells_phase(
        #[trigger] phases[i],
        declared.phases[i],
    ) by {
        lemma_json_alone(declared.phases[i].detail);
        lemma_json_alone(declared.phases[i].title);
        let detail = runtime::json_string(declared.phases[i].detail);
        let title = runtime::json_string(declared.phases[i].title);
        assert(reads_as(detail, declared.phases[i].detail) && reads_as(title, declared.phases[i].title));
    }
}

/// Whether a JSON object tells a phase.
pub open spec fn tells_phase(object: Seq<char>, phase: PhaseView) -> bool {
    exists|detail: Seq<char>, title: Seq<char>|
        object == "{\"detail\":"@ + detail + ",\"title\":"@ + title + "}"@ && #[trigger] reads_as(
            detail,
            phase.detail,
        ) && #[trigger] reads_as(title, phase.title)
}

/// Whether the first entry of a key holds a value.
pub open spec fn holds_entry(
    entries: Seq<(Seq<char>, LiteralView)>,
    key: Seq<char>,
    value: LiteralView,
) -> bool {
    exists|i: int|
        0 <= i < entries.len() && (#[trigger] entries[i]) == (key, value) && forall|j: int|
            0 <= j < i ==> (#[trigger] entries[j]).0 != key
}

proof fn lemma_entry_index(entries: Seq<(Seq<char>, LiteralView)>, key: Seq<char>, from: int)
    requires
        0 <= from,
        forall|j: int| 0 <= j < from && j < entries.len() ==> (#[trigger] entries[j]).0 != key,
    ensures
        meta::entry_index(entries, key, from) matches Some(at) ==> from <= at < entries.len()
            && holds_entry(entries, key, entries[at].1),
        meta::entry_index(entries, key, from) is None ==> forall|j: int|
            0 <= j < entries.len() ==> (#[trigger] entries[j]).0 != key,
    decreases entries.len() - from,
{
    if from < entries.len() {
        if entries[from].0 == key {
            assert(entries[from] == (key, entries[from].1));
        } else {
            lemma_entry_index(entries, key, from + 1);
        }
    }
}

proof fn lemma_meta_entries(entries: Seq<(Seq<char>, LiteralView)>, from: int)
    requires
        0 <= from,
        meta::meta_entries_error(entries, from) is None,
    ensures
        forall|i: int| from <= i < entries.len() ==> meta::meta_entry_error(#[trigger] entries[i]) is None,
    decreases entries.len() - from,
{
    if from < entries.len() {
        lemma_meta_entries(entries, from + 1);
    }
}

proof fn lemma_phase_entries(entries: Seq<(Seq<char>, LiteralView)>, from: int)
    requires
        0 <= from,
        meta::phase_entries_error(entries, from) is None,
    ensures
        forall|i: int|
            from <= i < entries.len() ==> meta::phase_entry_error(#[trigger] entries[i]) is None,
    decreases entries.len() - from,
{
    if from < entries.len() {
        lemma_phase_entries(entries, from + 1);
    }
}

/// A declaration that is given as an object says what its entries say: its name, its description and,
/// where it has one that is not null, when to use it; it has no entry of any other key. Its phases are
/// the items of its list, in order.
pub proof fn declarations_say_what_their_entries_say(entries: Seq<(Seq<char>, LiteralView)>)
    requires
        meta::meta_value(LiteralView::Object(entries)) is Ok,
    ensures
        ({
            let declared = meta::meta_value(LiteralView::Object(entries))->Ok_0;
            &&& holds_entry(entries, "name"@, LiteralView::Text(declared.name))
            &&& holds_entry(entries, "description"@, LiteralView::Text(declared.description))
            &&& declared.when_to_use matches Some(content) ==> holds_entry(
                entries,
                "whenToUse"@,
                LiteralView::Text(content),
            )
            &&& declared.when_to_use is None ==> holds_entry(
                entries,
                "whenToUse"@,
                LiteralView::Null,
            ) || forall|i: int| 0 <= i < entries.len() ==> (#[trigger] entries[i]).0 != "whenToUse"@
            &&& exists|items: Seq<LiteralView>| #[trigger]
                holds_entry(entries, "phases"@, LiteralView::Array(items)) && items.len()
                    == declared.phases.len() && forall|i: int|
                    0 <= i < items.len() ==> says_phase(#[trigger] items[i], declared.phases[i])
            &&& forall|i: int|
                0 <= i < entries.len() ==> (#[trigger] entries[i]).0 == "name"@ || entries[i].0
                    == "description"@ || entries[i].0 == "whenToUse"@ || entries[i].0 == "phases"@
        }),
{
    lemma_meta_entries(entries, 0);
    lemma_entry_index(entries, "name"@, 0);
    lemma_entry_index(entries, "description"@, 0);
    lemma_entry_index(entries, "whenToUse"@, 0);
    lemma_entry_index(entries, "phases"@, 0);
    reveal_strlit("name");
    reveal_strlit("description");
    reveal_strlit("whenToUse");
    reveal_strlit("phases");
    let name = meta::entry_index(entries, "name"@, 0)->0;
    let description = meta::entry_index(entries, "description"@, 0)->0;
    let phases = meta::entry_index(entries, "phases"@, 0)->0;
    assert(meta::meta_entry_error(entries[name]) is None);
    assert(meta::meta_entry_error(entries[description]) is None);
    assert("phases"@.len() == 6 && "name"@.len() == 4 && "description"@.len() == 11
        && "whenToUse"@.len() == 9);
    lemma_key_of(entries, "name"@, name);
    lemma_key_of(entries, "description"@, description);
    lemma_key_of(entries, "phases"@, phases);
    assert(meta::meta_entry_error(entries[phases]) is None);
    if let Some(at) = meta::entry_index(entries, "whenToUse"@, 0) {
        lemma_key_of(entries, "whenToUse"@, at);
        assert(meta::meta_entry_error(entries[at]) is None);
    }
    assert(meta::phases_value(entries[phases].1) is Ok);
    let items = entries[phases].1->Array_0;
    lemma_phase_list(items);
    assert(holds_entry(entries, "phases"@, LiteralView::Array(items)));
    assert forall|i: int| 0 <= i < entries.len() implies (#[trigger] entries[i]).0 == "name"@
        || entries[i].0 == "description"@ || entries[i].0 == "whenToUse"@ || entries[i].0 == "phases"@ by {
        assert(meta::meta_entry_error(entries[i]) is None);
    }
}

proof fn lemma_key_of(entries: Seq<(Seq<char>, LiteralView)>, key: Seq<char>, at: int)
    requires
        meta::entry_index(entries, key, 0) == Some(at),
    ensures
        0 <= at < entries.len(),
        entries[at].0 == key,
{
    lemma_key_from(entries, key, 0, at);
}

proof fn lemma_key_from(entries: Seq<(Seq<char>, LiteralView)>, key: Seq<char>, from: int, at: int)
    requires
        meta::entry_index(entries, key, from) == Some(at),
    ensures
        0 <= at < entries.len(),
        entries[at].0 == key,
    decreases entries.len() - from,
{
    if entries[from].0 != key {
        lemma_key_from(entries, key, from + 1, at);
    }
}

/// Whether a literal says what a phase is: an object with its title and its detail, or a list of the
/// two in this order.
pub open spec fn says_phase(value: LiteralView, phase: PhaseView) -> bool {
    match value {
        LiteralView::Object(entries) => holds_entry(
            entries,
            "title"@,
            LiteralView::Text(phase.title),
        ) && holds_entry(entries, "detail"@, LiteralView::Text(phase.detail)),
        LiteralView::Array(items) => items == seq![
            LiteralView::Text(phase.title),
            LiteralView::Text(phase.detail),
        ],
        _ => false,
    }
}

proof fn lemma_phase_list(items: Seq<LiteralView>)
    requires
        meta::phase_list(items) is Ok,
    ensures
        meta::phase_list(items)->Ok_0.len() == items.len(),
        forall|i: int|
            0 <= i < items.len() ==> says_phase(
                #[trigger] items[i],
                meta::phase_list(items)->Ok_0[i],
            ),
    decreases items.len(),
{
    if items.len() > 0 {
        let first = items.drop_last();
        lemma_phase_list(first);
        let phases = meta::phase_list(items)->Ok_0;
        lemma_phase_value(items.last());
        assert forall|i: int| 0 <= i < items.len() implies says_phase(#[trigger] items[i], phases[i]) by {
            if i < first.len() {
                assert(first[i] == items[i]);
                assert(phases[i] == meta::phase_list(first)->Ok_0[i]);
            }
        }
    }
}

proof fn lemma_phase_value(value: LiteralView)
    requires
        meta::phase_value(value) is Ok,
    ensures
        says_phase(value, meta::phase_value(value)->Ok_0),
{
    match value {
        LiteralView::Object(entries) => {
            lemma_phase_entries(entries, 0);
            lemma_entry_index(entries, "title"@, 0);
            lemma_entry_index(entries, "detail"@, 0);
            let title = meta::entry_index(entries, "title"@, 0)->0;
            let detail = meta::entry_index(entries, "detail"@, 0)->0;
            lemma_key_of(entries, "title"@, title);
            lemma_key_of(entries, "detail"@, detail);
            assert(meta::phase_entry_error(entries[title]) is None);
            assert(meta::phase_entry_error(entries[detail]) is None);
        },
        LiteralView::Array(items) => {
            let phase = meta::phase_value(value)->Ok_0;
            assert(items =~= seq![LiteralView::Text(phase.title), LiteralView::Text(phase.detail)]);
        },
        _ => {},
    }
}

/// A declaration passes the checks exactly where its name and description are not blank and have at
/// most 100 and 500 bytes, it has at most 100 phases, each with a title that is not blank and has at
/// most 100 bytes and a detail of at most 500, and no title occurs twice.
pub proof fn sound_declarations_pass(declared: MetaView)
    requires
        text::trim(declared.name).len() > 0,
        text::byte_length(declared.name) <= 100,
        text::trim(declared.description).len() > 0,
        text::byte_length(declared.description) <= 500,
        declared.phases.len() <= 100,
        forall|i: int|
            0 <= i < declared.phases.len() ==> text::trim((#[trigger] declared.phases[i]).title).len()
                > 0 && text::byte_length(declared.phases[i].title) <= 100 && text::byte_length(
                declared.phases[i].detail,
            ) <= 500,
        forall|i: int, j: int|
            0 <= i < j < declared.phases.len() ==> (#[trigger] declared.phases[i]).title
                != (#[trigger] declared.phases[j]).title,
    ensures
        meta::meta_problem(declared) is None,
{
    lemma_no_phase_problem(declared.phases, 0);
}

proof fn lemma_no_phase_problem(phases: Seq<PhaseView>, from: int)
    requires
        0 <= from,
        forall|i: int|
            0 <= i < phases.len() ==> text::trim((#[trigger] phases[i]).title).len() > 0
                && text::byte_length(phases[i].title) <= 100 && text::byte_length(phases[i].detail)
                <= 500,
        forall|i: int, j: int|
            0 <= i < j < phases.len() ==> (#[trigger] phases[i]).title != (
            #[trigger] phases[j]).title,
    ensures
        meta::phases_problem(phases, from) is None,
    decreases phases.len() - from,
{
    if from < phases.len() {
        assert(text::trim(phases[from].title).len() > 0);
        lemma_no_phase_problem(phases, from + 1);
    }
}

proof fn lemma_trim_start(before: Seq<char>, rest: Seq<char>)
    requires
        forall|i: int| 0 <= i < before.len() ==> text::is_whitespace(#[trigger] before[i]),
        rest.len() > 0 ==> !text::is_whitespace(rest[0]),
    ensures
        text::trim_start(before + rest) == rest,
    decreases before.len(),
{
    if before.len() > 0 {
        assert((before + rest)[0] == before[0]);
        assert((before + rest).skip(1) =~= before.skip(1) + rest);
        lemma_trim_start(before.skip(1), rest);
    } else {
        assert(before + rest =~= rest);
    }
}

/// A workflow is `export const meta =`, a literal and a body: the declaration is what the literal
/// says, and the body is everything behind the semicolon.
pub proof fn workflows_are_a_declaration_and_a_body(
    before: Seq<char>,
    literal: Seq<char>,
    value: LiteralView,
    body: Seq<char>,
)
    requires
        forall|i: int| 0 <= i < before.len() ==> text::is_whitespace(#[trigger] before[i]),
        literal.len() > 0,
        !text::is_whitespace(literal[0]),
        grammar::value_literal(literal + seq![';'] + body, 0) == (
            Ok::<LiteralView, Seq<char>>(value),
            literal.len() as int,
        ),
    ensures
        ({
            let read = parser::workflow(
                before + "export const meta = "@ + literal + seq![';'] + body,
            );
            match meta::meta_value(value) {
                Ok(declared) => if meta::meta_problem(declared) is None {
                    read == Ok::<(MetaView, Seq<char>), Seq<char>>((declared, body))
                } else {
                    read is Err
                },
                Err(_) => read is Err,
            }
        }),
{
    reveal_strlit("export const meta = ");
    reveal_strlit("export const meta");
    let source = before + "export const meta = "@ + literal + seq![';'] + body;
    let rest = "export const meta = "@ + literal + seq![';'] + body;
    let tail = literal + seq![';'] + body;
    assert(source =~= before + rest);
    assert(rest[0] == 'e');
    lemma_trim_start(before, rest);
    let prefix = parser::META_PREFIX@;
    assert(prefix == "export const meta"@);
    assert(rest.subrange(0, 17) =~= prefix);
    let assigned = rest.skip(17);
    let equals = seq!['='] + seq![' '] + tail;
    assert(assigned =~= seq![' '] + equals);
    lemma_trim_start(seq![' '], equals);
    assert(equals[0] == '=');
    assert(equals.skip(1) =~= seq![' '] + tail);
    assert(tail[0] == literal[0]);
    lemma_trim_start(seq![' '], tail);
    let end = literal.len() as int;
    assert(tail[end] == ';');
    assert(grammar::trivia(tail, end) == (Ok::<(), Seq<char>>(()), end)) by {
        if text::occurs_at(tail, seq!['/', '/'], end) {
            assert(tail.subrange(end, end + 2)[0] == tail[end]);
        }
        if text::occurs_at(tail, seq!['/', '*'], end) {
            assert(tail.subrange(end, end + 2)[0] == tail[end]);
        }
    }
    assert(tail.skip(end + 1) =~= body);
}

/// The tool that runs a workflow takes its script, its path or its name, a run to resume and any
/// arguments, and needs none of them by itself. The one that records a result needs all it takes, and
/// the one that loads a workflow takes a name or a path. None takes anything else.
pub proof fn tools_take_what_their_calls_need()
    ensures
        ({
            let tool = tools::workflow_tool();
            &&& tool.name == "workflow"@
            &&& tool.required is None
            &&& !tool.additional_properties
            &&& tool.parameters.len() == 5
            &&& tool.parameters[0].name == "args"@ && tool.parameters[0].kind == ParameterType::Any
            &&& tool.parameters[1].name == "name"@ && tool.parameters[1].kind == ParameterType::Text
            &&& tool.parameters[2].name == "resumeFromRunId"@ && tool.parameters[2].kind
                == ParameterType::Text
            &&& tool.parameters[3].name == "script"@ && tool.parameters[3].kind == ParameterType::Text
            &&& tool.parameters[4].name == "scriptPath"@ && tool.parameters[4].kind
                == ParameterType::Text
        }),
        ({
            let tool = tools::journal_tool();
            &&& tool.name == "workflow_journal_append"@
            &&& tool.required == Some(seq!["runId"@, "index"@, "key"@, "value"@])
            &&& !tool.additional_properties
            &&& tool.parameters.len() == 4
            &&& tool.parameters[0].name == "index"@ && tool.parameters[0].kind
                == ParameterType::Integer
            &&& tool.parameters[1].name == "key"@ && tool.parameters[1].kind == ParameterType::Text
            &&& tool.parameters[2].name == "runId"@ && tool.parameters[2].kind == ParameterType::Text
            &&& tool.parameters[3].name == "value"@ && tool.parameters[3].kind == ParameterType::Any
        }),
        ({
            let tool = tools::load_tool();
            &&& tool.name == "workflow_load"@
            &&& tool.required is None
            &&& !tool.additional_properties
            &&& tool.parameters.len() == 2
            &&& tool.parameters[0].name == "name"@ && tool.parameters[0].kind == ParameterType::Text
            &&& tool.parameters[1].name == "scriptPath"@ && tool.parameters[1].kind
                == ParameterType::Text
        }),
{
}

/// A workflow may call the tools for its agents and its own two tools, and no others, least of all the
/// one that runs a workflow.
pub proof fn workflows_call_their_own_tools(tool: ToolNameView)
    ensures
        handler::is_nested_tool(tool) ==> tool.name == "spawn_agent"@ || tool.name
            == "list_agents"@ || tool.name == "followup_task"@ || tool.name
            == "workflow_journal_append"@ || tool.name == "workflow_load"@,
        handler::is_nested_tool(tool) ==> tool.namespace is None || tool.namespace == Some(
            "collaboration"@,
        ),
        (tool.namespace is None || tool.namespace == Some("collaboration"@)) && (tool.name
            == "spawn_agent"@ || tool.name == "list_agents"@ || tool.name == "followup_task"@
            || tool.name == "workflow_journal_append"@ || tool.name == "workflow_load"@)
            ==> handler::is_nested_tool(tool),
{
}

/// An escape of one letter stands for the control character of that letter, or for a character that is
/// written as itself.
pub proof fn escapes_stand_for_one_character(c: char)
    ensures
        grammar::simple_escape(c) is Some <==> c == '\\' || c == '/' || c == '"' || c == '\'' || c
            == 'b' || c == 'f' || c == 'n' || c == 'r' || c == 't',
        c == '\\' || c == '/' || c == '"' || c == '\'' ==> grammar::simple_escape(c) == Some(c),
        c == 'n' ==> grammar::simple_escape(c) == Some('\n'),
        c == 't' ==> grammar::simple_escape(c) == Some('\t'),
        c == 'r' ==> grammar::simple_escape(c) == Some('\r'),
        c == 'b' ==> grammar::simple_escape(c) == Some('\u{8}'),
        c == 'f' ==> grammar::simple_escape(c) == Some('\u{c}'),
{
}

/// A hexadecimal digit counts by its place among the digits, in either case; one more digit makes a
/// number sixteen times as large and adds its own value.
pub proof fn digits_count_by_their_place(text: Seq<char>, c: char)
    ensures
        grammar::hex_digit(c) matches Some(value) ==> 0 <= value < 16 && (c as int == 48 + value || c as int
            == 87 + value || c as int == 55 + value),
        ('0' <= c <= '9') || ('a' <= c <= 'f') || ('A' <= c <= 'F') <==> grammar::hex_digit(c) is Some,
        '0' <= c <= '9' ==> grammar::hex_digit(c) == Some(c as int - 48),
        'a' <= c <= 'f' ==> grammar::hex_digit(c) == Some(c as int - 87),
        'A' <= c <= 'F' ==> grammar::hex_digit(c) == Some(c as int - 55),
        grammar::hex_digits(Seq::empty()) == Some(0int),
        grammar::hex_digits(text) matches Some(high) ==> (grammar::hex_digit(c) matches Some(low)
            ==> grammar::hex_digits(text.push(c)) == Some(high * 16 + low)),
        grammar::hex_digit(c) is None ==> grammar::hex_digits(text.push(c)) is None,
{
    assert(text.push(c).drop_last() =~= text);
}

/// An identifier begins with a letter, an underscore or a dollar sign, and goes on with those and with
/// digits.
pub proof fn identifiers_begin_without_a_digit(c: char)
    ensures
        grammar::is_identifier_start_char(c) <==> ('a' <= c <= 'z') || ('A' <= c <= 'Z') || c == '_'
            || c == '$',
        grammar::is_identifier_continue_char(c) <==> ('a' <= c <= 'z') || ('A' <= c <= 'Z') || (
        '0' <= c <= '9') || c == '_' || c == '$',
{
}

/// A word that stands for a value is read as it, unless it runs on into a longer word.
pub proof fn words_stand_for_their_values(source: Seq<char>, at: int)
    requires
        0 <= at < source.len(),
    ensures
        source.subrange(at, source.len() as int) == "true"@ ==> grammar::value_literal(source, at)
            == (Ok::<LiteralView, Seq<char>>(LiteralView::Bool(true)), at + 4),
        source.subrange(at, source.len() as int) == "false"@ ==> grammar::value_literal(source, at)
            == (Ok::<LiteralView, Seq<char>>(LiteralView::Bool(false)), at + 5),
        source.subrange(at, source.len() as int) == "null"@ ==> grammar::value_literal(source, at)
            == (Ok::<LiteralView, Seq<char>>(LiteralView::Null), at + 4),
{
    reveal_strlit("true");
    reveal_strlit("false");
    reveal_strlit("null");
    let rest = source.subrange(at, source.len() as int);
    assert(rest[0] == source[at]);
    if rest == "true"@ || rest == "false"@ || rest == "null"@ {
        if text::occurs_at(source, seq!['/', '/'], at) {
            assert(source.subrange(at, at + 2)[0] == source[at]);
        }
        if text::occurs_at(source, seq!['/', '*'], at) {
            assert(source.subrange(at, at + 2)[0] == source[at]);
        }
        assert(grammar::trivia(source, at) == (Ok::<(), Seq<char>>(()), at));
        if text::occurs_at(source, "true"@, at) {
            assert(source.subrange(at, at + 4)[0] == source[at]);
        }
        if text::occurs_at(source, "false"@, at) {
            assert(source.subrange(at, at + 5)[0] == source[at]);
        }
        assert(source.subrange(at, at + rest.len()) =~= rest);
    }
}

/// An entry is put among the others in the order of the keys; none is lost by that.
pub proof fn entries_are_kept_in_order(
    entries: Seq<(Seq<char>, LiteralView)>,
    key: Seq<char>,
    value: LiteralView,
)
    ensures
        ({
            let slot = grammar::entry_slot(entries, key);
            let all = grammar::with_entry(entries, key, value);
            &&& 0 <= slot <= entries.len()
            &&& all == entries.take(slot) + seq![(key, value)] + entries.skip(slot)
            &&& forall|i: int|
                0 <= i < slot ==> text::text_before((#[trigger] entries[i]).0, key)
            &&& slot < entries.len() ==> !text::text_before(entries[slot].0, key)
        }),
    decreases entries.len(),
{
    if entries.len() > 0 && text::text_before(entries[0].0, key) {
        let rest = entries.skip(1);
        entries_are_kept_in_order(rest, key, value);
        let slot = grammar::entry_slot(entries, key);
        assert forall|i: int| 0 <= i < slot implies text::text_before(
            (#[trigger] entries[i]).0,
            key,
        ) by {
            if i > 0 {
                assert(entries[i] == rest[i - 1]);
            }
        }
    }
    let slot = grammar::entry_slot(entries, key);
    assert(grammar::with_entry(entries, key, value) =~= entries.take(slot) + seq![(key, value)]
        + entries.skip(slot));
}

/// A text that holds no quote, no backslash and no control character is written as it is, between
/// quotes.
pub proof fn plain_strings_are_quoted_as_they_are(content: Seq<char>)
    requires
        forall|i: int|
            0 <= i < content.len() ==> (#[trigger] content[i]) >= ' ' && content[i] != '"'
                && content[i] != '\\',
    ensures
        runtime::json_string(content) == seq!['"'] + content + seq!['"'],
{
    lemma_plain_text(content);
}

proof fn lemma_plain_text(content: Seq<char>)
    requires
        forall|i: int|
            0 <= i < content.len() ==> (#[trigger] content[i]) >= ' ' && content[i] != '"'
                && content[i] != '\\',
    ensures
        runtime::json_escaped(content) == content,
    decreases content.len(),
{
    if content.len() > 0 {
        let rest = content.skip(1);
        assert forall|i: int| 0 <= i < rest.len() implies (#[trigger] rest[i]) >= ' ' && rest[i]
            != '"' && rest[i] != '\\' by {
            assert(rest[i] == content[i + 1]);
        }
        lemma_plain_text(rest);
        assert(content[0] >= ' ');
        assert(runtime::json_escape(content[0]) == seq![content[0]]);
        assert(seq![content[0]] + rest =~= content);
    }
}

/// An entry of an object is its key, a colon and its value. A key that was there before is an error,
/// and any other makes the object larger by its own value.
pub proof fn entries_are_read_one_by_one(
    source: Seq<char>,
    at: int,
    entries: Seq<(Seq<char>, LiteralView)>,
    key: Seq<char>,
    colon: int,
    value: Seq<char>,
    end: int,
)
    requires
        0 <= at < colon,
        colon + 1 < end <= source.len(),
        source[at] == '"',
        grammar::string_literal(source, at) == (Ok::<Seq<char>, Seq<char>>(key), colon),
        source[colon] == ':',
        source[colon + 1] == '"',
        grammar::string_literal(source, colon + 1) == (Ok::<Seq<char>, Seq<char>>(value), end),
    ensures
        (exists|i: int| 0 <= i < entries.len() && (#[trigger] entries[i]).0 == key)
            ==> grammar::object_rest(source, at, entries).0 is Err,
        (forall|i: int| 0 <= i < entries.len() ==> (#[trigger] entries[i]).0 != key)
            ==> grammar::object_rest(source, at, entries) == grammar::object_tail(
            source,
            end,
            grammar::with_entry(entries, key, LiteralView::Text(value)),
        ),
{
    lemma_no_trivia(source, at);
    lemma_no_trivia(source, colon + 1);
    if text::occurs_at(source, seq!['/', '/'], colon) {
        assert(source.subrange(colon, colon + 2)[0] == source[colon]);
    }
    if text::occurs_at(source, seq!['/', '*'], colon) {
        assert(source.subrange(colon, colon + 2)[0] == source[colon]);
    }
    assert(grammar::trivia(source, colon) == (Ok::<(), Seq<char>>(()), colon));
    assert(grammar::value_literal(source, colon + 1) == (
        Ok::<LiteralView, Seq<char>>(LiteralView::Text(value)),
        end,
    ));
}

/// After an entry an object ends with its brace, which gives what was read, or goes on behind a comma.
pub proof fn objects_end_with_their_brace(
    source: Seq<char>,
    at: int,
    entries: Seq<(Seq<char>, LiteralView)>,
)
    requires
        0 <= at < source.len(),
    ensures
        source[at] == '}' ==> grammar::object_tail(source, at, entries) == (
            Ok::<LiteralView, Seq<char>>(LiteralView::Object(entries)),
            at + 1,
        ),
        source[at] == '}' ==> grammar::object_rest(source, at, entries) == (
            Ok::<LiteralView, Seq<char>>(LiteralView::Object(entries)),
            at + 1,
        ),
        source[at] == ',' ==> grammar::object_tail(source, at, entries) == grammar::object_rest(
            source,
            at + 1,
            entries,
        ),
        source[at] == '{' ==> grammar::value_literal(source, at) == grammar::object_rest(
            source,
            at + 1,
            Seq::empty(),
        ),
        source[at] == '"' ==> grammar::object_tail(source, at, entries).0 is Err,
{
    if source[at] == '}' || source[at] == ',' || source[at] == '{' || source[at] == '"' {
        if text::occurs_at(source, seq!['/', '/'], at) {
            assert(source.subrange(at, at + 2)[0] == source[at]);
        }
        if text::occurs_at(source, seq!['/', '*'], at) {
            assert(source.subrange(at, at + 2)[0] == source[at]);
        }
        assert(grammar::trivia(source, at) == (Ok::<(), Seq<char>>(()), at));
    }
}

} // verus!
