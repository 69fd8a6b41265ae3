//! The JavaScript program that runs a workflow.

use vstd::prelude::*;
use crate::ids;
use crate::text;
use crate::workflows::grammar;
use crate::workflows::journal;
use crate::workflows::journal::{JournalRecord, RecordView};
use crate::workflows::meta;
use crate::workflows::meta::{MetaView, PhaseView, WorkflowMeta, WorkflowPhase};

verus! {

/// How a character is written inside a JSON string.
pub open spec fn json_escape(c: char) -> Seq<char> {
    if c == '"' || c == '\\' {
        seq!['\\', c]
    } else if c == '\u{8}' {
        seq!['\\', 'b']
    } else if c == '\u{9}' {
        seq!['\\', 't']
    } else if c == '\u{a}' {
        seq!['\\', 'n']
    } else if c == '\u{c}' {
        seq!['\\', 'f']
    } else if c == '\u{d}' {
        seq!['\\', 'r']
    } else if (c as int) < 32 {
        seq!['\\', 'u', '0', '0', ids::hex_digit(c as int / 16), ids::hex_digit(c as int % 16)]
    } else {
        seq![c]
    }
}

/// The characters of a string as they are written inside a JSON string.
pub open spec fn json_escaped(text: Seq<char>) -> Seq<char>
    decreases text.len(),
{
    if text.len() == 0 {
        Seq::empty()
    } else {
        json_escape(text[0]) + json_escaped(text.skip(1))
    }
}

/// A string as a JSON string.
pub open spec fn json_string(text: Seq<char>) -> Seq<char> {
    seq!['"'] + json_escaped(text) + seq!['"']
}

/// `serde_json::to_string` for a string: in quotes, with quotes, backslashes and control characters
/// escaped. Writing a string to memory cannot fail.
#[verifier::external_body]
pub(crate) fn json(value: &str) -> (res: Result<String, String>)
    ensures
        res is Ok,
        res->Ok_0@ == json_string(value@),
{
    serde_json::to_string(value).map_err(|err| err.to_string())
}

/// The index of the quote that ends a string literal in JavaScript, from an index inside it on.
pub open spec fn literal_end(source: Seq<char>, at: int) -> Option<int>
    decreases source.len() - at,
{
    if at < 0 || at >= source.len() {
        None
    } else if source[at] == '"' {
        Some(at)
    } else if source[at] == '\\' {
        if at + 1 < source.len() {
            literal_end(source, at + 2)
        } else {
            None
        }
    } else {
        literal_end(source, at + 1)
    }
}

/// What is written for a character is the character itself, or a backslash and something harmless; no
/// control character is among it.
pub proof fn lemma_escape(c: char)
    ensures
        ({
            let written = json_escape(c);
            &&& written.len() == 1 ==> written[0] == c && c != '"' && c != '\\' && c >= ' '
            &&& written.len() != 1 ==> (written.len() == 2 || written.len() == 6) && written[0]
                == '\\' && written[1] >= ' '
            &&& forall|i: int|
                2 <= i < written.len() ==> (#[trigger] written[i]) != '"' && written[i] != '\\'
                    && written[i] >= ' '
        }),
{
    if (c as int) < 32 {
        assert(ids::is_lower_hex(ids::hex_digit(c as int / 16)));
        assert(ids::is_lower_hex(ids::hex_digit(c as int % 16)));
    }
}

proof fn lemma_literal_end(before: Seq<char>, text: Seq<char>, after: Seq<char>)
    ensures
        literal_end(before + json_escaped(text) + seq!['"'] + after, before.len() as int) == Some(
            before.len() + json_escaped(text).len() as int,
        ),
    decreases text.len(),
{
    let source = before + json_escaped(text) + seq!['"'] + after;
    let at = before.len() as int;
    if text.len() == 0 {
        assert(source[at] == '"');
    } else {
        let c = text[0];
        let first = json_escape(c);
        let rest = json_escaped(text.skip(1));
        lemma_literal_end(before + first, text.skip(1), after);
        assert(before + first + rest + seq!['"'] + after =~= source);
        assert forall|i: int| 0 <= i < first.len() implies source[at + i] == #[trigger] first[i] by {
        }
        lemma_escape(c);
        assert(source[at] == first[0]);
        let next = literal_end(source, at + first.len());
        assert((before + first).len() == at + first.len());
        if first.len() == 6 {
            assert(source[at + 2] == first[2]);
            assert(source[at + 3] == first[3]);
            assert(source[at + 4] == first[4]);
            assert(source[at + 5] == first[5]);
            assert(literal_end(source, at + 5) == next);
            assert(literal_end(source, at + 4) == next);
            assert(literal_end(source, at + 3) == next);
            assert(literal_end(source, at + 2) == next);
        }
        assert(literal_end(source, at) == next);
    }
}

/// A string that is embedded in a program is one literal there: it ends where it was meant to end,
/// whatever it holds and whatever follows it, and no control character is in it.
pub proof fn embedded_strings_are_single_literals(
    before: Seq<char>,
    text: Seq<char>,
    after: Seq<char>,
)
    ensures
        literal_end(before + json_string(text) + after, before.len() + 1int) == Some(
            before.len() + json_string(text).len() - 1,
        ),
        forall|i: int| 0 <= i < json_string(text).len() ==> #[trigger] json_string(text)[i] >= ' ',
{
    lemma_literal_end(before + seq!['"'], text, after);
    assert(before + seq!['"'] + json_escaped(text) + seq!['"'] + after =~= before + json_string(text)
        + after);
    lemma_escaped_is_printable(text);
}

/// A character that is written with six characters is written with its four digits.
proof fn lemma_control_digits(c: char)
    requires
        json_escape(c).len() == 6,
    ensures
        json_escape(c).subrange(2, 6) == grammar::four_digits(c),
{
    let code = c as int;
    assert(code / 4096 == 0 && code / 256 == 0 && code / 16 < 2) by (nonlinear_arith)
        requires
            0 <= code < 32,
    ;
    assert(code / 256 % 16 == 0 && code / 16 % 16 == code / 16);
    assert(ids::hex_digit(0) == '0');
    assert(json_escape(c).subrange(2, 6) =~= grammar::four_digits(c));
}

proof fn lemma_json_rest(before: Seq<char>, text: Seq<char>, after: Seq<char>, read: Seq<char>)
    ensures
        grammar::string_rest(
            before + json_escaped(text) + seq!['"'] + after,
            before.len() as int,
            '"',
            read,
        ) == (
            Ok::<Seq<char>, Seq<char>>(read + text),
            before.len() + json_escaped(text).len() + 1int,
        ),
    decreases text.len(),
{
    let source = before + json_escaped(text) + seq!['"'] + after;
    let at = before.len() as int;
    if text.len() == 0 {
        assert(source[at] == '"');
        assert(read + text == read);
    } else {
        let c = text[0];
        let first = json_escape(c);
        let rest = json_escaped(text.skip(1));
        lemma_json_rest(before + first, text.skip(1), after, read.push(c));
        assert(before + first + rest + seq!['"'] + after =~= source);
        assert(read.push(c) + text.skip(1) =~= read + text);
        assert(source.subrange(at, at + first.len()) =~= first);
        lemma_escape(c);
        assert(source[at] == first[0]);
        if first.len() >= 2 {
            assert(source[at + 1] == first[1]);
        }
        if first.len() == 6 {
            lemma_control_digits(c);
            assert(source.subrange(at + 2, at + 6) =~= first.subrange(2, 6));
            grammar::unicode_escapes_are_read_back(source, at + 2, c);
        }
    }
}

/// A string that is written as JSON is read as the same string where a literal may stand.
pub proof fn json_strings_are_read_back(before: Seq<char>, text: Seq<char>, after: Seq<char>)
    ensures
        grammar::string_literal(before + json_string(text) + after, before.len() as int) == (
            Ok::<Seq<char>, Seq<char>>(text),
            before.len() + json_string(text).len() as int,
        ),
{
    let source = before + json_string(text) + after;
    lemma_json_rest(before + seq!['"'], text, after, Seq::empty());
    assert(before + seq!['"'] + json_escaped(text) + seq!['"'] + after =~= source);
    assert(source[before.len() as int] == '"');
    assert(Seq::<char>::empty() + text == text);
}

proof fn lemma_escaped_is_printable(text: Seq<char>)
    ensures
        forall|i: int| 0 <= i < json_escaped(text).len() ==> #[trigger] json_escaped(text)[i] >= ' ',
    decreases text.len(),
{
    if text.len() > 0 {
        lemma_escaped_is_printable(text.skip(1));
        let first = json_escape(text[0]);
        lemma_escape(text[0]);
        assert forall|i: int| 0 <= i < json_escaped(text).len() implies #[trigger] json_escaped(
            text,
        )[i] >= ' ' by {
            if i < first.len() {
                assert(json_escaped(text)[i] == first[i]);
            } else {
                assert(json_escaped(text)[i] == json_escaped(text.skip(1))[i - first.len()]);
            }
        }
    }
}

/// What a run is made of. `args` is a JSON value, as text.
#[derive(Debug, PartialEq, Eq)]
pub struct RuntimeInput<'a> {
    pub run_id: &'a str,
    pub script_path: &'a str,
    pub body: &'a str,
    pub meta: &'a WorkflowMeta,
    pub args: &'a str,
    pub journal: &'a Vec<Option<JournalRecord>>,
    pub concurrency: usize,
}

/// The first replacement whose marker stands in the template at `at`.
pub open spec fn marker_at(
    template: Seq<char>,
    replacements: Seq<(Seq<char>, Seq<char>)>,
    at: int,
    from: int,
) -> Option<int>
    decreases replacements.len() - from,
{
    if from < 0 || from >= replacements.len() {
        None
    } else if text::occurs_at(template, replacements[from].0, at) {
        Some(from)
    } else {
        marker_at(template, replacements, at, from + 1)
    }
}

pub proof fn lemma_marker_at(
    template: Seq<char>,
    replacements: Seq<(Seq<char>, Seq<char>)>,
    at: int,
    from: int,
)
    requires
        0 <= from,
    ensures
        marker_at(template, replacements, at, from) matches Some(which) ==> from <= which
            < replacements.len() && text::occurs_at(template, replacements[which].0, at),
        marker_at(template, replacements, at, from) is None ==> forall|i: int|
            from <= i < replacements.len() ==> !text::occurs_at(
                template,
                (#[trigger] replacements[i]).0,
                at,
            ),
    decreases replacements.len() - from,
{
    if from < replacements.len() && !text::occurs_at(template, replacements[from].0, at) {
        lemma_marker_at(template, replacements, at, from + 1);
    }
}

/// The template from `from` on with every marker replaced by its value. Only the template is
/// searched for markers: a value is copied as it is.
pub open spec fn substitute(
    template: Seq<char>,
    replacements: Seq<(Seq<char>, Seq<char>)>,
    from: int,
) -> Seq<char>
    decreases template.len() - from,
{
    if from < 0 || from >= template.len() {
        Seq::empty()
    } else {
        match marker_at(template, replacements, from, 0) {
            Some(which) if replacements[which].0.len() > 0 => {
                proof {
                    lemma_marker_at(template, replacements, from, 0);
                }
                replacements[which].1 + substitute(
                    template,
                    replacements,
                    from + replacements[which].0.len(),
                )
            },
            _ => seq![template[from]] + substitute(template, replacements, from + 1),
        }
    }
}

/// Text of the template in which no marker begins is kept as it is.
pub proof fn text_without_markers_is_kept(
    template: Seq<char>,
    replacements: Seq<(Seq<char>, Seq<char>)>,
    from: int,
    to: int,
)
    requires
        0 <= from <= to <= template.len(),
        forall|at: int, i: int|
            from <= at < to && 0 <= i < replacements.len() ==> !#[trigger] text::occurs_at(
                template,
                replacements[i].0,
                at,
            ),
    ensures
        substitute(template, replacements, from) == template.subrange(from, to) + substitute(
            template,
            replacements,
            to,
        ),
    decreases to - from,
{
    if from < to {
        lemma_marker_at(template, replacements, from, 0);
        text_without_markers_is_kept(template, replacements, from + 1, to);
        assert(template.subrange(from, to) == seq![template[from]] + template.subrange(
            from + 1,
            to,
        ));
        assert(substitute(template, replacements, from) == template.subrange(from, to) + substitute(
            template,
            replacements,
            to,
        ));
    } else {
        assert(substitute(template, replacements, from) == template.subrange(from, to) + substitute(
            template,
            replacements,
            to,
        ));
    }
}

/// The first marker of the template is replaced by its value, character for character, and the
/// search goes on behind the marker in the template: what the value holds is never searched.
pub proof fn values_are_copied_and_never_searched(
    template: Seq<char>,
    replacements: Seq<(Seq<char>, Seq<char>)>,
    at: int,
    which: int,
)
    requires
        0 <= at < template.len(),
        0 <= which < replacements.len(),
        replacements[which].0.len() > 0,
        text::occurs_at(template, replacements[which].0, at),
        forall|i: int|
            0 <= i < which ==> !#[trigger] text::occurs_at(template, replacements[i].0, at),
        forall|before: int, i: int|
            0 <= before < at && 0 <= i < replacements.len() ==> !#[trigger] text::occurs_at(
                template,
                replacements[i].0,
                before,
            ),
    ensures
        substitute(template, replacements, 0) == template.take(at) + replacements[which].1
            + substitute(template, replacements, at + replacements[which].0.len()),
{
    text_without_markers_is_kept(template, replacements, 0, at);
    lemma_first_marker(template, replacements, at, 0, which);
    assert(template.subrange(0, at) == template.take(at));
    assert(substitute(template, replacements, 0) == template.take(at) + replacements[which].1
        + substitute(template, replacements, at + replacements[which].0.len()));
}

proof fn lemma_first_marker(
    template: Seq<char>,
    replacements: Seq<(Seq<char>, Seq<char>)>,
    at: int,
    from: int,
    which: int,
)
    requires
        0 <= from <= which < replacements.len(),
        text::occurs_at(template, replacements[which].0, at),
        forall|i: int|
            0 <= i < which ==> !#[trigger] text::occurs_at(template, replacements[i].0, at),
    ensures
        marker_at(template, replacements, at, from) == Some(which),
    decreases which - from,
{
    if from < which {
        assert(!text::occurs_at(template, replacements[from].0, at));
        lemma_first_marker(template, replacements, at, from + 1, which);
    }
}

/// The views of a list of replacements.
pub open spec fn replacement_views(replacements: Seq<(&str, &str)>) -> Seq<
    (Seq<char>, Seq<char>),
> {
    replacements.map_values(|replacement: (&str, &str)| (replacement.0@, replacement.1@))
}

/// The index of the first marker that stands in the template at `at`.
fn find_marker(template: &[char], markers: &Vec<Vec<char>>, at: usize) -> (res: Option<usize>)
    ensures
        ({
            let found = marker_at(
                template@,
                markers@.map_values(|marker: Vec<char>| (marker@, marker@)),
                at as int,
                0,
            );
            match res {
                Some(which) => found == Some(which as int),
                None => found is None,
            }
        }),
{
    let ghost views = markers@.map_values(|marker: Vec<char>| (marker@, marker@));
    let mut i: usize = 0;
    while i < markers.len()
        invariant
            i <= markers@.len(),
            views == markers@.map_values(|marker: Vec<char>| (marker@, marker@)),
            marker_at(template@, views, at as int, 0) == marker_at(
                template@,
                views,
                at as int,
                i as int,
            ),
        decreases markers@.len() - i,
    {
        if text::part_at(template, &markers[i], at) {
            return Some(i);
        }
        i = i + 1;
    }
    None
}

/// Where the markers are the same, so is the one that is found.
proof fn lemma_same_markers(
    template: Seq<char>,
    a: Seq<(Seq<char>, Seq<char>)>,
    b: Seq<(Seq<char>, Seq<char>)>,
    at: int,
    from: int,
)
    requires
        a.len() == b.len(),
        forall|i: int| 0 <= i < a.len() ==> (#[trigger] a[i]).0 == (#[trigger] b[i]).0,
    ensures
        marker_at(template, a, at, from) == marker_at(template, b, at, from),
    decreases a.len() - from,
{
    if 0 <= from < a.len() {
        assert(a[from].0 == b[from].0);
        if !text::occurs_at(template, a[from].0, at) {
            lemma_same_markers(template, a, b, at, from + 1);
        }
    }
}

/// Puts values into the runtime in the place of their markers.
pub fn interpolate<const N: usize>(replacements: [(&str, &str); N]) -> (res: Result<String, String>)
    requires
        forall|i: int| 0 <= i < N ==> (#[trigger] replacements@[i]).0@.len() > 0,
    ensures
        res is Ok,
        res->Ok_0@ == substitute(WORKFLOW_RUNTIME@, replacement_views(replacements@), 0),
{
    let template = text::chars_of(WORKFLOW_RUNTIME);
    let ghost views = replacement_views(replacements@);
    let mut markers: Vec<Vec<char>> = Vec::new();
    let mut i: usize = 0;
    while i < N
        invariant
            i <= N,
            markers@.len() == i,
            views == replacement_views(replacements@),
            forall|j: int| 0 <= j < i ==> (#[trigger] markers@[j])@ == views[j].0,
        decreases N - i,
    {
        markers.push(text::chars_of(replacements[i].0));
        i = i + 1;
    }
    let ghost keys = markers@.map_values(|marker: Vec<char>| (marker@, marker@));
    let mut output = String::new();
    let mut at: usize = 0;
    assert(output@ + substitute(template@, views, 0) == substitute(template@, views, 0));
    while at < template.len()
        invariant
            at <= template@.len(),
            template@ == WORKFLOW_RUNTIME@,
            views == replacement_views(replacements@),
            views.len() == N,
            markers@.len() == N,
            keys == markers@.map_values(|marker: Vec<char>| (marker@, marker@)),
            forall|j: int| 0 <= j < N ==> (#[trigger] markers@[j])@ == views[j].0,
            forall|j: int| 0 <= j < N ==> (#[trigger] replacements@[j]).0@.len() > 0,
            output@ + substitute(template@, views, at as int) == substitute(
                WORKFLOW_RUNTIME@,
                views,
                0,
            ),
        decreases template@.len() - at,
    {
        proof {
            lemma_same_markers(template@, views, keys, at as int, 0);
            lemma_marker_at(template@, views, at as int, 0);
        }
        let ghost before = output@;
        let ghost rest = substitute(template@, views, at as int);
        match find_marker(&template, &markers, at) {
            Some(which) => {
                output.append(replacements[which].1);
                assert(views[which as int] == (
                    replacements@[which as int].0@,
                    replacements@[which as int].1@,
                ));
                let length: usize = template.len();
                assert(at + markers@[which as int]@.len() <= length);
                at = at + markers[which].len();
                assert(before + rest == output@ + substitute(template@, views, at as int));
            },
            None => {
                output.push(template[at]);
                at = at + 1;
                assert(before + rest == output@ + substitute(template@, views, at as int));
            },
        }
    }
    assert(output@ + substitute(template@, views, at as int) == output@);
    Ok(output)
}

/// The titles of a workflow's phases as a JSON array.
pub open spec fn phases_json(phases: Seq<PhaseView>) -> Seq<char> {
    "["@ + text::separated(phases.map_values(|phase: PhaseView| json_string(phase.title)), ","@)
        + "]"@
}

/// Writes the titles of the phases as a JSON array.
fn phases_text(phases: &Vec<WorkflowPhase>) -> (res: Result<String, String>)
    ensures
        res is Ok,
        res->Ok_0@ == phases_json(meta::phase_views(phases@)),
{
    let ghost all = meta::phase_views(phases@).map_values(
        |phase: PhaseView| json_string(phase.title),
    );
    let mut titles: Vec<String> = Vec::new();
    let mut i: usize = 0;
    while i < phases.len()
        invariant
            i <= phases@.len(),
            all == meta::phase_views(phases@).map_values(
                |phase: PhaseView| json_string(phase.title),
            ),
            text::views(titles@) == all.take(i as int),
        decreases phases@.len() - i,
    {
        let title = json(phases[i].title.as_str())?;
        let ghost before = titles@;
        titles.push(title);
        i = i + 1;
        assert(text::views(titles@) == text::views(before).push(title@));
        assert(all.take(i as int) == all.take(i - 1).push(all[i - 1]));
    }
    assert(all.take(i as int) == all);
    let listed = text::join(&titles, ",");
    Ok(text::joined3("[", listed.as_str(), "]"))
}

/// The markers of the runtime and the values that take their places.
pub open spec fn runtime_replacements(
    run_id: Seq<char>,
    script_path: Seq<char>,
    body: Seq<char>,
    declared: MetaView,
    args: Seq<char>,
    journal: Seq<Option<RecordView>>,
    concurrency: int,
) -> Seq<(Seq<char>, Seq<char>)> {
    seq![
        ("__CODEX_RUN_ID__"@, json_string(run_id)),
        ("__CODEX_SCRIPT_PATH__"@, json_string(script_path)),
        ("__CODEX_WORKFLOW_NAME__"@, json_string(declared.name)),
        ("__CODEX_WORKFLOW_BODY__"@, json_string(body)),
        ("__CODEX_PHASES__"@, phases_json(declared.phases)),
        ("__CODEX_ARGS__"@, args),
        ("__CODEX_JOURNAL__"@, journal::journal_json(journal)),
        (
            "__CODEX_CONCURRENCY__"@,
            text::decimal(
                if concurrency < 1 {
                    1
                } else {
                    concurrency
                },
            ),
        ),
    ]
}

/// The replacements for an input.
pub open spec fn input_replacements(input: RuntimeInput<'_>) -> Seq<(Seq<char>, Seq<char>)> {
    runtime_replacements(
        input.run_id@,
        input.script_path@,
        input.body@,
        input.meta@,
        input.args@,
        journal::journal_view(input.journal@),
        input.concurrency as int,
    )
}

/// Writes a run's values as JSON.
fn runtime_values(input: &RuntimeInput<'_>) -> (res: Result<[String; 8], String>)
    ensures
        res is Ok,
        forall|i: int|
            0 <= i < 8 ==> (#[trigger] res->Ok_0@[i])@ == input_replacements(*input)[i].1,
{
    let run_id = json(input.run_id)?;
    let script_path = json(input.script_path)?;
    let body = json(input.body)?;
    let workflow_name = json(input.meta.name.as_str())?;
    let phases = phases_text(&input.meta.phases)?;
    let args = input.args.to_string();
    let journal = journal::journal_text(input.journal)?;
    let concurrency: usize = if input.concurrency == 0 {
        1
    } else {
        input.concurrency
    };
    let concurrency = text::decimal_of(concurrency as u64);
    Ok([run_id, script_path, workflow_name, body, phases, args, journal, concurrency])
}

/// Builds the program of a run: the runtime with the run's values, each as JSON, in the places of
/// its markers.
pub fn build(input: RuntimeInput<'_>) -> (res: Result<String, String>)
    ensures
        res is Ok,
        res->Ok_0@ == substitute(WORKFLOW_RUNTIME@, input_replacements(input), 0),
{
    let values = match runtime_values(&input) {
        Ok(values) => values,
        Err(message) => {
            return Err(text::joined("failed to build workflow runtime: ", message.as_str()));
        },
    };
    proof {
        reveal_strlit("__CODEX_RUN_ID__");
        reveal_strlit("__CODEX_SCRIPT_PATH__");
        reveal_strlit("__CODEX_WORKFLOW_NAME__");
        reveal_strlit("__CODEX_WORKFLOW_BODY__");
        reveal_strlit("__CODEX_PHASES__");
        reveal_strlit("__CODEX_ARGS__");
        reveal_strlit("__CODEX_JOURNAL__");
        reveal_strlit("__CODEX_CONCURRENCY__");
    }
    let replacements = [
        ("__CODEX_RUN_ID__", values[0].as_str()),
        ("__CODEX_SCRIPT_PATH__", values[1].as_str()),
        ("__CODEX_WORKFLOW_NAME__", values[2].as_str()),
        ("__CODEX_WORKFLOW_BODY__", values[3].as_str()),
        ("__CODEX_PHASES__", values[4].as_str()),
        ("__CODEX_ARGS__", values[5].as_str()),
        ("__CODEX_JOURNAL__", values[6].as_str()),
        ("__CODEX_CONCURRENCY__", values[7].as_str()),
    ];
    assert(replacement_views(replacements@) == input_replacements(input));
    interpolate(replacements)
}

/// The program that a run's values are put into.
pub const WORKFLOW_RUNTIME: &'static str = r#"
const __workflowRunId = __CODEX_RUN_ID__;
const __workflowScriptPath = __CODEX_SCRIPT_PATH__;
const __workflowName = __CODEX_WORKFLOW_NAME__;
const __workflowBody = __CODEX_WORKFLOW_BODY__;
const __workflowPhases = __CODEX_PHASES__;
const __workflowArgs = __CODEX_ARGS__;
const __workflowJournal = __CODEX_JOURNAL__;
const __workflowConcurrency = __CODEX_CONCURRENCY__;

const __hostTool = name => {
  const exact = ALL_TOOLS.find(tool => tool.name === name);
  const matches = exact ? [exact] : ALL_TOOLS.filter(tool => tool.name.endsWith(`__${name}`));
  if (matches.length !== 1 || typeof tools[matches[0].name] !== 'function') {
    throw new Error(`workflow runtime requires exactly one ${name} tool`);
  }
  return tools[matches[0].name];
};
const __spawnAgent = __hostTool('spawn_agent');
const __listAgents = __hostTool('list_agents');
const __followupTask = __hostTool('followup_task');
const __appendJournal = __hostTool('workflow_journal_append');
const __loadWorkflow = __hostTool('workflow_load');

const __OriginalDate = Date;
globalThis.Date = class DeterministicWorkflowDate extends __OriginalDate {
  constructor(...values) {
    if (!values.length) throw new Error('argless new Date() is not deterministic; pass a timestamp through args');
    super(...values);
  }
  static now() { throw new Error('Date.now() is not deterministic; pass a timestamp through args'); }
};
Math.random = () => { throw new Error('Math.random() is not deterministic; vary work by agent index'); };

const __sleep = milliseconds => new Promise(resolve => setTimeout(resolve, milliseconds));
const __stableKey = value => JSON.stringify(value, (_key, item) => {
  if (!item || typeof item !== 'object' || Array.isArray(item)) return item;
  return Object.fromEntries(Object.keys(item).sort().map(key => [key, item[key]]));
});
const __hash = value => {
  let hash = 2166136261;
  for (let index = 0; index < value.length; index++) {
    hash ^= value.charCodeAt(index);
    hash = Math.imul(hash, 16777619);
  }
  return (hash >>> 0).toString(36);
};

let __activeAgents = 0;
const __agentWaiters = [];
const __withAgentSlot = async operation => {
  if (__activeAgents >= __workflowConcurrency) {
    await new Promise(resolve => __agentWaiters.push(resolve));
  }
  __activeAgents++;
  try {
    return await operation();
  } finally {
    __activeAgents--;
    __agentWaiters.shift()?.();
  }
};

let __agentIndex = 0;
let __resumePrefixOpen = true;
const __terminal = status => {
  if (status && typeof status === 'object' && Object.hasOwn(status, 'completed')) {
    return { done: true, value: status.completed ?? '' };
  }
  if (status && typeof status === 'object' && Object.hasOwn(status, 'errored')) {
    return { done: true, value: null };
  }
  if (['shutdown', 'not_found'].includes(status)) return { done: true, value: null };
  return { done: false, value: null };
};
const __waitForAgent = async (taskName, previousResult = undefined) => {
  let sawNewTurn = previousResult === undefined;
  for (let poll = 0; poll < 172800; poll++) {
    const result = await __listAgents({ path_prefix: taskName });
    const agent = result.agents?.find(item => item.agent_name === taskName);
    if (!agent) return null;
    const terminal = __terminal(agent.agent_status);
    if (!terminal.done) sawNewTurn = true;
    if (terminal.done && (sawNewTurn || terminal.value !== previousResult)) return terminal.value;
    await __sleep(500);
  }
  return null;
};

const __schemaMatches = (schema, value) => {
  if (!schema || typeof schema !== 'object') return true;
  if (Object.hasOwn(schema, 'const') && !Object.is(schema.const, value)) return false;
  if (Array.isArray(schema.enum) && !schema.enum.some(item => __stableKey(item) === __stableKey(value))) return false;
  const types = Array.isArray(schema.type) ? schema.type : schema.type ? [schema.type] : [];
  if (types.length) {
    const actual = value === null ? 'null'
      : Array.isArray(value) ? 'array'
      : Number.isInteger(value) ? 'integer'
      : typeof value === 'number' ? 'number'
      : typeof value;
    if (!types.includes(actual) && !(actual === 'integer' && types.includes('number'))) return false;
  }
  if (Array.isArray(schema.anyOf) && !schema.anyOf.some(item => __schemaMatches(item, value))) return false;
  if (Array.isArray(schema.oneOf) && schema.oneOf.filter(item => __schemaMatches(item, value)).length !== 1) return false;
  if (Array.isArray(schema.allOf) && !schema.allOf.every(item => __schemaMatches(item, value))) return false;
  if (Array.isArray(value) && schema.items && !value.every(item => __schemaMatches(schema.items, item))) return false;
  if (value && typeof value === 'object' && !Array.isArray(value)) {
    if (Array.isArray(schema.required) && !schema.required.every(key => Object.hasOwn(value, key))) return false;
    if (schema.properties && !Object.entries(schema.properties).every(([key, child]) =>
      !Object.hasOwn(value, key) || __schemaMatches(child, value[key]))) return false;
    if (schema.additionalProperties === false && schema.properties &&
        !Object.keys(value).every(key => Object.hasOwn(schema.properties, key))) return false;
  }
  return true;
};
const __structured = (text, schema) => {
  try {
    const value = JSON.parse(text);
    return __schemaMatches(schema, value) ? value : null;
  } catch (_error) {
    return null;
  }
};

const agent = (prompt, options = {}) => {
  const index = __agentIndex++;
  if (index >= 1000) return Promise.resolve(null);
  if (typeof prompt !== 'string' || !prompt.trim()) throw new Error('agent() requires a non-empty prompt');
  if (!options || typeof options !== 'object' || Array.isArray(options)) throw new Error('agent() options must be an object');
  if (options.isolation !== undefined && options.isolation !== 'shared') {
    throw new Error('workflow worktree isolation is not supported yet; use shared isolation or omit it');
  }
  const key = __stableKey({ prompt, options });
  const cached = __workflowJournal[index];
  if (__resumePrefixOpen && cached?.key === key) return Promise.resolve(cached.value);
  __resumePrefixOpen = false;

  return __withAgentSlot(async () => {
    const label = String(options.label ?? `agent_${index}`)
      .toLowerCase()
      .replace(/[^a-z0-9_]+/g, '_')
      .replace(/^_+|_+$/g, '')
      .slice(0, 24) || `agent_${index}`;
    const taskName = `wf_${__workflowRunId.replaceAll('-', '').slice(0, 8)}_${index}_${label}_${__hash(key)}`;
    const structuredSuffix = options.schema
      ? `\n\nReturn only JSON matching this schema exactly:\n${JSON.stringify(options.schema)}`
      : '';
    const spawnArgs = {
      message: prompt + structuredSuffix,
      task_name: taskName,
      fork_turns: 'none',
    };
    if (options.agentType !== undefined) spawnArgs.agent_type = options.agentType;
    if (options.model !== undefined) spawnArgs.model = options.model;
    if (options.effort !== undefined) spawnArgs.reasoning_effort = options.effort;
    let value = null;
    try {
      const spawned = await __spawnAgent(spawnArgs);
      const target = spawned.task_name ?? taskName;
      const textResult = await __waitForAgent(target);
      if (textResult !== null && options.schema) {
        value = __structured(textResult, options.schema);
        if (value === null) {
          await __followupTask({
            target,
            message: `Your previous answer did not match the required JSON schema. Return only corrected JSON matching: ${JSON.stringify(options.schema)}`,
          });
          const corrected = await __waitForAgent(target, textResult);
          value = corrected === null ? null : __structured(corrected, options.schema);
        }
      } else {
        value = textResult;
      }
    } catch (_error) {
      value = null;
    }
    await __appendJournal({ runId: __workflowRunId, index, key, value });
    return value;
  });
};

const parallel = thunks => {
  if (!Array.isArray(thunks) || thunks.length > 4096) throw new Error('parallel() expects at most 4096 thunks');
  return Promise.all(thunks.map(thunk => Promise.resolve().then(thunk).catch(() => null)));
};
const pipeline = (items, ...stages) => {
  if (!Array.isArray(items) || items.length > 4096) throw new Error('pipeline() expects at most 4096 items');
  if (!stages.every(stage => typeof stage === 'function')) throw new Error('pipeline() stages must be functions');
  return Promise.all(items.map((original, index) => (async () => {
    let current = original;
    for (const stage of stages) {
      if (current === null) break;
      try { current = await stage(current, original, index); }
      catch (_error) { current = null; }
    }
    return current;
  })()));
};

const budget = Object.freeze({
  total: null,
  spent: () => 0,
  remaining: () => Infinity,
});
const __AsyncFunction = Object.getPrototypeOf(async function () {}).constructor;
const __executeBody = async (body, bodyArgs, phaseTitles, depth) => {
  const declared = new Set(phaseTitles);
  const phase = title => {
    if (!declared.has(title)) throw new Error(`phase(${JSON.stringify(title)}) is not declared exactly in meta.phases`);
    notify(`Workflow ${__workflowName} — ${title}`);
  };
  const log = message => notify(`Workflow ${__workflowName}: ${String(message)}`);
  const localAgent = (prompt, options = {}) => {
    if (options.phase !== undefined && !declared.has(options.phase)) {
      throw new Error(`agent phase ${JSON.stringify(options.phase)} is not declared exactly in meta.phases`);
    }
    return agent(prompt, options);
  };
  const nestedWorkflow = async (target, nestedArgs = null) => {
    if (depth >= 1) throw new Error('nested workflows are limited to one level');
    const selector = typeof target === 'string' ? { name: target } : target;
    if (!selector || typeof selector !== 'object') throw new Error('workflow() expects a saved name or {scriptPath}');
    const loaded = await __loadWorkflow(selector);
    return __executeBody(loaded.body, nestedArgs, loaded.meta.phases.map(item => item.title), depth + 1);
  };
  const fn = new __AsyncFunction('agent', 'parallel', 'pipeline', 'phase', 'log', 'args', 'budget', 'workflow', body);
  return fn(localAgent, parallel, pipeline, phase, log, bodyArgs, budget, nestedWorkflow);
};

text(JSON.stringify({ taskId: __workflowRunId, scriptPath: __workflowScriptPath, name: __workflowName }));
yield_control();
try {
  const result = await __executeBody(__workflowBody, __workflowArgs, __workflowPhases, 0);
  notify(`Workflow ${__workflowName} completed${result === undefined ? '' : `: ${JSON.stringify(result)}`}`);
} catch (error) {
  notify(`Workflow ${__workflowName} failed: ${error?.message ?? String(error)}`);
  throw error;
}
"#;

} // verus!
