//! What a workflow declares of itself, read from a literal and checked.

use vstd::prelude::*;
use crate::text;
use crate::workflows::literal;
use crate::workflows::literal::{Literal, LiteralEntry, LiteralView};
use crate::workflows::parser;

verus! {

/// One phase of a workflow.
#[derive(Debug, PartialEq, Eq)]
pub struct WorkflowPhase {
    pub title: String,
    pub detail: String,
}

/// A workflow's declaration.
#[derive(Debug, PartialEq, Eq)]
pub struct WorkflowMeta {
    pub name: String,
    pub description: String,
    pub when_to_use: Option<String>,
    pub phases: Vec<WorkflowPhase>,
}

/// The view of a phase.
#[verifier::ext_equal]
pub struct PhaseView {
    pub title: Seq<char>,
    pub detail: Seq<char>,
}

/// The view of a declaration.
#[verifier::ext_equal]
pub struct MetaView {
    pub name: Seq<char>,
    pub description: Seq<char>,
    pub when_to_use: Option<Seq<char>>,
    pub phases: Seq<PhaseView>,
}

impl View for WorkflowPhase {
    type V = PhaseView;

    open spec fn view(&self) -> PhaseView {
        PhaseView { title: self.title@, detail: self.detail@ }
    }
}

/// The views of phases.
pub open spec fn phase_views(phases: Seq<WorkflowPhase>) -> Seq<PhaseView> {
    phases.map_values(|phase: WorkflowPhase| phase@)
}

impl View for WorkflowMeta {
    type V = MetaView;

    open spec fn view(&self) -> MetaView {
        MetaView {
            name: self.name@,
            description: self.description@,
            when_to_use: text::opt_view(self.when_to_use),
            phases: phase_views(self.phases@),
        }
    }
}

/// How a message names a value that does not fit.
pub open spec fn unexpected(value: LiteralView) -> Seq<char> {
    match value {
        LiteralView::Null => "null"@,
        LiteralView::Bool(true) => "boolean `true`"@,
        LiteralView::Bool(false) => "boolean `false`"@,
        LiteralView::Number(true, digits) => "floating point `"@ + digits + "`"@,
        LiteralView::Number(false, digits) => "integer `"@ + digits + "`"@,
        LiteralView::Text(content) => "string "@ + text::str_debug(content),
        LiteralView::Array(_) => "sequence"@,
        LiteralView::Object(_) => "map"@,
    }
}

/// The message for a value of the wrong type.
pub open spec fn invalid_type(value: LiteralView, expected: Seq<char>) -> Seq<char> {
    "invalid type: "@ + unexpected(value) + ", expected "@ + expected
}

/// The message for an array of the wrong length.
pub open spec fn invalid_length(length: int, expected: Seq<char>) -> Seq<char> {
    "invalid length "@ + text::decimal(length) + ", expected "@ + expected
}

/// The message for a field that is required and absent.
pub open spec fn missing_field(field: Seq<char>) -> Seq<char> {
    "missing field `"@ + field + "`"@
}

/// The message for a field that is not known.
pub open spec fn unknown_field(field: Seq<char>, expected: Seq<char>) -> Seq<char> {
    "unknown field `"@ + field + "`, expected "@ + expected
}

/// A value that must be a string.
pub open spec fn string_value(value: LiteralView) -> Result<Seq<char>, Seq<char>> {
    match value {
        LiteralView::Text(content) => Ok(content),
        _ => Err(invalid_type(value, "a string"@)),
    }
}

/// A value that must be a string or null.
pub open spec fn optional_string_value(value: LiteralView) -> Result<Option<Seq<char>>, Seq<char>> {
    match value {
        LiteralView::Null => Ok(None),
        LiteralView::Text(content) => Ok(Some(content)),
        _ => Err(invalid_type(value, "a string"@)),
    }
}

/// The index of the first entry from `from` on with the key `key`.
pub open spec fn entry_index(
    entries: Seq<(Seq<char>, LiteralView)>,
    key: Seq<char>,
    from: int,
) -> Option<int>
    decreases entries.len() - from,
{
    if from < 0 || from >= entries.len() {
        None
    } else if entries[from].0 == key {
        Some(from)
    } else {
        entry_index(entries, key, from + 1)
    }
}

/// What is wrong with one entry of a phase, if anything.
pub open spec fn phase_entry_error(entry: (Seq<char>, LiteralView)) -> Option<Seq<char>> {
    if entry.0 == "title"@ || entry.0 == "detail"@ {
        match string_value(entry.1) {
            Ok(_) => None,
            Err(message) => Some(message),
        }
    } else {
        Some(unknown_field(entry.0, "`title` or `detail`"@))
    }
}

/// The first error among the entries of a phase from `from` on.
pub open spec fn phase_entries_error(
    entries: Seq<(Seq<char>, LiteralView)>,
    from: int,
) -> Option<Seq<char>>
    decreases entries.len() - from,
{
    if from < 0 || from >= entries.len() {
        None
    } else {
        match phase_entry_error(entries[from]) {
            Some(message) => Some(message),
            None => phase_entries_error(entries, from + 1),
        }
    }
}

/// A phase given as an object.
pub open spec fn phase_of_entries(entries: Seq<(Seq<char>, LiteralView)>) -> Result<
    PhaseView,
    Seq<char>,
> {
    match phase_entries_error(entries, 0) {
        Some(message) => Err(message),
        None => match (entry_index(entries, "title"@, 0), entry_index(entries, "detail"@, 0)) {
            (None, _) => Err(missing_field("title"@)),
            (_, None) => Err(missing_field("detail"@)),
            (Some(title), Some(detail)) => Ok(
                PhaseView { title: entries[title].1->Text_0, detail: entries[detail].1->Text_0 },
            ),
        },
    }
}

/// A phase given as an array: its title, then its detail.
pub open spec fn phase_of_items(items: Seq<LiteralView>) -> Result<PhaseView, Seq<char>> {
    if items.len() == 0 {
        Err(invalid_length(0, "struct WorkflowPhase with 2 elements"@))
    } else {
        match string_value(items[0]) {
            Err(message) => Err(message),
            Ok(title) => if items.len() == 1 {
                Err(invalid_length(1, "struct WorkflowPhase with 2 elements"@))
            } else {
                match string_value(items[1]) {
                    Err(message) => Err(message),
                    Ok(detail) => if items.len() > 2 {
                        Err(invalid_length(items.len() as int, "fewer elements in array"@))
                    } else {
                        Ok(PhaseView { title, detail })
                    },
                }
            },
        }
    }
}

/// A value that must be a phase.
pub open spec fn phase_value(value: LiteralView) -> Result<PhaseView, Seq<char>> {
    match value {
        LiteralView::Object(entries) => phase_of_entries(entries),
        LiteralView::Array(items) => phase_of_items(items),
        _ => Err(invalid_type(value, "struct WorkflowPhase"@)),
    }
}

/// The phases of an array's items, or the error of the first that is none.
pub open spec fn phase_list(items: Seq<LiteralView>) -> Result<Seq<PhaseView>, Seq<char>>
    decreases items.len(),
{
    if items.len() == 0 {
        Ok(Seq::empty())
    } else {
        match phase_list(items.drop_last()) {
            Err(message) => Err(message),
            Ok(phases) => match phase_value(items.last()) {
                Err(message) => Err(message),
                Ok(phase) => Ok(phases.push(phase)),
            },
        }
    }
}

/// A value that must be an array of phases.
pub open spec fn phases_value(value: LiteralView) -> Result<Seq<PhaseView>, Seq<char>> {
    match value {
        LiteralView::Array(items) => phase_list(items),
        _ => Err(invalid_type(value, "a sequence"@)),
    }
}

/// What is wrong with one entry of a declaration, if anything.
pub open spec fn meta_entry_error(entry: (Seq<char>, LiteralView)) -> Option<Seq<char>> {
    if entry.0 == "name"@ || entry.0 == "description"@ {
        match string_value(entry.1) {
            Ok(_) => None,
            Err(message) => Some(message),
        }
    } else if entry.0 == "whenToUse"@ {
        match optional_string_value(entry.1) {
            Ok(_) => None,
            Err(message) => Some(message),
        }
    } else if entry.0 == "phases"@ {
        match phases_value(entry.1) {
            Ok(_) => None,
            Err(message) => Some(message),
        }
    } else {
        Some(
            unknown_field(
                entry.0,
                "one of `name`, `description`, `whenToUse`, `phases`"@,
            ),
        )
    }
}

/// The first error among the entries of a declaration from `from` on.
pub open spec fn meta_entries_error(
    entries: Seq<(Seq<char>, LiteralView)>,
    from: int,
) -> Option<Seq<char>>
    decreases entries.len() - from,
{
    if from < 0 || from >= entries.len() {
        None
    } else {
        match meta_entry_error(entries[from]) {
            Some(message) => Some(message),
            None => meta_entries_error(entries, from + 1),
        }
    }
}

/// A declaration given as an object.
pub open spec fn meta_of_entries(entries: Seq<(Seq<char>, LiteralView)>) -> Result<
    MetaView,
    Seq<char>,
> {
    let name = entry_index(entries, "name"@, 0);
    let description = entry_index(entries, "description"@, 0);
    let phases = entry_index(entries, "phases"@, 0);
    if let Some(message) = meta_entries_error(entries, 0) {
        Err(message)
    } else if name is None {
        Err(missing_field("name"@))
    } else if description is None {
        Err(missing_field("description"@))
    } else if phases is None {
        Err(missing_field("phases"@))
    } else {
        Ok(
            MetaView {
                name: entries[name->0].1->Text_0,
                description: entries[description->0].1->Text_0,
                when_to_use: match entry_index(entries, "whenToUse"@, 0) {
                    None => None,
                    Some(at) => optional_string_value(entries[at].1)->Ok_0,
                },
                phases: phases_value(entries[phases->0].1)->Ok_0,
            },
        )
    }
}

/// A declaration given as an array of its four fields in order.
pub open spec fn meta_of_items(items: Seq<LiteralView>) -> Result<MetaView, Seq<char>> {
    let expected = "struct WorkflowMeta with 4 elements"@;
    if items.len() == 0 {
        Err(invalid_length(0, expected))
    } else if string_value(items[0]) is Err {
        Err(string_value(items[0])->Err_0)
    } else if items.len() == 1 {
        Err(invalid_length(1, expected))
    } else if string_value(items[1]) is Err {
        Err(string_value(items[1])->Err_0)
    } else if items.len() == 2 {
        Err(invalid_length(2, expected))
    } else if optional_string_value(items[2]) is Err {
        Err(optional_string_value(items[2])->Err_0)
    } else if items.len() == 3 {
        Err(invalid_length(3, expected))
    } else if phases_value(items[3]) is Err {
        Err(phases_value(items[3])->Err_0)
    } else if items.len() > 4 {
        Err(invalid_length(items.len() as int, "fewer elements in array"@))
    } else {
        Ok(
            MetaView {
                name: string_value(items[0])->Ok_0,
                description: string_value(items[1])->Ok_0,
                when_to_use: optional_string_value(items[2])->Ok_0,
                phases: phases_value(items[3])->Ok_0,
            },
        )
    }
}

/// A value that must be a declaration.
pub open spec fn meta_value(value: LiteralView) -> Result<MetaView, Seq<char>> {
    match value {
        LiteralView::Object(entries) => meta_of_entries(entries),
        LiteralView::Array(items) => meta_of_items(items),
        _ => Err(invalid_type(value, "struct WorkflowMeta"@)),
    }
}

/// The views of a read phase, or the message.
pub open spec fn phase_outcome(res: Result<WorkflowPhase, String>) -> Result<PhaseView, Seq<char>> {
    match res {
        Ok(phase) => Ok(phase@),
        Err(message) => Err(message@),
    }
}

/// The views of read phases, or the message.
pub open spec fn phases_outcome(res: Result<Vec<WorkflowPhase>, String>) -> Result<
    Seq<PhaseView>,
    Seq<char>,
> {
    match res {
        Ok(phases) => Ok(phase_views(phases@)),
        Err(message) => Err(message@),
    }
}

/// The view of a read declaration, or the message.
pub open spec fn meta_outcome(res: Result<WorkflowMeta, String>) -> Result<MetaView, Seq<char>> {
    match res {
        Ok(meta) => Ok(meta@),
        Err(message) => Err(message@),
    }
}

fn unexpected_text(value: &Literal) -> (res: String)
    ensures
        res@ == unexpected(value@),
{
    match value {
        Literal::Null => "null".to_string(),
        Literal::Bool(flag) => if *flag {
            "boolean `true`".to_string()
        } else {
            "boolean `false`".to_string()
        },
        Literal::Number(number) => if number.fractional {
            text::joined3("floating point `", number.text.as_str(), "`")
        } else {
            text::joined3("integer `", number.text.as_str(), "`")
        },
        Literal::Text(content) => {
            let shown = text::debug_str(content.as_str());
            text::joined("string ", shown.as_str())
        },
        Literal::Array(_) => "sequence".to_string(),
        Literal::Object(_) => "map".to_string(),
    }
}

fn invalid_type_text(value: &Literal, expected: &str) -> (res: String)
    ensures
        res@ == invalid_type(value@, expected@),
{
    let found = unexpected_text(value);
    let mut message = text::joined3("invalid type: ", found.as_str(), ", expected ");
    message.append(expected);
    message
}

fn invalid_length_text(length: usize, expected: &str) -> (res: String)
    ensures
        res@ == invalid_length(length as int, expected@),
{
    let digits = text::decimal_of(length as u64);
    let mut message = text::joined3("invalid length ", digits.as_str(), ", expected ");
    message.append(expected);
    message
}

fn unknown_field_text(field: &str, expected: &str) -> (res: String)
    ensures
        res@ == unknown_field(field@, expected@),
{
    let mut message = text::joined3("unknown field `", field, "`, expected ");
    message.append(expected);
    message
}

/// Reads a string.
pub fn read_string(value: &Literal) -> (res: Result<String, String>)
    ensures
        parser::text_outcome(res) == string_value(value@),
{
    match value {
        Literal::Text(content) => Ok(content.clone()),
        _ => Err(invalid_type_text(value, "a string")),
    }
}

/// Reads a string or null.
pub fn read_optional_string(value: &Literal) -> (res: Result<Option<String>, String>)
    ensures
        match res {
            Ok(content) => optional_string_value(value@) == Ok::<Option<Seq<char>>, Seq<char>>(
                text::opt_view(content),
            ),
            Err(message) => optional_string_value(value@) == Err::<Option<Seq<char>>, Seq<char>>(
                message@,
            ),
        },
{
    match value {
        Literal::Null => Ok(None),
        Literal::Text(content) => Ok(Some(content.clone())),
        _ => Err(invalid_type_text(value, "a string")),
    }
}

/// The index of the entry with the key `key`.
fn find_entry(entries: &Vec<LiteralEntry>, key: &str) -> (res: Option<usize>)
    ensures
        match res {
            Some(at) => entry_index(literal::entry_views(entries@), key@, 0) == Some(at as int) && at
                < entries@.len() && entries@[at as int].key@ == key@,
            None => entry_index(literal::entry_views(entries@), key@, 0) is None,
        },
{
    let ghost views = literal::entry_views(entries@);
    proof {
        literal::lemma_entry_views(entries@);
    }
    let mut i: usize = 0;
    while i < entries.len()
        invariant
            i <= entries@.len(),
            views == literal::entry_views(entries@),
            views.len() == entries@.len(),
            forall|j: int|
                0 <= j < entries@.len() ==> #[trigger] views[j] == (
                    entries@[j].key@,
                    entries@[j].value@,
                ),
            entry_index(views, key@, 0) == entry_index(views, key@, i as int),
        decreases entries@.len() - i,
    {
        if text::same_text(entries[i].key.as_str(), key) {
            return Some(i);
        }
        i = i + 1;
    }
    None
}

/// Once no entry is wrong, each is what its key asks for.
proof fn lemma_phase_entry(entries: Seq<(Seq<char>, LiteralView)>, from: int, at: int)
    requires
        phase_entries_error(entries, from) is None,
        0 <= from <= at < entries.len(),
    ensures
        phase_entry_error(entries[at]) is None,
    decreases entries.len() - from,
{
    if from < at {
        lemma_phase_entry(entries, from + 1, at);
    }
}

/// Once no entry is wrong, each is what its key asks for.
proof fn lemma_meta_entry(entries: Seq<(Seq<char>, LiteralView)>, from: int, at: int)
    requires
        meta_entries_error(entries, from) is None,
        0 <= from <= at < entries.len(),
    ensures
        meta_entry_error(entries[at]) is None,
    decreases entries.len() - from,
{
    if from < at {
        lemma_meta_entry(entries, from + 1, at);
    }
}

/// The names of the fields are told apart by their lengths.
proof fn lemma_field_names()
    ensures
        "title"@ != "detail"@,
        "name"@ != "description"@,
        "name"@ != "phases"@,
        "name"@ != "whenToUse"@,
        "description"@ != "phases"@,
        "description"@ != "whenToUse"@,
        "phases"@ != "whenToUse"@,
{
    reveal_strlit("title");
    reveal_strlit("detail");
    reveal_strlit("name");
    reveal_strlit("description");
    reveal_strlit("phases");
    reveal_strlit("whenToUse");
    assert("title"@.len() != "detail"@.len());
    assert("name"@.len() == 4 && "description"@.len() == 11 && "phases"@.len() == 6
        && "whenToUse"@.len() == 9);
}

fn read_phase_object(entries: &Vec<LiteralEntry>) -> (res: Result<WorkflowPhase, String>)
    ensures
        phase_outcome(res) == phase_of_entries(literal::entry_views(entries@)),
{
    let ghost views = literal::entry_views(entries@);
    proof {
        literal::lemma_entry_views(entries@);
    }
    let mut i: usize = 0;
    while i < entries.len()
        invariant
            i <= entries@.len(),
            views == literal::entry_views(entries@),
            views.len() == entries@.len(),
            forall|j: int|
                0 <= j < entries@.len() ==> #[trigger] views[j] == (
                    entries@[j].key@,
                    entries@[j].value@,
                ),
            phase_entries_error(views, 0) == phase_entries_error(views, i as int),
        decreases entries@.len() - i,
    {
        let entry = &entries[i];
        if text::same_text(entry.key.as_str(), "title") || text::same_text(
            entry.key.as_str(),
            "detail",
        ) {
            match read_string(&entry.value) {
                Ok(_) => {},
                Err(message) => {
                    return Err(message);
                },
            }
        } else {
            return Err(unknown_field_text(entry.key.as_str(), "`title` or `detail`"));
        }
        i = i + 1;
    }
    let title = match find_entry(entries, "title") {
        Some(title) => title,
        None => {
            return Err(text::joined3("missing field `", "title", "`"));
        },
    };
    let detail = match find_entry(entries, "detail") {
        Some(detail) => detail,
        None => {
            return Err(text::joined3("missing field `", "detail", "`"));
        },
    };
    proof {
        lemma_phase_entry(views, 0, title as int);
        lemma_phase_entry(views, 0, detail as int);
    }
    match (read_string(&entries[title].value), read_string(&entries[detail].value)) {
        (Ok(title), Ok(detail)) => Ok(WorkflowPhase { title, detail }),
        (Err(message), _) => Err(message),
        (_, Err(message)) => Err(message),
    }
}

fn read_phase_array(items: &Vec<Literal>) -> (res: Result<WorkflowPhase, String>)
    ensures
        phase_outcome(res) == phase_of_items(literal::literal_views(items@)),
{
    proof {
        literal::lemma_literal_views(items@);
    }
    if items.len() == 0 {
        return Err(invalid_length_text(0, "struct WorkflowPhase with 2 elements"));
    }
    let title = match read_string(&items[0]) {
        Ok(title) => title,
        Err(message) => {
            return Err(message);
        },
    };
    if items.len() == 1 {
        return Err(invalid_length_text(1, "struct WorkflowPhase with 2 elements"));
    }
    let detail = match read_string(&items[1]) {
        Ok(detail) => detail,
        Err(message) => {
            return Err(message);
        },
    };
    if items.len() > 2 {
        return Err(invalid_length_text(items.len(), "fewer elements in array"));
    }
    Ok(WorkflowPhase { title, detail })
}

/// Reads a phase.
pub fn read_phase(value: &Literal) -> (res: Result<WorkflowPhase, String>)
    ensures
        phase_outcome(res) == phase_value(value@),
{
    match value {
        Literal::Object(entries) => read_phase_object(entries),
        Literal::Array(items) => read_phase_array(items),
        _ => Err(invalid_type_text(value, "struct WorkflowPhase")),
    }
}

/// An error among the first items is the error of the whole list.
proof fn lemma_phase_list_prefix(items: Seq<LiteralView>, upto: int)
    requires
        0 <= upto <= items.len(),
        phase_list(items.take(upto)) is Err,
    ensures
        phase_list(items) == phase_list(items.take(upto)),
    decreases items.len(),
{
    if upto == items.len() {
        assert(items.take(upto) == items);
    } else {
        assert(items.drop_last().take(upto) == items.take(upto));
        lemma_phase_list_prefix(items.drop_last(), upto);
    }
}

/// Reads the phases.
pub fn read_phases(value: &Literal) -> (res: Result<Vec<WorkflowPhase>, String>)
    ensures
        phases_outcome(res) == phases_value(value@),
{
    match value {
        Literal::Array(items) => {
            let ghost views = literal::literal_views(items@);
            proof {
                literal::lemma_literal_views(items@);
            }
            let mut phases: Vec<WorkflowPhase> = Vec::new();
            let mut i: usize = 0;
            assert(phase_views(phases@) == Seq::<PhaseView>::empty());
            while i < items.len()
                invariant
                    i <= items@.len(),
                    value@ == LiteralView::Array(views),
                    views == literal::literal_views(items@),
                    views.len() == items@.len(),
                    forall|j: int| 0 <= j < items@.len() ==> #[trigger] views[j] == items@[j]@,
                    phase_list(views.take(i as int)) == Ok::<Seq<PhaseView>, Seq<char>>(
                        phase_views(phases@),
                    ),
                decreases items@.len() - i,
            {
                assert(views.take(i + 1).drop_last() == views.take(i as int));
                assert(views.take(i + 1).last() == items@[i as int]@);
                match read_phase(&items[i]) {
                    Ok(phase) => {
                        let ghost before = phases@;
                        phases.push(phase);
                        assert(phase_views(phases@) == phase_views(before).push(phase@));
                    },
                    Err(message) => {
                        proof {
                            lemma_phase_list_prefix(views, i + 1);
                        }
                        return Err(message);
                    },
                }
                i = i + 1;
            }
            assert(views.take(i as int) == views);
            Ok(phases)
        },
        _ => Err(invalid_type_text(value, "a sequence")),
    }
}

/// Checks one entry of a declaration.
fn check_meta_entry(entry: &LiteralEntry) -> (res: Option<String>)
    ensures
        text::opt_view(res) == meta_entry_error((entry.key@, entry.value@)),
{
    let key = entry.key.as_str();
    if text::same_text(key, "name") || text::same_text(key, "description") {
        match read_string(&entry.value) {
            Ok(_) => None,
            Err(message) => Some(message),
        }
    } else if text::same_text(key, "whenToUse") {
        match read_optional_string(&entry.value) {
            Ok(_) => None,
            Err(message) => Some(message),
        }
    } else if text::same_text(key, "phases") {
        match read_phases(&entry.value) {
            Ok(_) => None,
            Err(message) => Some(message),
        }
    } else {
        Some(unknown_field_text(key, "one of `name`, `description`, `whenToUse`, `phases`"))
    }
}

fn read_meta_object(entries: &Vec<LiteralEntry>) -> (res: Result<WorkflowMeta, String>)
    ensures
        meta_outcome(res) == meta_of_entries(literal::entry_views(entries@)),
{
    let ghost views = literal::entry_views(entries@);
    proof {
        literal::lemma_entry_views(entries@);
        lemma_field_names();
    }
    let mut i: usize = 0;
    while i < entries.len()
        invariant
            i <= entries@.len(),
            views == literal::entry_views(entries@),
            views.len() == entries@.len(),
            forall|j: int|
                0 <= j < entries@.len() ==> #[trigger] views[j] == (
                    entries@[j].key@,
                    entries@[j].value@,
                ),
            meta_entries_error(views, 0) == meta_entries_error(views, i as int),
        decreases entries@.len() - i,
    {
        match check_meta_entry(&entries[i]) {
            Some(message) => {
                return Err(message);
            },
            None => {},
        }
        i = i + 1;
    }
    let name_at = match find_entry(entries, "name") {
        Some(at) => at,
        None => {
            return Err(text::joined3("missing field `", "name", "`"));
        },
    };
    let description_at = match find_entry(entries, "description") {
        Some(at) => at,
        None => {
            return Err(text::joined3("missing field `", "description", "`"));
        },
    };
    let phases_at = match find_entry(entries, "phases") {
        Some(at) => at,
        None => {
            return Err(text::joined3("missing field `", "phases", "`"));
        },
    };
    proof {
        lemma_meta_entry(views, 0, name_at as int);
        lemma_meta_entry(views, 0, description_at as int);
        lemma_meta_entry(views, 0, phases_at as int);
    }
    let name = read_string(&entries[name_at].value)?;
    let description = read_string(&entries[description_at].value)?;
    let when_to_use = match find_entry(entries, "whenToUse") {
        Some(at) => {
            proof {
                lemma_meta_entry(views, 0, at as int);
            }
            read_optional_string(&entries[at].value)?
        },
        None => None,
    };
    let phases = read_phases(&entries[phases_at].value)?;
    Ok(WorkflowMeta { name, description, when_to_use, phases })
}

fn read_meta_array(items: &Vec<Literal>) -> (res: Result<WorkflowMeta, String>)
    ensures
        meta_outcome(res) == meta_of_items(literal::literal_views(items@)),
{
    proof {
        literal::lemma_literal_views(items@);
    }
    let expected = "struct WorkflowMeta with 4 elements";
    if items.len() == 0 {
        return Err(invalid_length_text(0, expected));
    }
    let name = match read_string(&items[0]) {
        Ok(name) => name,
        Err(message) => {
            return Err(message);
        },
    };
    if items.len() == 1 {
        return Err(invalid_length_text(1, expected));
    }
    let description = match read_string(&items[1]) {
        Ok(description) => description,
        Err(message) => {
            return Err(message);
        },
    };
    if items.len() == 2 {
        return Err(invalid_length_text(2, expected));
    }
    let when_to_use = match read_optional_string(&items[2]) {
        Ok(when_to_use) => when_to_use,
        Err(message) => {
            return Err(message);
        },
    };
    if items.len() == 3 {
        return Err(invalid_length_text(3, expected));
    }
    let phases = match read_phases(&items[3]) {
        Ok(phases) => phases,
        Err(message) => {
            return Err(message);
        },
    };
    if items.len() > 4 {
        return Err(invalid_length_text(items.len(), "fewer elements in array"));
    }
    Ok(WorkflowMeta { name, description, when_to_use, phases })
}

/// Reads a declaration.
pub fn read_meta(value: &Literal) -> (res: Result<WorkflowMeta, String>)
    ensures
        meta_outcome(res) == meta_value(value@),
{
    match value {
        Literal::Object(entries) => read_meta_object(entries),
        Literal::Array(items) => read_meta_array(items),
        _ => Err(invalid_type_text(value, "struct WorkflowMeta")),
    }
}

/// Whether a title stands among the phases before `upto`.
pub open spec fn title_before(phases: Seq<PhaseView>, upto: int, title: Seq<char>) -> bool {
    exists|i: int| 0 <= i < upto && (#[trigger] phases[i]).title == title
}

/// What is wrong with the phase at `at`, if anything.
pub open spec fn phase_problem(phases: Seq<PhaseView>, at: int) -> Option<Seq<char>> {
    let title = phases[at].title;
    if text::trim(title).len() == 0 || text::byte_length(title) > 100 {
        Some("workflow phase titles must contain 1 to 100 characters"@)
    } else if text::byte_length(phases[at].detail) > 500 {
        Some("workflow phase details cannot exceed 500 characters"@)
    } else if title_before(phases, at, title) {
        Some(
            "workflow phase title "@ + text::str_debug(title) + " is declared more than once"@,
        )
    } else {
        None
    }
}

/// The first problem among the phases from `from` on.
pub open spec fn phases_problem(phases: Seq<PhaseView>, from: int) -> Option<Seq<char>>
    decreases phases.len() - from,
{
    if from < 0 || from >= phases.len() {
        None
    } else {
        match phase_problem(phases, from) {
            Some(message) => Some(message),
            None => phases_problem(phases, from + 1),
        }
    }
}

/// What is wrong with a declaration, if anything.
pub open spec fn meta_problem(meta: MetaView) -> Option<Seq<char>> {
    if text::trim(meta.name).len() == 0 || text::byte_length(meta.name) > 100 {
        Some("workflow meta.name must contain 1 to 100 characters"@)
    } else if text::trim(meta.description).len() == 0 || text::byte_length(meta.description) > 500 {
        Some("workflow meta.description must contain 1 to 500 characters"@)
    } else if meta.phases.len() > 100 {
        Some("workflow meta.phases cannot contain more than 100 phases"@)
    } else {
        phases_problem(meta.phases, 0)
    }
}

/// Checks the sizes of a declaration's texts and that no two phases share a title.
pub fn validate_meta(meta: &WorkflowMeta) -> (res: Result<(), String>)
    ensures
        match res {
            Ok(_) => meta_problem(meta@) is None,
            Err(message) => meta_problem(meta@) == Some(message@),
        },
{
    if text::is_blank(meta.name.as_str()) || text::byte_len(meta.name.as_str()) > 100 {
        return Err("workflow meta.name must contain 1 to 100 characters".to_string());
    }
    if text::is_blank(meta.description.as_str()) || text::byte_len(meta.description.as_str())
        > 500 {
        return Err("workflow meta.description must contain 1 to 500 characters".to_string());
    }
    if meta.phases.len() > 100 {
        return Err("workflow meta.phases cannot contain more than 100 phases".to_string());
    }
    let ghost views = phase_views(meta.phases@);
    let mut i: usize = 0;
    while i < meta.phases.len()
        invariant
            i <= meta.phases@.len() <= 100,
            views == phase_views(meta.phases@),
            meta_problem(meta@) == phases_problem(views, i as int),
        decreases meta.phases@.len() - i,
    {
        let phase = &meta.phases[i];
        if text::is_blank(phase.title.as_str()) || text::byte_len(phase.title.as_str()) > 100 {
            return Err("workflow phase titles must contain 1 to 100 characters".to_string());
        }
        if text::byte_len(phase.detail.as_str()) > 500 {
            return Err("workflow phase details cannot exceed 500 characters".to_string());
        }
        let mut j: usize = 0;
        while j < i
            invariant
                j <= i < meta.phases@.len(),
                views == phase_views(meta.phases@),
                *phase == meta.phases@[i as int],
                text::trim(phase.title@).len() > 0,
                text::byte_length(phase.title@) <= 100,
                text::byte_length(phase.detail@) <= 500,
                meta_problem(meta@) == phases_problem(views, i as int),
                forall|k: int| 0 <= k < j ==> (#[trigger] views[k]).title != phase.title@,
            decreases i - j,
        {
            if text::same_text(meta.phases[j].title.as_str(), phase.title.as_str()) {
                assert(views[j as int].title == phase.title@);
                let shown = text::debug_str(phase.title.as_str());
                return Err(
                    text::joined3(
                        "workflow phase title ",
                        shown.as_str(),
                        " is declared more than once",
                    ),
                );
            }
            j = j + 1;
        }
        i = i + 1;
    }
    Ok(())
}

proof fn lemma_phases_problem(phases: Seq<PhaseView>, from: int, at: int)
    requires
        phases_problem(phases, from) is None,
        0 <= from <= at < phases.len(),
    ensures
        phase_problem(phases, at) is None,
    decreases phases.len() - from,
{
    if from < at {
        lemma_phases_problem(phases, from + 1, at);
    }
}

/// In a declaration that passes the checks every text is within its limit, names and titles are
/// not blank, and no two phases share a title.
pub proof fn checked_declarations_are_sound(meta: MetaView)
    requires
        meta_problem(meta) is None,
    ensures
        text::trim(meta.name).len() > 0,
        text::byte_length(meta.name) <= 100,
        text::trim(meta.description).len() > 0,
        text::byte_length(meta.description) <= 500,
        meta.phases.len() <= 100,
        forall|i: int|
            0 <= i < meta.phases.len() ==> text::trim((#[trigger] meta.phases[i]).title).len() > 0
                && text::byte_length(meta.phases[i].title) <= 100 && text::byte_length(
                meta.phases[i].detail,
            ) <= 500,
        forall|i: int, j: int|
            0 <= i < j < meta.phases.len() ==> (#[trigger] meta.phases[i]).title
                != (#[trigger] meta.phases[j]).title,
{
    assert forall|i: int| 0 <= i < meta.phases.len() implies #[trigger] phase_problem(
        meta.phases,
        i,
    ) is None by {
        lemma_phases_problem(meta.phases, 0, i);
    }
    assert forall|i: int| 0 <= i < meta.phases.len() implies text::trim(
        (#[trigger] meta.phases[i]).title,
    ).len() > 0 && text::byte_length(meta.phases[i].title) <= 100 && text::byte_length(
        meta.phases[i].detail,
    ) <= 500 by {
        assert(phase_problem(meta.phases, i) is None);
    }
    assert forall|i: int, j: int| 0 <= i < j < meta.phases.len() implies (
    #[trigger] meta.phases[i]).title != (#[trigger] meta.phases[j]).title by {
        assert(phase_problem(meta.phases, j) is None);
        assert(!title_before(meta.phases, j, meta.phases[j].title));
    }
}

} // verus!
