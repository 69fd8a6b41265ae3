//! The journal of a run: the results of its agents, by index.

use vstd::prelude::*;
use crate::text;
use crate::workflows::parser;
use crate::workflows::runtime;

verus! {

/// The result of one agent of a run. `value` is a JSON value, as text.
#[derive(Debug, PartialEq, Eq)]
pub struct JournalRecord {
    pub index: u32,
    pub key: String,
    pub value: String,
}

/// The view of a record.
#[verifier::ext_equal]
pub struct RecordView {
    pub index: nat,
    pub key: Seq<char>,
    pub value: Seq<char>,
}

impl View for JournalRecord {
    type V = RecordView;

    open spec fn view(&self) -> RecordView {
        RecordView { index: self.index as nat, key: self.key@, value: self.value@ }
    }
}

/// The view of a place in a journal.
pub open spec fn place_view(place: Option<JournalRecord>) -> Option<RecordView> {
    match place {
        Some(record) => Some(record@),
        None => None,
    }
}

/// The views of a journal's places.
pub open spec fn journal_view(journal: Seq<Option<JournalRecord>>) -> Seq<Option<RecordView>> {
    journal.map_values(|place: Option<JournalRecord>| place_view(place))
}

/// A record as a JSON object.
pub open spec fn record_json(record: RecordView) -> Seq<char> {
    "{\"index\":"@ + text::decimal(record.index as int) + ",\"key\":"@ + runtime::json_string(record.key)
        + ",\"value\":"@ + record.value + "}"@
}

/// A place of a journal as JSON: its record, or null.
pub open spec fn place_json(place: Option<RecordView>) -> Seq<char> {
    match place {
        Some(record) => record_json(record),
        None => "null"@,
    }
}

/// A journal as a JSON array.
pub open spec fn journal_json(journal: Seq<Option<RecordView>>) -> Seq<char> {
    "["@ + text::separated(
        journal.map_values(|place: Option<RecordView>| place_json(place)),
        ","@,
    ) + "]"@
}

/// Writes a record as a JSON object.
pub fn record_text(record: &JournalRecord) -> (res: Result<String, String>)
    ensures
        res is Ok,
        res->Ok_0@ == record_json(record@),
{
    let key = runtime::json(record.key.as_str())?;
    let index = text::decimal_of(record.index as u64);
    let mut out = text::joined3("{\"index\":", index.as_str(), ",\"key\":");
    out.append(key.as_str());
    out.append(",\"value\":");
    out.append(record.value.as_str());
    out.append("}");
    Ok(out)
}

/// Writes a journal as a JSON array.
pub fn journal_text(journal: &Vec<Option<JournalRecord>>) -> (res: Result<String, String>)
    ensures
        res is Ok,
        res->Ok_0@ == journal_json(journal_view(journal@)),
{
    let ghost all = journal_view(journal@).map_values(
        |place: Option<RecordView>| place_json(place),
    );
    let mut places: Vec<String> = Vec::new();
    let mut i: usize = 0;
    while i < journal.len()
        invariant
            i <= journal@.len(),
            all == journal_view(journal@).map_values(|place: Option<RecordView>| place_json(place)),
            text::views(places@) == all.take(i as int),
        decreases journal@.len() - i,
    {
        let place = match &journal[i] {
            Some(record) => record_text(record)?,
            None => "null".to_string(),
        };
        let ghost before = places@;
        places.push(place);
        i = i + 1;
        assert(text::views(places@) == text::views(before).push(place@));
        assert(all.take(i as int) == all.take(i - 1).push(all[i - 1]));
    }
    assert(all.take(i as int) == all);
    let listed = text::join(&places, ",");
    Ok(text::joined3("[", listed.as_str(), "]"))
}

/// How many agents a run may have in its life.
pub const MAX_WORKFLOW_AGENTS: u32 = 1000;

/// How long a journal's record may be.
pub const MAX_JOURNAL_RECORD_BYTES: usize = 1048576;

/// How long a journal may be.
pub const MAX_JOURNAL_BYTES: u64 = 67108864;

/// A line of a journal: how long it is and the record it holds, or the messages of the reader and
/// of the JSON parser.
#[derive(Debug, PartialEq, Eq)]
pub enum JournalLine {
    Unreadable(String),
    Read { bytes: usize, record: Result<JournalRecord, String> },
}

/// The view of a line.
pub enum LineView {
    Unreadable(Seq<char>),
    Read { bytes: int, record: Result<RecordView, Seq<char>> },
}

impl View for JournalLine {
    type V = LineView;

    open spec fn view(&self) -> LineView {
        match self {
            JournalLine::Unreadable(message) => LineView::Unreadable(message@),
            JournalLine::Read { bytes, record: Ok(record) } => LineView::Read {
                bytes: *bytes as int,
                record: Ok(record@),
            },
            JournalLine::Read { bytes, record: Err(message) } => LineView::Read {
                bytes: *bytes as int,
                record: Err(message@),
            },
        }
    }
}

/// The views of lines.
pub open spec fn line_views(lines: Seq<JournalLine>) -> Seq<LineView> {
    lines.map_values(|line: JournalLine| line@)
}

/// What a line contributes: its record, or what is wrong with it.
pub open spec fn line_record(line: LineView) -> Result<RecordView, Seq<char>> {
    match line {
        LineView::Unreadable(message) => Err("failed to read workflow journal: "@ + message),
        LineView::Read { bytes, record } => if bytes > MAX_JOURNAL_RECORD_BYTES {
            Err("workflow journal record exceeds the 1048576-byte limit"@)
        } else {
            match record {
                Err(message) => Err("workflow journal is invalid: "@ + message),
                Ok(record) => if record.index >= MAX_WORKFLOW_AGENTS {
                    Err("workflow journal agent index must be below 1000"@)
                } else {
                    Ok(record)
                },
            }
        },
    }
}

/// The journal with one more record at its place, in the stead of an earlier one there.
pub open spec fn with_record(journal: Seq<Option<RecordView>>, record: RecordView) -> Seq<
    Option<RecordView>,
> {
    Seq::new(
        if journal.len() > record.index {
            journal.len()
        } else {
            record.index + 1
        },
        |i: int|
            if i == record.index {
                Some(record)
            } else if i < journal.len() {
                journal[i]
            } else {
                None
            },
    )
}

/// The journal that lines make, or the error of the first that is wrong.
pub open spec fn journal_of(lines: Seq<LineView>) -> Result<Seq<Option<RecordView>>, Seq<char>>
    decreases lines.len(),
{
    if lines.len() == 0 {
        Ok(Seq::empty())
    } else {
        match journal_of(lines.drop_last()) {
            Err(message) => Err(message),
            Ok(journal) => match line_record(lines.last()) {
                Err(message) => Err(message),
                Ok(record) => Ok(with_record(journal, record)),
            },
        }
    }
}

/// The views of a loaded journal, or the message.
pub open spec fn journal_outcome(res: Result<Vec<Option<JournalRecord>>, String>) -> Result<
    Seq<Option<RecordView>>,
    Seq<char>,
> {
    match res {
        Ok(journal) => Ok(journal_view(journal@)),
        Err(message) => Err(message@),
    }
}

/// An error among the first lines is the error of the whole journal.
proof fn lemma_journal_prefix(lines: Seq<LineView>, upto: int)
    requires
        0 <= upto <= lines.len(),
        journal_of(lines.take(upto)) is Err,
    ensures
        journal_of(lines) == journal_of(lines.take(upto)),
    decreases lines.len(),
{
    if upto == lines.len() {
        assert(lines.take(upto) == lines);
    } else {
        assert(lines.drop_last().take(upto) == lines.take(upto));
        lemma_journal_prefix(lines.drop_last(), upto);
    }
}

/// Reads the record of a line.
fn read_line(line: JournalLine) -> (res: Result<JournalRecord, String>)
    ensures
        match res {
            Ok(record) => line_record(line@) == Ok::<RecordView, Seq<char>>(record@)
                && record.index < MAX_WORKFLOW_AGENTS,
            Err(message) => line_record(line@) == Err::<RecordView, Seq<char>>(message@),
        },
{
    match line {
        JournalLine::Unreadable(message) => Err(
            text::joined("failed to read workflow journal: ", message.as_str()),
        ),
        JournalLine::Read { bytes, record } => {
            if bytes > MAX_JOURNAL_RECORD_BYTES {
                return Err("workflow journal record exceeds the 1048576-byte limit".to_string());
            }
            match record {
                Err(message) => Err(
                    text::joined("workflow journal is invalid: ", message.as_str()),
                ),
                Ok(record) => {
                    if record.index >= MAX_WORKFLOW_AGENTS {
                        return Err("workflow journal agent index must be below 1000".to_string());
                    }
                    Ok(record)
                },
            }
        },
    }
}

/// Puts a record at its place.
fn place_record(journal: &mut Vec<Option<JournalRecord>>, record: JournalRecord)
    requires
        record.index < MAX_WORKFLOW_AGENTS,
    ensures
        journal_view(final(journal)@) == with_record(journal_view(old(journal)@), record@),
{
    let index = record.index as usize;
    let ghost before = journal@;
    while journal.len() <= index
        invariant
            index < MAX_WORKFLOW_AGENTS,
            journal@.len() >= before.len(),
            journal@.len() <= before.len() || journal@.len() <= index + 1,
            forall|i: int| 0 <= i < before.len() ==> journal@[i] == before[i],
            forall|i: int| before.len() <= i < journal@.len() ==> (#[trigger] journal@[i]) is None,
        decreases index + 1 - journal@.len(),
    {
        journal.push(None);
    }
    journal.set(index, Some(record));
    assert(journal_view(journal@) == with_record(journal_view(before), record@));
}

/// Loads a journal of `journal_bytes` bytes from its lines.
pub fn load_journal(journal_bytes: u64, lines: Vec<JournalLine>) -> (res: Result<
    Vec<Option<JournalRecord>>,
    String,
>)
    ensures
        journal_outcome(res) == (if journal_bytes > MAX_JOURNAL_BYTES {
            Err("workflow journal exceeds the 67108864-byte limit"@)
        } else {
            journal_of(line_views(lines@))
        }),
{
    if journal_bytes > MAX_JOURNAL_BYTES {
        return Err("workflow journal exceeds the 67108864-byte limit".to_string());
    }
    let ghost views = line_views(lines@);
    let ghost mut read: int = 0;
    let mut journal: Vec<Option<JournalRecord>> = Vec::new();
    assert(views.take(0) == Seq::<LineView>::empty());
    assert(journal_view(journal@) == Seq::<Option<RecordView>>::empty());
    for line in it: lines
        invariant
            journal_bytes <= MAX_JOURNAL_BYTES,
            it.seq() == lines@,
            views == line_views(lines@),
            read == it.index(),
            journal_of(views.take(read)) == Ok::<Seq<Option<RecordView>>, Seq<char>>(
                journal_view(journal@),
            ),
    {
        assert(views.take(read + 1).drop_last() == views.take(read));
        assert(views.take(read + 1).last() == line@);
        match read_line(line) {
            Ok(record) => {
                place_record(&mut journal, record);
            },
            Err(message) => {
                proof {
                    lemma_journal_prefix(views, read + 1);
                }
                return Err(message);
            },
        }
        proof {
            read = read + 1;
        }
    }
    assert(views.take(read) == views);
    Ok(journal)
}

/// The line that appends a record, or why it is refused.
pub open spec fn appended_line(record: RecordView) -> Result<Seq<char>, Seq<char>> {
    if record.index >= MAX_WORKFLOW_AGENTS {
        Err("workflow journal agent index must be below 1000"@)
    } else if text::byte_length(record_json(record)) > MAX_JOURNAL_RECORD_BYTES {
        Err("workflow journal record exceeds the 1048576-byte limit"@)
    } else {
        Ok(record_json(record) + "\n"@)
    }
}

/// Writes the line that appends a record to a journal.
pub fn append_journal(record: &JournalRecord) -> (res: Result<String, String>)
    ensures
        parser::text_outcome(res) == appended_line(record@),
{
    if record.index >= MAX_WORKFLOW_AGENTS {
        return Err("workflow journal agent index must be below 1000".to_string());
    }
    let serialized = match record_text(record) {
        Ok(serialized) => serialized,
        Err(message) => {
            return Err(
                text::joined("failed to serialize workflow journal record: ", message.as_str()),
            );
        },
    };
    if text::byte_len(serialized.as_str()) > MAX_JOURNAL_RECORD_BYTES {
        return Err("workflow journal record exceeds the 1048576-byte limit".to_string());
    }
    Ok(text::joined(serialized.as_str(), "\n"))
}

/// Checks that a journal of `journal_bytes` bytes has room for a line.
pub fn check_journal_room(journal_bytes: u64, line_bytes: usize) -> (res: Result<(), String>)
    ensures
        match res {
            Ok(_) => journal_bytes + line_bytes <= MAX_JOURNAL_BYTES,
            Err(message) => journal_bytes + line_bytes > MAX_JOURNAL_BYTES && message@
                == "workflow journal exceeds the 67108864-byte limit"@,
        },
{
    if journal_bytes > MAX_JOURNAL_BYTES || line_bytes as u64 > MAX_JOURNAL_BYTES - journal_bytes {
        return Err("workflow journal exceeds the 67108864-byte limit".to_string());
    }
    Ok(())
}

/// A record that may be appended is restored when the journal is loaded again: the loaded journal is
/// the earlier one with the record at its place.
pub proof fn appended_records_are_restored(lines: Seq<LineView>, record: RecordView)
    requires
        appended_line(record) is Ok,
        journal_of(lines) is Ok,
    ensures
        journal_of(
            lines.push(
                LineView::Read {
                    bytes: text::byte_length(record_json(record)) as int,
                    record: Ok(record),
                },
            ),
        ) == Ok::<Seq<Option<RecordView>>, Seq<char>>(
            with_record(journal_of(lines)->Ok_0, record),
        ),
{
    let line = LineView::Read {
        bytes: text::byte_length(record_json(record)) as int,
        record: Ok(record),
    };
    assert(lines.push(line).drop_last() == lines);
}

/// Whether the record of a line is the last of its index.
pub open spec fn is_last_of_index(lines: Seq<LineView>, at: int) -> bool {
    forall|later: int|
        at < later < lines.len() ==> line_record(#[trigger] lines[later])->Ok_0.index
            != line_record(lines[at])->Ok_0.index
}

/// A journal holds for each index the last record of that index, at that index, nothing else, and no
/// empty place at its end.
pub proof fn journals_hold_the_last_records(lines: Seq<LineView>)
    requires
        journal_of(lines) is Ok,
    ensures
        forall|at: int|
            0 <= at < lines.len() && is_last_of_index(lines, at) ==> {
                let record = line_record(#[trigger] lines[at])->Ok_0;
                record.index < journal_of(lines)->Ok_0.len()
                    && journal_of(lines)->Ok_0[record.index as int] == Some(record)
            },
        forall|i: int|
            0 <= i < journal_of(lines)->Ok_0.len() ==> ((
            #[trigger] journal_of(lines)->Ok_0[i]) matches Some(record) ==> record.index == i
                && exists|at: int|
                0 <= at < lines.len() && line_record(#[trigger] lines[at]) == Ok::<
                    RecordView,
                    Seq<char>,
                >(record)),
        journal_of(lines)->Ok_0.len() > 0 ==> journal_of(lines)->Ok_0.last() is Some,
    decreases lines.len(),
{
    if lines.len() > 0 {
        let first = lines.drop_last();
        let last = line_record(lines.last())->Ok_0;
        let before = journal_of(first)->Ok_0;
        let journal = journal_of(lines)->Ok_0;
        journals_hold_the_last_records(first);
        assert(lines[lines.len() - 1] == lines.last());
        assert(journal == with_record(before, last));
        assert forall|at: int| 0 <= at < lines.len() && is_last_of_index(lines, at) implies ({
            let record = line_record(#[trigger] lines[at])->Ok_0;
            record.index < journal.len() && journal[record.index as int] == Some(record)
        }) by {
            if at < first.len() {
                assert(first[at] == lines[at]);
                assert forall|later: int| at < later < first.len() implies line_record(
                    #[trigger] first[later],
                )->Ok_0.index != line_record(first[at])->Ok_0.index by {
                    assert(first[later] == lines[later]);
                }
                assert(is_last_of_index(first, at));
            }
        }
        assert forall|i: int| 0 <= i < journal.len() implies ((
        #[trigger] journal[i]) matches Some(record) ==> record.index == i && exists|at: int|
            0 <= at < lines.len() && line_record(#[trigger] lines[at]) == Ok::<
                RecordView,
                Seq<char>,
            >(record)) by {
            if i != last.index && i < before.len() && before[i] is Some {
                let record = before[i]->0;
                let at = choose|at: int|
                    0 <= at < first.len() && line_record(#[trigger] first[at]) == Ok::<
                        RecordView,
                        Seq<char>,
                    >(record);
                assert(lines[at] == first[at]);
            }
        }
    }
}

} // verus!
