//! Tables in a terminal: cells cut off and padded to the width of their columns.

use vstd::prelude::*;
use unicode_segmentation::UnicodeSegmentation;
use unicode_width::UnicodeWidthStr;
use crate::text;

verus! {

/// How many columns a text takes up in a terminal.
pub uninterp spec fn text_width(text: Seq<char>) -> nat;

/// `unicode_width::UnicodeWidthStr::width`: how many columns the text takes up. A space behind it takes
/// up one more, and changes nothing before it.
#[verifier::external_body]
fn width_of(text: &str) -> (res: usize)
    ensures
        res == text_width(text@),
        forall|count: nat|
            res + count <= usize::MAX ==> #[trigger] text_width(
                text@ + text::repeated(' ', count),
            ) == res + count,
{
    UnicodeWidthStr::width(text)
}

/// The extended grapheme clusters of a text, what a reader takes for its characters.
pub uninterp spec fn clusters(text: Seq<char>) -> Seq<Seq<char>>;

/// `unicode_segmentation::UnicodeSegmentation::graphemes`, for extended clusters: the parts of the
/// text, none left out.
#[verifier::external_body]
fn clusters_of(text: &str) -> (res: Vec<String>)
    ensures
        text::views(res@) == clusters(text@),
        text::views(res@).flatten() == text@,
{
    text.graphemes(true).map(String::from).collect()
}

/// The widths of texts.
pub open spec fn text_widths(texts: Seq<Seq<char>>) -> Seq<nat> {
    texts.map_values(|content: Seq<char>| text_width(content))
}

fn widths_of(texts: &Vec<String>) -> (res: Vec<usize>)
    ensures
        numbers(res@) == text_widths(text::views(texts@)),
        res@.len() == texts@.len(),
{
    let mut widths: Vec<usize> = Vec::new();
    let mut i: usize = 0;
    while i < texts.len()
        invariant
            i <= texts@.len(),
            widths@.len() == i,
            forall|j: int| 0 <= j < i ==> #[trigger] widths@[j] == text_width(texts@[j]@),
        decreases texts@.len() - i,
    {
        widths.push(width_of(texts[i].as_str()));
        i = i + 1;
    }
    widths
}

/// The values of numbers.
pub open spec fn numbers(values: Seq<usize>) -> Seq<nat> {
    values.map_values(|value: usize| value as nat)
}

/// The first of the parts that together take up no more than `room` columns.
pub open spec fn kept(parts: Seq<Seq<char>>, widths: Seq<nat>, room: int) -> Seq<char>
    decreases parts.len(),
{
    if parts.len() == 0 || widths.len() == 0 || widths[0] > room {
        Seq::empty()
    } else {
        parts[0] + kept(parts.skip(1), widths.skip(1), room - widths[0])
    }
}

/// The first of the parts, with their widths, that together take up no more than `room` columns.
pub fn kept_parts(parts: &Vec<String>, widths: &Vec<usize>, room: usize) -> (res: String)
    requires
        parts@.len() == widths@.len(),
    ensures
        res@ == kept(text::views(parts@), numbers(widths@), room as int),
{
    let ghost all = text::views(parts@);
    let ghost sizes = numbers(widths@);
    let mut out = String::new();
    let mut left: usize = room;
    let mut i: usize = 0;
    assert(all.skip(0) == all);
    assert(sizes.skip(0) == sizes);
    while i < parts.len()
        invariant
            i <= parts@.len() == widths@.len(),
            all == text::views(parts@),
            sizes == numbers(widths@),
            out@ + kept(all.skip(i as int), sizes.skip(i as int), left as int) == kept(
                all,
                sizes,
                room as int,
            ),
        decreases parts@.len() - i,
    {
        if widths[i] > left {
            assert(out@ == kept(all, sizes, room as int));
            return out;
        }
        assert(all.skip(i as int)[0] == parts@[i as int]@);
        assert(sizes.skip(i as int)[0] == widths@[i as int]);
        assert(all.skip(i as int).skip(1) == all.skip(i + 1));
        assert(sizes.skip(i as int).skip(1) == sizes.skip(i + 1));
        let ghost before = out@;
        out.append(parts[i].as_str());
        left = left - widths[i];
        i = i + 1;
        assert(out@ + kept(all.skip(i as int), sizes.skip(i as int), left as int) == before + kept(
            all.skip(i - 1),
            sizes.skip(i - 1),
            left + widths@[i - 1],
        ));
    }
    assert(out@ == kept(all, sizes, room as int));
    out
}

/// What is kept of parts is the beginning of them all.
proof fn lemma_kept_is_a_beginning(parts: Seq<Seq<char>>, widths: Seq<nat>, room: int)
    ensures
        kept(parts, widths, room).is_prefix_of(parts.flatten()),
    decreases parts.len(),
{
    if parts.len() > 0 && widths.len() > 0 && widths[0] <= room {
        lemma_kept_is_a_beginning(parts.skip(1), widths.skip(1), room - widths[0]);
        assert(parts.drop_first() == parts.skip(1));
    }
}

/// A text cut off so that it takes up no more than `room` columns.
pub open spec fn truncated(content: Seq<char>, room: nat) -> Seq<char> {
    if room == 0 {
        Seq::empty()
    } else if text_width(content) <= room {
        content
    } else if room == 1 {
        "…"@
    } else {
        kept(clusters(content), text_widths(clusters(content)), room - 1) + "…"@
    }
}

/// Cuts a text off so that it takes up no more than `max_width` columns. What is cut off is the end,
/// and "…" stands for it.
pub fn truncate_display_width(content: &str, max_width: usize) -> (res: String)
    ensures
        res@ == truncated(content@, max_width as nat),
        max_width == 0 || res@ == content@ || (exists|count: int|
            0 <= count <= content@.len() && res@ == #[trigger] content@.take(count) + "…"@),
{
    if max_width == 0 {
        return String::new();
    }
    if width_of(content) <= max_width {
        return content.to_string();
    }
    if max_width == 1 {
        assert(content@.take(0) + "…"@ == "…"@);
        return "…".to_string();
    }
    let parts = clusters_of(content);
    let widths = widths_of(&parts);
    let mut out = kept_parts(&parts, &widths, max_width - 1);
    proof {
        let views = text::views(parts@);
        lemma_kept_is_a_beginning(views, numbers(widths@), max_width - 1);
        assert(out@ == content@.take(out@.len() as int));
    }
    out.append("…");
    out
}

/// How many columns are left.
pub open spec fn left_over(width: nat, used: nat) -> nat {
    if used <= width {
        (width - used) as nat
    } else {
        0
    }
}

/// A text cut off and followed by spaces, so that it fills a column.
pub open spec fn padded(content: Seq<char>, width: nat) -> Seq<char> {
    truncated(content, width) + text::repeated(
        ' ',
        left_over(width, text_width(truncated(content, width))),
    )
}

/// Cuts a text off and puts spaces behind it, so that it fills a column. A text that fits then fills
/// it exactly.
pub fn pad_table_cell(content: &str, width: usize) -> (res: String)
    ensures
        res@ == padded(content@, width as nat),
        width > 0 && text_width(content@) <= width ==> text_width(res@) == width,
{
    let mut out = truncate_display_width(content, width);
    let used = width_of(out.as_str());
    let padding: usize = if used <= width {
        width - used
    } else {
        0
    };
    let spaces = text::repeat_char(' ', padding);
    out.append(spaces.as_str());
    out
}

/// The larger of two numbers.
pub open spec fn larger(a: nat, b: nat) -> nat {
    if a >= b {
        a
    } else {
        b
    }
}

/// The largest of numbers, or `least`.
pub open spec fn largest(values: Seq<nat>, least: nat) -> nat
    decreases values.len(),
{
    if values.len() == 0 {
        least
    } else {
        larger(largest(values.drop_last(), least), values.last())
    }
}

/// The smaller of two numbers.
pub open spec fn smaller(a: nat, b: nat) -> nat {
    if a <= b {
        a
    } else {
        b
    }
}

/// The width of a column: that of its widest cell, up to a limit.
pub open spec fn column(header: Seq<char>, values: Seq<Seq<char>>, max_width: nat) -> nat {
    smaller(largest(text_widths(values), text_width(header)), max_width)
}

/// The width of a column with a header and cells of given widths.
pub fn width_within(header: usize, widths: &Vec<usize>, max_width: usize) -> (res: usize)
    ensures
        res == smaller(largest(numbers(widths@), header as nat), max_width as nat),
{
    let ghost all = numbers(widths@);
    let mut widest: usize = header;
    let mut i: usize = 0;
    assert(all.take(0) == Seq::<nat>::empty());
    while i < widths.len()
        invariant
            i <= widths@.len(),
            all == numbers(widths@),
            widest == largest(all.take(i as int), header as nat),
        decreases widths@.len() - i,
    {
        assert(all.take(i + 1).drop_last() == all.take(i as int));
        assert(all.take(i + 1).last() == widths@[i as int]);
        if widths[i] > widest {
            widest = widths[i];
        }
        i = i + 1;
    }
    assert(all.take(i as int) == all);
    if widest <= max_width {
        widest
    } else {
        max_width
    }
}

/// The width of a column: that of its widest cell, up to a limit.
pub fn column_width(header: &str, values: &Vec<String>, max_width: usize) -> (res: usize)
    ensures
        res == column(header@, text::views(values@), max_width as nat),
{
    let widths = widths_of(values);
    width_within(width_of(header), &widths, max_width)
}

/// Every cell and the header of a column that does not reach its limit fit in it whole.
pub proof fn columns_hold_their_cells(header: Seq<char>, values: Seq<Seq<char>>, max_width: nat)
    requires
        column(header, values, max_width) < max_width,
    ensures
        text_width(header) <= column(header, values, max_width),
        forall|i: int|
            0 <= i < values.len() ==> text_width(#[trigger] values[i]) <= column(
                header,
                values,
                max_width,
            ),
{
    lemma_largest(text_widths(values), text_width(header));
    assert forall|i: int| 0 <= i < values.len() implies text_width(#[trigger] values[i]) <= column(
        header,
        values,
        max_width,
    ) by {
        assert(text_widths(values)[i] == text_width(values[i]));
    }
}

proof fn lemma_largest(values: Seq<nat>, least: nat)
    ensures
        least <= largest(values, least),
        forall|i: int| 0 <= i < values.len() ==> #[trigger] values[i] <= largest(values, least),
    decreases values.len(),
{
    if values.len() > 0 {
        lemma_largest(values.drop_last(), least);
        assert forall|i: int| 0 <= i < values.len() implies #[trigger] values[i] <= largest(
            values,
            least,
        ) by {
            if i < values.len() - 1 {
                assert(values.drop_last()[i] == values[i]);
            }
        }
    }
}

/// The views of rows.
pub open spec fn row_views(rows: Seq<Vec<String>>) -> Seq<Seq<Seq<char>>> {
    rows.map_values(|row: Vec<String>| text::views(row@))
}

/// The cells of a column.
pub open spec fn column_cells(rows: Seq<Seq<Seq<char>>>, at: int) -> Seq<Seq<char>> {
    rows.map_values(|row: Seq<Seq<char>>| row[at])
}

/// The widths of the columns of a table.
pub open spec fn columns(
    headers: Seq<Seq<char>>,
    rows: Seq<Seq<Seq<char>>>,
    limits: Seq<usize>,
) -> Seq<nat> {
    Seq::new(
        headers.len(),
        |at: int| column(headers[at], column_cells(rows, at), limits[at] as nat),
    )
}

/// Cells, each filling its column.
pub open spec fn padded_cells(cells: Seq<Seq<char>>, widths: Seq<nat>) -> Seq<Seq<char>> {
    Seq::new(cells.len(), |at: int| padded(cells[at], widths[at]))
}

/// The line below the headers, cell by cell.
pub open spec fn dashes(widths: Seq<nat>) -> Seq<Seq<char>> {
    widths.map_values(|width: nat| text::repeated('-', width))
}

fn cells_at(rows: &Vec<Vec<String>>, at: usize) -> (res: Vec<String>)
    requires
        forall|i: int| 0 <= i < rows@.len() ==> at < (#[trigger] rows@[i])@.len(),
    ensures
        text::views(res@) == column_cells(row_views(rows@), at as int),
{
    let mut cells: Vec<String> = Vec::new();
    let mut i: usize = 0;
    while i < rows.len()
        invariant
            i <= rows@.len(),
            cells@.len() == i,
            forall|j: int| 0 <= j < rows@.len() ==> at < (#[trigger] rows@[j])@.len(),
            forall|j: int| 0 <= j < i ==> #[trigger] cells@[j]@ == rows@[j]@[at as int]@,
        decreases rows@.len() - i,
    {
        assert(at < rows@[i as int]@.len());
        cells.push(rows[i][at].clone());
        i = i + 1;
    }
    assert(text::views(cells@) =~= column_cells(row_views(rows@), at as int)) by {
        assert forall|j: int| 0 <= j < rows@.len() implies text::views(cells@)[j]
            == #[trigger] column_cells(row_views(rows@), at as int)[j] by {
            assert(cells@[j]@ == rows@[j]@[at as int]@);
            assert(at < rows@[j]@.len());
        }
    }
    cells
}

/// The widths of the columns of a table.
pub fn column_widths(headers: &Vec<String>, rows: &Vec<Vec<String>>, limits: &Vec<usize>) -> (res: Vec<
    usize,
>)
    requires
        limits@.len() == headers@.len(),
        forall|i: int| 0 <= i < rows@.len() ==> (#[trigger] rows@[i])@.len() == headers@.len(),
    ensures
        numbers(res@) == columns(text::views(headers@), row_views(rows@), limits@),
        res@.len() == headers@.len(),
{
    let mut widths: Vec<usize> = Vec::new();
    let mut at: usize = 0;
    while at < headers.len()
        invariant
            at <= headers@.len() == limits@.len(),
            widths@.len() == at,
            forall|i: int| 0 <= i < rows@.len() ==> (#[trigger] rows@[i])@.len() == headers@.len(),
            forall|j: int|
                0 <= j < at ==> #[trigger] widths@[j] == column(
                    headers@[j]@,
                    column_cells(row_views(rows@), j),
                    limits@[j] as nat,
                ),
        decreases headers@.len() - at,
    {
        let cells = cells_at(rows, at);
        widths.push(column_width(headers[at].as_str(), &cells, limits[at]));
        at = at + 1;
    }
    assert(numbers(widths@) =~= columns(text::views(headers@), row_views(rows@), limits@));
    widths
}

/// Cuts off and pads cells, each to the width of its column.
pub fn pad_cells(cells: &Vec<String>, widths: &Vec<usize>) -> (res: Vec<String>)
    requires
        cells@.len() == widths@.len(),
    ensures
        text::views(res@) == padded_cells(text::views(cells@), numbers(widths@)),
{
    let mut out: Vec<String> = Vec::new();
    let mut at: usize = 0;
    while at < cells.len()
        invariant
            at <= cells@.len() == widths@.len(),
            out@.len() == at,
            forall|j: int|
                0 <= j < at ==> #[trigger] out@[j]@ == padded(cells@[j]@, widths@[j] as nat),
        decreases cells@.len() - at,
    {
        out.push(pad_table_cell(cells[at].as_str(), widths[at]));
        at = at + 1;
    }
    assert(text::views(out@) =~= padded_cells(text::views(cells@), numbers(widths@)));
    out
}

/// The line below the headers, cell by cell.
pub fn divider(widths: &Vec<usize>) -> (res: Vec<String>)
    ensures
        text::views(res@) == dashes(numbers(widths@)),
{
    let mut out: Vec<String> = Vec::new();
    let mut at: usize = 0;
    while at < widths.len()
        invariant
            at <= widths@.len(),
            out@.len() == at,
            forall|j: int|
                0 <= j < at ==> #[trigger] out@[j]@ == text::repeated('-', widths@[j] as nat),
        decreases widths@.len() - at,
    {
        out.push(text::repeat_char('-', widths[at]));
        at = at + 1;
    }
    assert(text::views(out@) =~= dashes(numbers(widths@)));
    out
}

proof fn lemma_kept(parts: Seq<Seq<char>>, widths: Seq<nat>, room: int) -> (count: int)
    requires
        parts.len() == widths.len(),
    ensures
        0 <= count <= parts.len(),
        kept(parts, widths, room) == parts.take(count).flatten(),
        count == 0 || sum_of(widths.take(count)) <= room,
        count < parts.len() ==> sum_of(widths.take(count + 1)) > room,
    decreases parts.len(),
{
    if parts.len() == 0 || widths[0] > room {
        assert(parts.take(0) =~= Seq::empty());
        if parts.len() > 0 {
            assert(widths.take(1).drop_last() =~= Seq::empty());
            assert(widths.take(1).last() == widths[0]);
            reveal_with_fuel(sum_of, 2);
        }
        0
    } else {
        let more = lemma_kept(parts.skip(1), widths.skip(1), room - widths[0]);
        assert(parts.take(more + 1).drop_first() =~= parts.skip(1).take(more));
        assert(parts.take(more + 1).first() == parts[0]);
        lemma_sum_first(widths.take(more + 1));
        assert(widths.take(more + 1).skip(1) =~= widths.skip(1).take(more));
        if more == 0 {
            assert(widths.skip(1).take(0) =~= Seq::empty());
        }
        if more + 1 < parts.len() {
            lemma_sum_first(widths.take(more + 2));
            assert(widths.take(more + 2).skip(1) =~= widths.skip(1).take(more + 1));
        }
        more + 1
    }
}

proof fn lemma_sum_first(values: Seq<nat>)
    requires
        values.len() > 0,
    ensures
        sum_of(values) == values[0] + sum_of(values.skip(1)),
    decreases values.len(),
{
    if values.len() == 1 {
        assert(values.drop_last() =~= Seq::empty());
        assert(values.skip(1) =~= Seq::empty());
        reveal_with_fuel(sum_of, 2);
    } else {
        lemma_sum_first(values.drop_last());
        assert(values.drop_last().skip(1) =~= values.skip(1).drop_last());
    }
}

/// The sum of numbers.
pub open spec fn sum_of(values: Seq<nat>) -> nat
    decreases values.len(),
{
    if values.len() == 0 {
        0
    } else {
        sum_of(values.drop_last()) + values.last()
    }
}

/// A text that fits is kept whole. One that does not ends in an ellipsis, and before that stand as many
/// of its first characters as fit beside it.
pub proof fn texts_are_cut_where_they_no_longer_fit(content: Seq<char>, room: nat)
    ensures
        room > 0 && text_width(content) <= room ==> truncated(content, room) == content,
        room == 0 ==> truncated(content, room).len() == 0,
        room > 0 && text_width(content) > room ==> exists|count: int|
            #![trigger clusters(content).take(count)]
            {
                let parts = clusters(content);
                &&& 0 <= count <= parts.len()
                &&& truncated(content, room) == parts.take(count).flatten() + "…"@
                &&& sum_of(text_widths(parts).take(count)) + 1 <= room
                &&& count < parts.len() && room > 1 ==> sum_of(text_widths(parts).take(count + 1)) + 1
                    > room
            },
{
    if room > 0 && text_width(content) > room {
        let parts = clusters(content);
        if room == 1 {
            assert(parts.take(0) =~= Seq::empty());
            assert(parts.take(0).flatten() + "…"@ =~= "…"@);
            assert(text_widths(parts).take(0) =~= Seq::empty());
        } else {
            let count = lemma_kept(parts, text_widths(parts), room - 1);
            if count == 0 {
                assert(text_widths(parts).take(0) =~= Seq::empty());
            }
            assert(truncated(content, room) == parts.take(count).flatten() + "…"@);
        }
    }
}

/// A cell is filled up behind its text, with spaces alone, by as much as the text leaves of its column.
pub proof fn cells_are_filled_up_with_spaces(content: Seq<char>, width: nat)
    ensures
        ({
            let shown = truncated(content, width);
            let cell = padded(content, width);
            &&& cell.take(shown.len() as int) == shown
            &&& forall|i: int| shown.len() <= i < cell.len() ==> #[trigger] cell[i] == ' '
            &&& text_width(shown) <= width ==> cell.len() - shown.len() == width - text_width(shown)
            &&& text_width(shown) > width ==> cell == shown
        }),
{
    let shown = truncated(content, width);
    assert(padded(content, width).take(shown.len() as int) =~= shown);
    if text_width(shown) > width {
        assert(padded(content, width) =~= shown);
    }
}

proof fn lemma_largest_is_one(values: Seq<nat>, least: nat)
    ensures
        largest(values, least) == least || exists|i: int|
            0 <= i < values.len() && #[trigger] values[i] == largest(values, least),
    decreases values.len(),
{
    if values.len() > 0 {
        lemma_largest_is_one(values.drop_last(), least);
        if largest(values, least) == values.last() {
            assert(values[values.len() - 1] == largest(values, least));
        } else if largest(values.drop_last(), least) != least {
            let i = choose|i: int|
                0 <= i < values.len() - 1 && #[trigger] values.drop_last()[i] == largest(
                    values.drop_last(),
                    least,
                );
            assert(values[i] == largest(values, least));
        }
    }
}

/// A column is as wide as its header or one of its cells, and never wider than its limit.
pub proof fn columns_are_no_wider_than_needed(
    header: Seq<char>,
    values: Seq<Seq<char>>,
    max_width: nat,
)
    ensures
        column(header, values, max_width) <= max_width,
        column(header, values, max_width) == max_width || column(header, values, max_width)
            == text_width(header) || exists|i: int|
            0 <= i < values.len() && text_width(#[trigger] values[i]) == column(
                header,
                values,
                max_width,
            ),
        text_width(header) >= max_width ==> column(header, values, max_width) == max_width,
        forall|i: int|
            0 <= i < values.len() && text_width(#[trigger] values[i]) >= max_width ==> column(
                header,
                values,
                max_width,
            ) == max_width,
{
    let widths = text_widths(values);
    lemma_largest(widths, text_width(header));
    lemma_largest_is_one(widths, text_width(header));
    let most = largest(widths, text_width(header));
    if most != text_width(header) && most < max_width {
        let i = choose|i: int| 0 <= i < widths.len() && #[trigger] widths[i] == most;
        assert(text_width(values[i]) == most);
    }
    assert forall|i: int| 0 <= i < values.len() && text_width(#[trigger] values[i])
        >= max_width implies column(header, values, max_width) == max_width by {
        assert(widths[i] == text_width(values[i]));
    }
}

/// Each column of a table is as wide as its own cells ask for, and each cell is shown in its own.
pub proof fn cells_stand_in_their_columns(
    headers: Seq<Seq<char>>,
    rows: Seq<Seq<Seq<char>>>,
    limits: Seq<usize>,
    row: Seq<Seq<char>>,
    widths: Seq<nat>,
)
    ensures
        columns(headers, rows, limits).len() == headers.len(),
        forall|at: int|
            0 <= at < headers.len() ==> #[trigger] columns(headers, rows, limits)[at] == column(
                headers[at],
                Seq::new(rows.len(), |i: int| rows[i][at]),
                limits[at] as nat,
            ),
        padded_cells(row, widths).len() == row.len(),
        forall|at: int|
            0 <= at < row.len() ==> #[trigger] padded_cells(row, widths)[at] == padded(
                row[at],
                widths[at],
            ),
        dashes(widths).len() == widths.len(),
        forall|at: int|
            0 <= at < widths.len() ==> (#[trigger] dashes(widths)[at]).len() == widths[at],
        forall|at: int, i: int|
            0 <= at < widths.len() && 0 <= i < widths[at] ==> #[trigger] dashes(widths)[at][i] == '-',
{
    assert forall|at: int| 0 <= at < headers.len() implies #[trigger] columns(headers, rows, limits)[at]
        == column(
        headers[at],
        Seq::new(rows.len(), |i: int| rows[i][at]),
        limits[at] as nat,
    ) by {
        assert(column_cells(rows, at) =~= Seq::new(rows.len(), |i: int| rows[i][at]));
    }
}

} // verus!
