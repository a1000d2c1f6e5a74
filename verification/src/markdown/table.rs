//! Laying out the tables of a Markdown text in columns of even width.
use vstd::prelude::*;
use vstd::string::StringExecFns;

use crate::encoding::{Position, Range, TextEdit};
use crate::markdown::list::{full_line, markdown_node_names, name_texts, node_names};
use crate::parser::join_lines;
use crate::rope::{
    rope_len_chars, rope_len_lines, rope_line_to_char, rope_slice_to_string, rope_text,
};
use crate::strings::{append_repeated, repeated, str_eq, trim, trimmed_end, trimmed_start};
use crate::text::{lemma_line_start_monotonic, line_count};

verus! {

/// How the cells of a column are aligned.
#[derive(Clone, Copy, Debug, PartialEq, Eq, Structural)]
pub enum Alignment {
    Unset,
    Left,
    Center,
    Right,
}

/// The number of columns that a text takes on a screen.
pub uninterp spec fn text_width(text: Seq<char>) -> usize;

/// `UnicodeWidthStr::width`: the displayed width of the string in columns.
#[verifier::external_body]
fn display_width(text: &str) -> (width: usize)
    ensures
        width == text_width(text@),
{
    unicode_width::UnicodeWidthStr::width(text)
}

/// The least width of a column: what the line under the header needs to show the
/// alignment.
pub open spec fn minimum_width(alignment: Alignment) -> nat {
    match alignment {
        Alignment::Center => 5,
        Alignment::Left | Alignment::Right => 4,
        Alignment::Unset => 3,
    }
}

pub fn get_alignment_cell_minimum_width(alignment: &Alignment) -> (width: usize)
    ensures
        width == minimum_width(*alignment),
{
    match alignment {
        Alignment::Center => 5,
        Alignment::Left | Alignment::Right => 4,
        Alignment::Unset => 3,
    }
}

/// The views of the cells of a row.
pub open spec fn cell_texts(row: Seq<String>) -> Seq<Seq<char>> {
    Seq::new(row.len(), |i: int| row[i]@)
}

/// The greater of two numbers.
pub open spec fn max_nat(a: nat, b: nat) -> nat {
    if a >= b {
        a
    } else {
        b
    }
}

/// The views of the cells of each row.
pub open spec fn row_texts(rows: Seq<Vec<String>>) -> Seq<Seq<Seq<char>>> {
    Seq::new(rows.len(), |i: int| cell_texts(rows[i]@))
}

/// The width of the widest cell that the rows have in column `column`.
pub open spec fn widest_cell(rows: Seq<Seq<Seq<char>>>, column: int) -> nat
    decreases rows.len(),
{
    if rows.len() == 0 {
        0
    } else {
        max_nat(
            widest_cell(rows.drop_last(), column),
            if 0 <= column < rows.last().len() {
                text_width(rows.last()[column]) as nat
            } else {
                0
            },
        )
    }
}

/// The width of a column: that of its widest cell, the header counted, and at
/// least the minimum for its alignment.
pub open spec fn column_width(
    header: Seq<Seq<char>>,
    rows: Seq<Seq<Seq<char>>>,
    alignments: Seq<Alignment>,
    column: int,
) -> nat {
    max_nat(minimum_width(alignments[column]), widest_cell(rows.push(header), column))
}

/// Widens the columns to the widths of the cells of one row.
pub fn widen(widths: &mut Vec<usize>, cell_widths: &Vec<usize>)
    ensures
        final(widths)@.len() == old(widths)@.len(),
        forall|i: int|
            0 <= i < old(widths)@.len() ==> #[trigger] final(widths)@[i] == max_nat(
                old(widths)@[i] as nat,
                if i < cell_widths@.len() {
                    cell_widths@[i] as nat
                } else {
                    0
                },
            ),
{
    let mut i: usize = 0;
    while i < cell_widths.len() && i < widths.len()
        invariant
            widths@.len() == old(widths)@.len(),
            i <= cell_widths@.len(),
            i <= widths@.len(),
            forall|j: int|
                0 <= j < i ==> #[trigger] widths@[j] == max_nat(
                    old(widths)@[j] as nat,
                    cell_widths@[j] as nat,
                ),
            forall|j: int| i <= j < widths@.len() ==> widths@[j] == old(widths)@[j],
        decreases cell_widths@.len() - i,
    {
        if cell_widths[i] > widths[i] {
            widths.set(i, cell_widths[i]);
        }
        i = i + 1;
    }
}

/// The displayed width of each cell of a row.
fn cell_widths(row: &Vec<String>) -> (shown: Vec<usize>)
    ensures
        shown@.len() == row@.len(),
        forall|i: int| 0 <= i < row@.len() ==> #[trigger] shown@[i] == text_width(row@[i]@),
{
    let mut shown: Vec<usize> = Vec::new();
    let mut i: usize = 0;
    while i < row.len()
        invariant
            i <= row@.len(),
            shown@.len() == i,
            forall|j: int| 0 <= j < i ==> #[trigger] shown@[j] == text_width(row@[j]@),
        decreases row@.len() - i,
    {
        shown.push(display_width(row[i].as_str()));
        i = i + 1;
    }
    shown
}

/// Widens the columns to the cells of one row.
fn widen_to_row(widths: &mut Vec<usize>, row: &Vec<String>)
    ensures
        final(widths)@.len() == old(widths)@.len(),
        forall|i: int|
            0 <= i < old(widths)@.len() ==> #[trigger] final(widths)@[i] == max_nat(
                old(widths)@[i] as nat,
                if i < row@.len() {
                    text_width(row@[i]@) as nat
                } else {
                    0
                },
            ),
{
    let shown = cell_widths(row);
    widen(widths, &shown);
}

/// The width of each column.
pub fn calculate_column_widths(
    header: &Vec<String>,
    rows: &Vec<Vec<String>>,
    alignments: &Vec<Alignment>,
) -> (widths: Vec<usize>)
    ensures
        widths@.len() == alignments@.len(),
        forall|i: int|
            0 <= i < widths@.len() ==> #[trigger] widths@[i] == column_width(
                cell_texts(header@),
                row_texts(rows@),
                alignments@,
                i,
            ),
{
    let mut widths: Vec<usize> = Vec::new();
    let mut i: usize = 0;
    while i < alignments.len()
        invariant
            i <= alignments@.len(),
            widths@.len() == i,
            forall|j: int| 0 <= j < i ==> #[trigger] widths@[j] == minimum_width(alignments@[j]),
        decreases alignments@.len() - i,
    {
        widths.push(get_alignment_cell_minimum_width(&alignments[i]));
        i = i + 1;
    }
    let ghost texts = row_texts(rows@);
    let mut r: usize = 0;
    while r < rows.len()
        invariant
            r <= rows@.len(),
            texts == row_texts(rows@),
            widths@.len() == alignments@.len(),
            forall|j: int|
                0 <= j < widths@.len() ==> #[trigger] widths@[j] == max_nat(
                    minimum_width(alignments@[j]),
                    widest_cell(texts.take(r as int), j),
                ),
        decreases rows@.len() - r,
    {
        assert(texts.take(r + 1).drop_last() =~= texts.take(r as int));
        assert(texts.take(r + 1).last() == cell_texts(rows@[r as int]@));
        widen_to_row(&mut widths, &rows[r]);
        r = r + 1;
    }
    assert(texts.take(texts.len() as int) =~= texts);
    assert(texts.push(cell_texts(header@)).drop_last() =~= texts);
    widen_to_row(&mut widths, header);
    widths
}

/// The number of spaces that fill a cell of `len` scalar values up to `width`.
pub open spec fn padding(width: nat, len: nat) -> nat {
    if width > len {
        (width - len) as nat
    } else {
        0
    }
}

/// A cell laid out in its column, with a space on each side, where `shown` is the
/// width that the cell takes on a screen. A cell that is aligned left or right is
/// filled up by its number of scalar values, a centered one by its displayed
/// width, with the odd space on the right.
pub open spec fn laid_out_cell(
    cell: Seq<char>,
    width: nat,
    alignment: Alignment,
    shown: nat,
) -> Seq<char> {
    match alignment {
        Alignment::Right => seq![' '] + repeated(' ', padding(width, cell.len())) + cell + seq![
            ' ',
        ],
        Alignment::Center => seq![' '] + repeated(' ', padding(width, shown) / 2) + cell
            + repeated(' ', (padding(width, shown) - padding(width, shown) / 2) as nat) + seq![
            ' ',
        ],
        _ => seq![' '] + cell + repeated(' ', padding(width, cell.len())) + seq![' '],
    }
}

/// A cell laid out in its column.
pub open spec fn formatted_cell(cell: Seq<char>, width: nat, alignment: Alignment) -> Seq<char> {
    laid_out_cell(cell, width, alignment, text_width(cell) as nat)
}

/// The first `n` cells of a row laid out and joined by bars.
pub open spec fn joined_cells(
    cells: Seq<Seq<char>>,
    widths: Seq<usize>,
    alignments: Seq<Alignment>,
    n: int,
) -> Seq<char>
    decreases n,
{
    if n <= 0 {
        Seq::empty()
    } else if n == 1 {
        formatted_cell(cells[0], widths[0] as nat, alignments[0])
    } else {
        joined_cells(cells, widths, alignments, n - 1) + seq!['|'] + formatted_cell(
            cells[n - 1],
            widths[n - 1] as nat,
            alignments[n - 1],
        )
    }
}

/// The least of three numbers.
pub open spec fn min3(a: nat, b: nat, c: nat) -> nat {
    if a <= b && a <= c {
        a
    } else if b <= c {
        b
    } else {
        c
    }
}

/// A row laid out: its cells, as far as there is a column for each, between bars.
pub open spec fn formatted_row(
    cells: Seq<Seq<char>>,
    widths: Seq<usize>,
    alignments: Seq<Alignment>,
) -> Seq<char> {
    seq!['|'] + joined_cells(
        cells,
        widths,
        alignments,
        min3(cells.len(), widths.len(), alignments.len()) as int,
    ) + seq!['|']
}

/// Puts a cell, laid out in its column, at the end of a text. `shown` is the width
/// that the cell takes on a screen.
pub fn lay_out_cell(text: &mut String, cell: &str, width: usize, alignment: Alignment, shown: usize)
    ensures
        final(text)@ == old(text)@ + laid_out_cell(cell@, width as nat, alignment, shown as nat),
{
    proof {
        reveal_strlit(" ");
    }
    let ghost before = text@;
    text.append(" ");
    match alignment {
        Alignment::Right => {
            let len: usize = cell.unicode_len();
            let fill: usize = if width > len {
                width - len
            } else {
                0
            };
            append_repeated(text, " ", fill);
            text.append(cell);
        },
        Alignment::Center => {
            let fill: usize = if width > shown {
                width - shown
            } else {
                0
            };
            append_repeated(text, " ", fill / 2);
            text.append(cell);
            append_repeated(text, " ", fill - fill / 2);
        },
        _ => {
            let len: usize = cell.unicode_len();
            let fill: usize = if width > len {
                width - len
            } else {
                0
            };
            text.append(cell);
            append_repeated(text, " ", fill);
        },
    }
    text.append(" ");
    assert(text@ =~= before + laid_out_cell(cell@, width as nat, alignment, shown as nat));
}

fn format_cell(text: &mut String, cell: &str, width: usize, alignment: Alignment)
    ensures
        final(text)@ == old(text)@ + formatted_cell(cell@, width as nat, alignment),
{
    lay_out_cell(text, cell, width, alignment, display_width(cell));
}

/// Lays out a row.
pub fn format_row(
    cells: &Vec<String>,
    col_widths: &Vec<usize>,
    alignments: &Vec<Alignment>,
) -> (row: String)
    ensures
        row@ == formatted_row(cell_texts(cells@), col_widths@, alignments@),
{
    proof {
        reveal_strlit("|");
    }
    let ghost texts = cell_texts(cells@);
    let mut n: usize = cells.len();
    if col_widths.len() < n {
        n = col_widths.len();
    }
    if alignments.len() < n {
        n = alignments.len();
    }
    let mut row = "|".to_owned();
    let mut i: usize = 0;
    while i < n
        invariant
            i <= n,
            n == min3(cells@.len(), col_widths@.len(), alignments@.len()),
            texts == cell_texts(cells@),
            row@ == seq!['|'] + joined_cells(texts, col_widths@, alignments@, i as int),
        decreases n - i,
    {
        proof {
            reveal_strlit("|");
            assert(texts[i as int] == cells@[i as int]@);
        }
        if i > 0 {
            row.append("|");
        }
        format_cell(&mut row, cells[i].as_str(), col_widths[i], alignments[i]);
        assert(row@ =~= seq!['|'] + joined_cells(texts, col_widths@, alignments@, i + 1));
        i = i + 1;
    }
    row.append("|");
    row
}

/// The cell under the header of a column: dashes over the width of the column,
/// with a colon on each side to which the column is aligned.
pub open spec fn separator_cell(alignment: Alignment, width: nat) -> Seq<char> {
    let wide = max_nat(width, minimum_width(alignment));
    match alignment {
        Alignment::Left => seq![':'] + repeated('-', (wide - 1) as nat),
        Alignment::Right => repeated('-', (wide - 1) as nat) + seq![':'],
        Alignment::Center => seq![':'] + repeated('-', (wide - 2) as nat) + seq![':'],
        Alignment::Unset => repeated('-', wide),
    }
}

/// The row under the header, a cell for each column that has both an alignment
/// and a width.
pub fn gen_separator(alignments: &Vec<Alignment>, col_widths: &Vec<usize>) -> (cells: Vec<String>)
    ensures
        cells@.len() == if alignments@.len() <= col_widths@.len() {
            alignments@.len()
        } else {
            col_widths@.len()
        },
        forall|i: int|
            0 <= i < cells@.len() ==> (#[trigger] cells@[i])@ == separator_cell(
                alignments@[i],
                col_widths@[i] as nat,
            ),
{
    proof {
        reveal_strlit(":");
        reveal_strlit("-");
    }
    let mut cells: Vec<String> = Vec::new();
    let mut i: usize = 0;
    while i < alignments.len() && i < col_widths.len()
        invariant
            i <= alignments@.len(),
            i <= col_widths@.len(),
            cells@.len() == i,
            forall|j: int|
                0 <= j < i ==> (#[trigger] cells@[j])@ == separator_cell(
                    alignments@[j],
                    col_widths@[j] as nat,
                ),
        decreases alignments@.len() - i,
    {
        proof {
            reveal_strlit(":");
            reveal_strlit("-");
        }
        let least: usize = get_alignment_cell_minimum_width(&alignments[i]);
        let width: usize = if col_widths[i] > least {
            col_widths[i]
        } else {
            least
        };
        let mut cell = String::new();
        match alignments[i] {
            Alignment::Left => {
                cell.append(":");
                append_repeated(&mut cell, "-", width - 1);
            },
            Alignment::Right => {
                append_repeated(&mut cell, "-", width - 1);
                cell.append(":");
            },
            Alignment::Center => {
                cell.append(":");
                append_repeated(&mut cell, "-", width - 2);
                cell.append(":");
            },
            Alignment::Unset => {
                append_repeated(&mut cell, "-", width);
            },
        }
        assert(cell@ =~= separator_cell(alignments@[i as int], col_widths@[i as int] as nat));
        cells.push(cell);
        i = i + 1;
    }
    cells
}

/// Where each node of a Markdown text with tables stands: the line and column of
/// its first and of its last character, counted from 1, in the order of
/// `markdown_node_names`.
pub uninterp spec fn markdown_node_positions(text: Seq<char>) -> Seq<(usize, usize, usize, usize)>;

/// `comrak::parse_document` with the default options and the table extension, and
/// the `sourcepos` of each node that `descendants` gives.
#[verifier::external_body]
fn node_positions(text: &str) -> (positions: Vec<(usize, usize, usize, usize)>)
    ensures
        positions@ == markdown_node_positions(text@),
{
    let arena = comrak::Arena::new();
    let mut options = comrak::Options::default();
    options.extension.table = true;
    let root = comrak::parse_document(&arena, text, &options);
    root.descendants().map(|node| node.data.borrow().sourcepos).map(
        |at| (at.start.line, at.start.column, at.end.line, at.end.column),
    ).collect()
}

/// The alignments of the columns of each node of a Markdown text with tables that
/// is a table, and none for any other node, in the order of `markdown_node_names`.
pub uninterp spec fn markdown_node_alignments(text: Seq<char>) -> Seq<Seq<Alignment>>;

/// `comrak::parse_document` with the default options and the table extension, and
/// the `alignments` of each node that `descendants` gives and that is a table.
#[verifier::external_body]
fn node_alignments(text: &str) -> (alignments: Vec<Vec<Alignment>>)
    ensures
        alignments@.len() == markdown_node_alignments(text@).len(),
        forall|i: int|
            0 <= i < alignments@.len() ==> (#[trigger] alignments@[i])@
                == markdown_node_alignments(text@)[i],
{
    let arena = comrak::Arena::new();
    let mut options = comrak::Options::default();
    options.extension.table = true;
    let nodes = comrak::parse_document(&arena, text, &options).descendants();
    nodes.map(|node| match &node.data.borrow().value {
        comrak::nodes::NodeValue::Table(table) => table.alignments.iter().map(|a| match a {
            comrak::nodes::TableAlignment::None => Alignment::Unset,
            comrak::nodes::TableAlignment::Left => Alignment::Left,
            comrak::nodes::TableAlignment::Center => Alignment::Center,
            comrak::nodes::TableAlignment::Right => Alignment::Right,
        }).collect(),
        _ => Vec::new(),
    }).collect()
}

/// A table of a Markdown text.
#[derive(Debug, PartialEq, Eq)]
pub struct Table {
    pub header: Vec<String>,
    pub rows: Vec<Vec<String>>,
    pub alignments: Vec<Alignment>,
    pub col_widths: Vec<usize>,
    pub range: Range,
}

/// A `Table` by its plain values.
pub struct TableView {
    pub header: Seq<Seq<char>>,
    pub rows: Seq<Seq<Seq<char>>>,
    pub alignments: Seq<Alignment>,
    pub col_widths: Seq<usize>,
    pub range: Range,
}

impl View for Table {
    type V = TableView;

    open spec fn view(&self) -> TableView {
        TableView {
            header: cell_texts(self.header@),
            rows: row_texts(self.rows@),
            alignments: self.alignments@,
            col_widths: self.col_widths@,
            range: self.range,
        }
    }
}

/// The nodes of a Markdown text, as far as the tables are read from them.
pub struct Nodes {
    pub names: Seq<Seq<char>>,
    pub positions: Seq<(usize, usize, usize, usize)>,
    pub alignments: Seq<Seq<Alignment>>,
}

/// The nodes of a Markdown text with tables.
pub open spec fn table_nodes(text: Seq<char>) -> Nodes {
    Nodes {
        names: markdown_node_names(text, false, true),
        positions: markdown_node_positions(text),
        alignments: markdown_node_alignments(text),
    }
}

/// The range that a node takes in the document, where `start` is the position at
/// which the text begins. There is none where a position cannot be written.
pub open spec fn node_range(at: (usize, usize, usize, usize), start: Position) -> Option<Range> {
    if at.0 >= 1 && at.1 >= 1 && at.2 >= 1 && at.0 - 1 + start.line <= u32::MAX && at.1 - 1
        + start.character <= u32::MAX && at.2 - 1 + start.line <= u32::MAX && at.3
        + start.character <= u32::MAX {
        Some(
            Range {
                start: Position {
                    line: (at.0 - 1 + start.line) as u32,
                    character: (at.1 - 1 + start.character) as u32,
                },
                end: Position {
                    line: (at.2 - 1 + start.line) as u32,
                    character: (at.3 + start.character) as u32,
                },
            },
        )
    } else {
        None
    }
}

/// The range that a table takes in the document.
pub fn get_table_range(at: (usize, usize, usize, usize), start: Position) -> (range: Option<Range>)
    ensures
        range == node_range(at, start),
{
    if at.0 < 1 || at.1 < 1 || at.2 < 1 {
        return None;
    }
    let limit: u128 = u32::MAX as u128;
    let start_line: u128 = at.0 as u128 - 1 + start.line as u128;
    let start_character: u128 = at.1 as u128 - 1 + start.character as u128;
    let end_line: u128 = at.2 as u128 - 1 + start.line as u128;
    let end_character: u128 = at.3 as u128 + start.character as u128;
    if start_line > limit || start_character > limit || end_line > limit || end_character
        > limit {
        return None;
    }
    Some(
        Range {
            start: Position { line: start_line as u32, character: start_character as u32 },
            end: Position { line: end_line as u32, character: end_character as u32 },
        },
    )
}

/// The text of a cell: what its line holds between its first and its last column,
/// without the whitespace around it. The columns are taken for offsets in scalar
/// values. A cell whose place is not inside its line has an empty text.
pub open spec fn cell_text(s: Seq<char>, at: (usize, usize, usize, usize)) -> Seq<char> {
    if at.0 >= 1 && at.0 - 1 < line_count(s) && 1 <= at.1 && at.1 - 1 <= at.3 <= full_line(
        s,
        (at.0 - 1) as nat,
    ).len() {
        trimmed_end(trimmed_start(full_line(s, (at.0 - 1) as nat).subrange(at.1 - 1, at.3 as int)))
    } else {
        Seq::empty()
    }
}

fn read_cell(rope: &ropey::Rope, at: (usize, usize, usize, usize)) -> (text: String)
    ensures
        text@ == cell_text(rope_text(*rope), at),
{
    let ghost s = rope_text(*rope);
    let n_lines: usize = rope_len_lines(rope);
    if at.0 < 1 || at.0 - 1 >= n_lines || at.1 < 1 || at.1 - 1 > at.3 {
        return String::new();
    }
    proof {
        lemma_line_start_monotonic(s, (at.0 - 1) as nat, at.0 as nat);
    }
    let start: usize = rope_line_to_char(rope, at.0 - 1);
    let next: usize = rope_line_to_char(rope, at.0);
    if at.3 > next - start {
        return String::new();
    }
    let piece = rope_slice_to_string(rope, start + (at.1 - 1), start + at.3);
    assert(s.subrange(start + (at.1 - 1), start + at.3) =~= full_line(
        s,
        (at.0 - 1) as nat,
    ).subrange(at.1 - 1, at.3 as int));
    trim(piece.as_str()).to_owned()
}

/// The first node from `from` on that is a table, or the number of nodes.
pub open spec fn segment_end(names: Seq<Seq<char>>, from: int) -> int
    decreases names.len() - from,
{
    if from >= names.len() || names[from] == "table"@ {
        from
    } else {
        segment_end(names, from + 1)
    }
}

/// The texts of the cells from node `from` up to the next row or to node `end`.
pub open spec fn cells_after(s: Seq<char>, nodes: Nodes, from: int, end: int) -> Seq<Seq<char>>
    decreases end - from,
{
    if from >= end || nodes.names[from] == "table_row"@ {
        Seq::empty()
    } else if nodes.names[from] == "table_cell"@ {
        seq![cell_text(s, nodes.positions[from])] + cells_after(s, nodes, from + 1, end)
    } else {
        cells_after(s, nodes, from + 1, end)
    }
}

/// The rows from node `from` up to node `end`, each with the texts of its cells.
pub open spec fn rows_between(s: Seq<char>, nodes: Nodes, from: int, end: int) -> Seq<
    Seq<Seq<char>>,
>
    decreases end - from,
{
    if from >= end {
        Seq::empty()
    } else if nodes.names[from] == "table_row"@ {
        seq![cells_after(s, nodes, from + 1, end)] + rows_between(s, nodes, from + 1, end)
    } else {
        rows_between(s, nodes, from + 1, end)
    }
}

/// The table at node `t`: its first row is the header, its range and alignments
/// are those of the node, its rows reach up to the next table. There is none
/// where the range cannot be written or the table has no column.
pub open spec fn table_at(s: Seq<char>, nodes: Nodes, start: Position, t: int) -> Option<
    TableView,
> {
    let all = rows_between(s, nodes, t + 1, segment_end(nodes.names, t + 1));
    let header = if all.len() > 0 {
        all[0]
    } else {
        Seq::empty()
    };
    let rows = if all.len() > 0 {
        all.drop_first()
    } else {
        Seq::empty()
    };
    match node_range(nodes.positions[t], start) {
        Some(range) => if nodes.alignments[t].len() > 0 {
            Some(
                TableView {
                    header,
                    rows,
                    alignments: nodes.alignments[t],
                    col_widths: Seq::new(
                        nodes.alignments[t].len(),
                        |i: int| column_width(header, rows, nodes.alignments[t], i) as usize,
                    ),
                    range,
                },
            )
        } else {
            None
        },
        None => None,
    }
}

/// The tables from node `from` on, the last one first.
pub open spec fn tables_from(s: Seq<char>, nodes: Nodes, start: Position, from: int) -> Seq<
    TableView,
>
    decreases nodes.names.len() - from,
{
    if from >= nodes.names.len() {
        Seq::empty()
    } else if nodes.names[from] == "table"@ && table_at(s, nodes, start, from) is Some {
        tables_from(s, nodes, start, from + 1).push(table_at(s, nodes, start, from)->Some_0)
    } else {
        tables_from(s, nodes, start, from + 1)
    }
}

/// The tables that a list of nodes describes in a text, the last one first.
/// `start` is the position at which the text begins in its document. Nodes that do
/// not come with a position and with alignments each describe nothing.
pub open spec fn tables_in(s: Seq<char>, nodes: Nodes, start: Position) -> Seq<TableView> {
    if nodes.positions.len() == nodes.names.len() && nodes.alignments.len()
        == nodes.names.len() {
        tables_from(s, nodes, start, 0)
    } else {
        Seq::empty()
    }
}

/// The tables of a Markdown text, the last one first. `start` is the position at
/// which the text begins in its document.
pub open spec fn tables_of(s: Seq<char>, start: Position) -> Seq<TableView> {
    tables_in(s, table_nodes(s), start)
}

/// The alignments of a list of nodes.
pub open spec fn alignment_lists(alignments: Seq<Vec<Alignment>>) -> Seq<Seq<Alignment>> {
    Seq::new(alignments.len(), |i: int| alignments[i]@)
}

/// The nodes that three lists of the same length describe.
pub open spec fn nodes_of(
    names: Seq<&'static str>,
    positions: Seq<(usize, usize, usize, usize)>,
    alignments: Seq<Vec<Alignment>>,
) -> Nodes {
    Nodes { names: name_texts(names), positions, alignments: alignment_lists(alignments) }
}

fn find_segment_end(names: &Vec<&'static str>, from: usize) -> (end: usize)
    requires
        from <= names@.len(),
    ensures
        end == segment_end(name_texts(names@), from as int),
        from <= end <= names@.len(),
{
    let mut end: usize = from;
    while end < names.len() && !str_eq(names[end], "table")
        invariant
            from <= end <= names@.len(),
            segment_end(name_texts(names@), from as int) == segment_end(
                name_texts(names@),
                end as int,
            ),
        decreases names@.len() - end,
    {
        end = end + 1;
    }
    end
}

fn read_cells(
    rope: &ropey::Rope,
    names: &Vec<&'static str>,
    positions: &Vec<(usize, usize, usize, usize)>,
    alignments: &Vec<Vec<Alignment>>,
    from: usize,
    end: usize,
) -> (cells: Vec<String>)
    requires
        from <= end <= names@.len(),
        positions@.len() == names@.len(),
    ensures
        cell_texts(cells@) == cells_after(
            rope_text(*rope),
            nodes_of(names@, positions@, alignments@),
            from as int,
            end as int,
        ),
{
    let ghost s = rope_text(*rope);
    let ghost nodes = nodes_of(names@, positions@, alignments@);
    let mut cells: Vec<String> = Vec::new();
    let mut j: usize = from;
    assert(cell_texts(cells@) =~= Seq::<Seq<char>>::empty());
    while j < end && !str_eq(names[j], "table_row")
        invariant
            from <= j <= end <= names@.len(),
            positions@.len() == names@.len(),
            s == rope_text(*rope),
            nodes == nodes_of(names@, positions@, alignments@),
            cells_after(s, nodes, from as int, end as int) == cell_texts(cells@) + cells_after(
                s,
                nodes,
                j as int,
                end as int,
            ),
        decreases end - j,
    {
        if str_eq(names[j], "table_cell") {
            let ghost before = cell_texts(cells@);
            cells.push(read_cell(rope, positions[j]));
            assert(cell_texts(cells@) =~= before + seq![cell_text(s, nodes.positions[j as int])]);
        }
        j = j + 1;
    }
    cells
}

fn read_rows(
    rope: &ropey::Rope,
    names: &Vec<&'static str>,
    positions: &Vec<(usize, usize, usize, usize)>,
    alignments: &Vec<Vec<Alignment>>,
    from: usize,
    end: usize,
) -> (rows: Vec<Vec<String>>)
    requires
        from <= end <= names@.len(),
        positions@.len() == names@.len(),
    ensures
        row_texts(rows@) == rows_between(
            rope_text(*rope),
            nodes_of(names@, positions@, alignments@),
            from as int,
            end as int,
        ),
{
    let ghost s = rope_text(*rope);
    let ghost nodes = nodes_of(names@, positions@, alignments@);
    let mut rows: Vec<Vec<String>> = Vec::new();
    let mut j: usize = from;
    assert(row_texts(rows@) =~= Seq::<Seq<Seq<char>>>::empty());
    while j < end
        invariant
            from <= j <= end <= names@.len(),
            positions@.len() == names@.len(),
            s == rope_text(*rope),
            nodes == nodes_of(names@, positions@, alignments@),
            rows_between(s, nodes, from as int, end as int) == row_texts(rows@) + rows_between(
                s,
                nodes,
                j as int,
                end as int,
            ),
        decreases end - j,
    {
        if str_eq(names[j], "table_row") {
            let ghost before = row_texts(rows@);
            let cells = read_cells(rope, names, positions, alignments, j + 1, end);
            rows.push(cells);
            assert(row_texts(rows@) =~= before + seq![
                cells_after(s, nodes, j + 1, end as int),
            ]);
        }
        j = j + 1;
    }
    rows
}

fn copy_alignments(alignments: &Vec<Alignment>) -> (copy: Vec<Alignment>)
    ensures
        copy@ == alignments@,
{
    let mut copy: Vec<Alignment> = Vec::new();
    let mut i: usize = 0;
    while i < alignments.len()
        invariant
            i <= alignments@.len(),
            copy@ == alignments@.take(i as int),
        decreases alignments@.len() - i,
    {
        copy.push(alignments[i]);
        assert(copy@ =~= alignments@.take(i + 1));
        i = i + 1;
    }
    assert(alignments@.take(alignments@.len() as int) =~= alignments@);
    copy
}

fn read_table(
    rope: &ropey::Rope,
    names: &Vec<&'static str>,
    positions: &Vec<(usize, usize, usize, usize)>,
    alignments: &Vec<Vec<Alignment>>,
    start: Position,
    t: usize,
) -> (table: Option<Table>)
    requires
        t < names@.len(),
        positions@.len() == names@.len(),
        alignments@.len() == names@.len(),
    ensures
        match table_at(
            rope_text(*rope),
            nodes_of(names@, positions@, alignments@),
            start,
            t as int,
        ) {
            Some(view) => table matches Some(found) && found@ == view,
            None => table is None,
        },
{
    let range = match get_table_range(positions[t], start) {
        Some(range) => range,
        None => {
            return None;
        },
    };
    if alignments[t].len() == 0 {
        return None;
    }
    let count: usize = names.len();
    assert(t < count);
    let end: usize = find_segment_end(names, t + 1);
    let mut rows = read_rows(rope, names, positions, alignments, t + 1, end);
    let ghost all = row_texts(rows@);
    let header: Vec<String> = if rows.len() > 0 {
        let first = rows.remove(0);
        assert(row_texts(rows@) =~= all.drop_first());
        first
    } else {
        assert(row_texts(rows@) =~= Seq::<Seq<Seq<char>>>::empty());
        assert(cell_texts(Seq::<String>::empty()) =~= Seq::<Seq<char>>::empty());
        Vec::new()
    };
    let columns = copy_alignments(&alignments[t]);
    let col_widths = calculate_column_widths(&header, &rows, &columns);
    let table = Table { header, rows, alignments: columns, col_widths, range };
    assert(table@.col_widths =~= Seq::new(
        columns@.len(),
        |i: int| column_width(table@.header, table@.rows, columns@, i) as usize,
    ));
    Some(table)
}

/// Reads the tables that the nodes of a Markdown text describe, the last one
/// first. The nodes are given by their names, their positions and the alignments
/// of those that are tables. `start_line` is the position at which the text
/// begins in its document.
pub fn read_tables(
    rope: &ropey::Rope,
    names: &Vec<&'static str>,
    positions: &Vec<(usize, usize, usize, usize)>,
    alignments: &Vec<Vec<Alignment>>,
    start_line: Position,
) -> (tables: Vec<Table>)
    ensures
        tables@.len() == tables_in(
            rope_text(*rope),
            nodes_of(names@, positions@, alignments@),
            start_line,
        ).len(),
        forall|i: int|
            0 <= i < tables@.len() ==> (#[trigger] tables@[i])@ == tables_in(
                rope_text(*rope),
                nodes_of(names@, positions@, alignments@),
                start_line,
            )[i],
{
    let ghost s = rope_text(*rope);
    let ghost nodes = nodes_of(names@, positions@, alignments@);
    let mut tables: Vec<Table> = Vec::new();
    if positions.len() != names.len() || alignments.len() != names.len() {
        return tables;
    }
    let mut t: usize = names.len();
    while t > 0
        invariant
            t <= names@.len(),
            positions@.len() == names@.len(),
            alignments@.len() == names@.len(),
            s == rope_text(*rope),
            nodes == nodes_of(names@, positions@, alignments@),
            tables@.len() == tables_from(s, nodes, start_line, t as int).len(),
            forall|i: int|
                0 <= i < tables@.len() ==> (#[trigger] tables@[i])@ == tables_from(
                    s,
                    nodes,
                    start_line,
                    t as int,
                )[i],
        decreases t,
    {
        t = t - 1;
        if str_eq(names[t], "table") {
            match read_table(rope, names, positions, alignments, start_line, t) {
                Some(table) => {
                    tables.push(table);
                },
                None => {},
            }
        }
    }
    tables
}

/// Reads the tables of a Markdown text, the last one first. `start_line` is the
/// position at which the text begins in its document.
pub fn parse_tables(rope: &ropey::Rope, start_line: Position) -> (tables: Vec<Table>)
    ensures
        tables@.len() == tables_of(rope_text(*rope), start_line).len(),
        forall|i: int|
            0 <= i < tables@.len() ==> (#[trigger] tables@[i])@ == tables_of(
                rope_text(*rope),
                start_line,
            )[i],
{
    let ghost s = rope_text(*rope);
    let len: usize = rope_len_chars(rope);
    let text = rope_slice_to_string(rope, 0, len);
    assert(s.subrange(0, len as int) =~= s);
    let names = node_names(text.as_str(), false, true);
    let positions = node_positions(text.as_str());
    let alignments = node_alignments(text.as_str());
    let ghost nodes = nodes_of(names@, positions@, alignments@);
    assert(nodes.names =~= table_nodes(s).names);
    assert(nodes.alignments =~= table_nodes(s).alignments);
    read_tables(rope, &names, &positions, &alignments, start_line)
}

/// The cells of the row under the header.
pub open spec fn separator_cells(alignments: Seq<Alignment>, widths: Seq<usize>) -> Seq<Seq<char>> {
    Seq::new(
        if alignments.len() <= widths.len() {
            alignments.len()
        } else {
            widths.len()
        },
        |i: int| separator_cell(alignments[i], widths[i] as nat),
    )
}

/// The lines of a table laid out: the header, the row under it, and the rows.
pub open spec fn table_lines(table: TableView) -> Seq<Seq<char>> {
    seq![
        formatted_row(table.header, table.col_widths, table.alignments),
        formatted_row(
            separator_cells(table.alignments, table.col_widths),
            table.col_widths,
            table.alignments,
        ),
    ] + Seq::new(
        table.rows.len(),
        |i: int| formatted_row(table.rows[i], table.col_widths, table.alignments),
    )
}

/// The edit that lays out a table: its lines, joined by line feeds, in place of
/// its range.
pub fn format_table(table: &Table) -> (edit: TextEdit)
    ensures
        edit.range == table.range,
        edit.new_text@ == join_lines(table_lines(table@)),
{
    let ghost lines = table_lines(table@);
    let separator = gen_separator(&table.alignments, &table.col_widths);
    assert(cell_texts(separator@) =~= separator_cells(table@.alignments, table@.col_widths));
    let mut text = format_row(&table.header, &table.col_widths, &table.alignments);
    proof {
        reveal_strlit("\n");
        assert("\n"@ =~= seq!['\n']);
        assert(lines.take(1) =~= seq![lines[0]]);
        assert(lines.take(2).drop_last() =~= lines.take(1));
    }
    text.append("\n");
    text.append(format_row(&separator, &table.col_widths, &table.alignments).as_str());
    proof {
        assert(lines.len() == table.rows@.len() + 2);
        assert(lines.take(1)[0] == lines[0]);
        assert(join_lines(lines.take(1)) == lines[0]);
        assert(lines.take(2).last() == lines[1]);
        assert(join_lines(lines.take(2)) == join_lines(lines.take(1)) + seq!['\n'] + lines[1]);
    }
    let mut i: usize = 0;
    while i < table.rows.len()
        invariant
            i <= table.rows@.len(),
            lines == table_lines(table@),
            lines.len() == table.rows@.len() + 2,
            text@ == join_lines(lines.take(i + 2)),
        decreases table.rows@.len() - i,
    {
        proof {
            reveal_strlit("\n");
            assert("\n"@ =~= seq!['\n']);
            assert(lines.take(i + 3).drop_last() =~= lines.take(i + 2));
            assert(lines[i + 2] == formatted_row(
                cell_texts(table.rows@[i as int]@),
                table.col_widths@,
                table.alignments@,
            ));
        }
        text.append("\n");
        text.append(format_row(&table.rows[i], &table.col_widths, &table.alignments).as_str());
        i = i + 1;
    }
    assert(lines.take(lines.len() as int) =~= lines);
    TextEdit { range: table.range, new_text: text }
}

/// The edits that lay out the tables of the selected text, one for each table, the
/// last table first. `rope` holds the selected text, which begins at
/// `range.start` in its document.
pub fn format(rope: &ropey::Rope, range: Range) -> (edits: Vec<TextEdit>)
    ensures
        edits@.len() == tables_of(rope_text(*rope), range.start).len(),
        forall|i: int|
            0 <= i < edits@.len() ==> (#[trigger] edits@[i]).range == tables_of(
                rope_text(*rope),
                range.start,
            )[i].range && edits@[i].new_text@ == join_lines(
                table_lines(tables_of(rope_text(*rope), range.start)[i]),
            ),
{
    let tables = parse_tables(rope, range.start);
    let mut edits: Vec<TextEdit> = Vec::new();
    let mut i: usize = 0;
    while i < tables.len()
        invariant
            i <= tables@.len(),
            edits@.len() == i,
            forall|j: int|
                0 <= j < i ==> (#[trigger] edits@[j]).range == tables@[j]@.range
                    && edits@[j].new_text@ == join_lines(table_lines(tables@[j]@)),
        decreases tables@.len() - i,
    {
        edits.push(format_table(&tables[i]));
        i = i + 1;
    }
    edits
}

} // verus!
