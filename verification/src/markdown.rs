//! The rewrites that the server offers for Markdown.
use vstd::prelude::*;
use vstd::string::StringExecFns;

use crate::encoding::{get_range_content, range_content, Position, Range, TextEdit};
use crate::parser::join_lines;
use crate::rope::{rope_from_str, rope_text};
use crate::strings::str_eq;
use crate::markdown::list::{convert_to_list, insertion_of, is_insertion, list_conversion, ListType};
use crate::markdown::table::{table_lines, tables_of};

pub mod list;
pub mod table;

verus! {

/// An offer to rewrite the selection, with the edits that do it.
#[derive(Debug, PartialEq, Eq)]
pub struct MarkdownAction {
    pub title: String,
    pub edits: Vec<TextEdit>,
}

/// An edit by its plain values.
pub open spec fn edit_value(edit: TextEdit) -> (Range, Seq<char>) {
    (edit.range, edit.new_text@)
}

/// A list of edits by their plain values.
pub open spec fn edit_values(edits: Seq<TextEdit>) -> Seq<(Range, Seq<char>)> {
    Seq::new(edits.len(), |i: int| edit_value(edits[i]))
}

/// The edits that lay out the tables of a selected text.
pub open spec fn table_edits(content: Seq<char>, range: Range) -> Seq<(Range, Seq<char>)> {
    Seq::new(
        tables_of(content, range.start).len(),
        |i: int|
            (
                tables_of(content, range.start)[i].range,
                join_lines(table_lines(tables_of(content, range.start)[i])),
            ),
    )
}

/// The place of an insertion in the document.
pub open spec fn insertion_place(first_line: u32, insertion: (nat, nat, Seq<char>)) -> Range {
    Range {
        start: Position {
            line: (first_line + insertion.0) as u32,
            character: insertion.1 as u32,
        },
        end: Position { line: (first_line + insertion.0) as u32, character: insertion.1 as u32 },
    }
}

/// The edits that turn a selected text into a list, or none where it cannot be
/// one.
pub open spec fn list_edits(content: Seq<char>, range: Range, kind: ListType) -> Seq<
    (Range, Seq<char>),
> {
    match list_conversion(content, range.start.line, kind) {
        Some(insertions) => Seq::new(
            insertions.len(),
            |i: int| (insertion_place(range.start.line, insertions[i]), insertions[i].2),
        ),
        None => Seq::empty(),
    }
}

/// The one edit that puts `mark` before and after the selected text.
pub open spec fn wrap_edit(content: Seq<char>, range: Range, mark: Seq<char>) -> Seq<
    (Range, Seq<char>),
> {
    seq![(range, mark + content + mark)]
}

/// An offer, unless it has no edits.
pub open spec fn offer(title: Seq<char>, edits: Seq<(Range, Seq<char>)>) -> Seq<
    (Seq<char>, Seq<(Range, Seq<char>)>),
> {
    if edits.len() > 0 {
        seq![(title, edits)]
    } else {
        Seq::empty()
    }
}

/// The offers for a selection that reaches over several lines.
pub open spec fn block_offers(content: Seq<char>, range: Range) -> Seq<
    (Seq<char>, Seq<(Range, Seq<char>)>),
> {
    (if range.end.line > range.start.line + 1 {
        offer("Table Format"@, table_edits(content, range))
    } else {
        Seq::empty()
    }) + offer("Order List"@, list_edits(content, range, ListType::Ordered)) + offer(
        "Unorder List"@,
        list_edits(content, range, ListType::Unordered),
    ) + offer("Task List"@, list_edits(content, range, ListType::TaskList))
}

/// The offers for a selection inside one line.
pub open spec fn inline_offers(content: Seq<char>, range: Range) -> Seq<
    (Seq<char>, Seq<(Range, Seq<char>)>),
> {
    seq![
        ("Bold"@, wrap_edit(content, range, "**"@)),
        ("Italic"@, wrap_edit(content, range, "_"@)),
        ("Strikethrough"@, wrap_edit(content, range, "~~"@)),
    ]
}

/// The offers for a selection of a document: none unless its language is
/// Markdown; a table layout for more than two lines, the three lists for more
/// than one line, and bold, italic and strikethrough inside one line.
pub open spec fn markdown_offers(lang_id: Seq<char>, s: Seq<char>, range: Range) -> Seq<
    (Seq<char>, Seq<(Range, Seq<char>)>),
> {
    let content = match range_content(s, range) {
        Some(text) => text,
        None => Seq::empty(),
    };
    if lang_id != "markdown"@ {
        Seq::empty()
    } else if range.end.line != range.start.line {
        block_offers(content, range)
    } else {
        inline_offers(content, range)
    }
}

/// An offer by its plain values.
pub open spec fn offer_value(action: MarkdownAction) -> (Seq<char>, Seq<(Range, Seq<char>)>) {
    (action.title@, edit_values(action.edits@))
}

/// A list of offers by their plain values.
pub open spec fn offer_values(actions: Seq<MarkdownAction>) -> Seq<
    (Seq<char>, Seq<(Range, Seq<char>)>),
> {
    Seq::new(actions.len(), |i: int| offer_value(actions[i]))
}

fn push_offer(items: &mut Vec<MarkdownAction>, title: &str, edits: Vec<TextEdit>)
    ensures
        offer_values(final(items)@) == offer_values(old(items)@) + offer(
            title@,
            edit_values(edits@),
        ),
{
    let ghost before = offer_values(items@);
    if edits.len() > 0 {
        items.push(MarkdownAction { title: title.to_owned(), edits });
        assert(offer_values(items@) =~= before + offer(title@, edit_values(edits@)));
    } else {
        assert(offer_values(items@) =~= before + offer(title@, edit_values(edits@)));
    }
}

fn push_list(
    items: &mut Vec<MarkdownAction>,
    title: &str,
    content: &ropey::Rope,
    range: Range,
    kind: ListType,
)
    ensures
        offer_values(final(items)@) == offer_values(old(items)@) + offer(
            title@,
            list_edits(rope_text(*content), range, kind),
        ),
{
    let edits = match convert_to_list(content, range, kind) {
        Some(edits) => edits,
        None => Vec::new(),
    };
    proof {
        let wanted = list_edits(rope_text(*content), range, kind);
        assert(edit_values(edits@).len() == wanted.len());
        assert forall|i: int| 0 <= i < edits@.len() implies edit_values(edits@)[i]
            == wanted[i] by {
            assert(is_insertion(edits@[i], range.start.line));
            assert(insertion_of(edits@[i], range.start.line) == list_conversion(
                rope_text(*content),
                range.start.line,
                kind,
            )->Some_0[i]);
        }
        assert(edit_values(edits@) =~= wanted);
    }
    push_offer(items, title, edits);
}

fn push_wrap(items: &mut Vec<MarkdownAction>, title: &str, content: &str, range: Range, mark: &str)
    ensures
        offer_values(final(items)@) == offer_values(old(items)@) + seq![
            (title@, wrap_edit(content@, range, mark@)),
        ],
{
    let mut text = mark.to_owned();
    text.append(content);
    text.append(mark);
    let mut edits: Vec<TextEdit> = Vec::new();
    edits.push(TextEdit { range, new_text: text });
    assert(edit_values(edits@) =~= wrap_edit(content@, range, mark@));
    push_offer(items, title, edits);
}

/// The rewrites that are offered for a selection of a document.
pub fn actions(lang_id: &str, doc: &ropey::Rope, range: Range) -> (items: Vec<MarkdownAction>)
    ensures
        offer_values(items@) == markdown_offers(lang_id@, rope_text(*doc), range),
{
    let mut items: Vec<MarkdownAction> = Vec::new();
    assert(offer_values(items@) =~= Seq::empty());
    if !str_eq(lang_id, "markdown") {
        return items;
    }
    let content = match get_range_content(doc, &range) {
        Some(text) => text,
        None => String::new(),
    };
    if range.end.line != range.start.line {
        let selected = rope_from_str(content.as_str());
        if range.end.line as u64 > range.start.line as u64 + 1 {
            let edits = crate::markdown::table::format(&selected, range);
            assert(edit_values(edits@) =~= table_edits(content@, range));
            push_offer(&mut items, "Table Format", edits);
        }
        push_list(&mut items, "Order List", &selected, range, ListType::Ordered);
        push_list(&mut items, "Unorder List", &selected, range, ListType::Unordered);
        push_list(&mut items, "Task List", &selected, range, ListType::TaskList);
        assert(offer_values(items@) =~= block_offers(content@, range));
    } else {
        push_wrap(&mut items, "Bold", content.as_str(), range, "**");
        push_wrap(&mut items, "Italic", content.as_str(), range, "_");
        push_wrap(&mut items, "Strikethrough", content.as_str(), range, "~~");
        assert(offer_values(items@) =~= inline_offers(content@, range));
    }
    items
}

} // verus!
