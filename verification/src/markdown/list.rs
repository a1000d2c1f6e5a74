//! Turning the selected lines into a list.
use vstd::prelude::*;
use vstd::string::StringExecFns;

use crate::encoding::{Position, Range, TextEdit};
use crate::rope::{
    rope_char, rope_len_chars, rope_len_lines, rope_line_to_char, rope_slice_to_string, rope_text,
};
use crate::strings::{char_is_whitespace, decimal, is_whitespace, str_eq, u64_to_string};
use crate::text::{lemma_line_start_monotonic, line_count, line_start};

verus! {

/// The kinds of list that lines can be turned into.
#[derive(Clone, Copy, Debug, PartialEq, Eq, Structural)]
pub enum ListType {
    /// A numbered list: `1.`, `2.`, and `1.1.` below it.
    Ordered,
    /// A list with `-` before each item.
    Unordered,
    /// A list of tasks that are not done: `- [ ]`.
    TaskList,
}

/// The names of the nodes of a Markdown text, the document first and each node
/// before the nodes inside it. The task list extension is on or off, and so is
/// the table extension.
pub uninterp spec fn markdown_node_names(text: Seq<char>, tasklist: bool, table: bool) -> Seq<
    Seq<char>,
>;

/// `comrak::parse_document` with the default options but for the two extensions,
/// and `NodeValue::xml_node_name` of each node that `descendants` gives.
#[verifier::external_body]
pub(crate) fn node_names(text: &str, tasklist: bool, table: bool) -> (names: Vec<&'static str>)
    ensures
        names@.len() == markdown_node_names(text@, tasklist, table).len(),
        forall|i: int|
            0 <= i < names@.len() ==> (#[trigger] names@[i])@ == markdown_node_names(
                text@,
                tasklist,
                table,
            )[i],
{
    let arena = comrak::Arena::new();
    let mut options = comrak::Options::default();
    options.extension.tasklist = tasklist;
    options.extension.table = table;
    let root = comrak::parse_document(&arena, text, &options);
    root.descendants().map(|node| node.data.borrow().value.xml_node_name()).collect()
}

/// Whether a node with this name is a list or an item of one.
pub open spec fn is_list_node(name: Seq<char>) -> bool {
    name == "list"@ || name == "item"@ || name == "taskitem"@
}

/// Whether one of the names is that of a list or of an item of one.
pub open spec fn names_list(names: Seq<Seq<char>>) -> bool {
    exists|i: int| 0 <= i < names.len() && is_list_node(#[trigger] names[i])
}

/// Whether a Markdown text holds a list.
pub open spec fn holds_list(text: Seq<char>) -> bool {
    names_list(markdown_node_names(text, true, false))
}

/// The names of a list of nodes as texts.
pub open spec fn name_texts(names: Seq<&'static str>) -> Seq<Seq<char>> {
    Seq::new(names.len(), |i: int| names[i]@)
}

/// Whether one of the nodes with these names is a list or an item of one.
pub fn names_hold_list(names: &Vec<&'static str>) -> (found: bool)
    ensures
        found == names_list(name_texts(names@)),
{
    let ghost all = name_texts(names@);
    let mut i: usize = 0;
    while i < names.len()
        invariant
            i <= names@.len() == all.len(),
            all == name_texts(names@),
            forall|j: int| 0 <= j < i ==> !is_list_node(#[trigger] all[j]),
        decreases names@.len() - i,
    {
        let name = names[i];
        if str_eq(name, "list") || str_eq(name, "item") || str_eq(name, "taskitem") {
            assert(is_list_node(all[i as int]));
            return true;
        }
        i = i + 1;
    }
    false
}

/// Whether a Markdown text holds a list.
pub fn contains_list(text: &str) -> (found: bool)
    ensures
        found == holds_list(text@),
{
    let names = node_names(text, true, false);
    assert(name_texts(names@) =~= markdown_node_names(text@, true, false));
    names_hold_list(&names)
}

/// The number of whitespace scalar values at the start of a text.
pub open spec fn leading_whitespace(s: Seq<char>) -> nat
    decreases s.len(),
{
    if s.len() > 0 && char_is_whitespace(s[0]) {
        1 + leading_whitespace(s.drop_first())
    } else {
        0
    }
}

/// The indents of the lines above that are still open, without those deeper than
/// `indent`.
pub open spec fn pop_deeper(levels: Seq<nat>, indent: nat) -> Seq<nat>
    decreases levels.len(),
{
    if levels.len() > 0 && levels.last() > indent {
        pop_deeper(levels.drop_last(), indent)
    } else {
        levels
    }
}

/// The open indents after a line with the indent `indent`: the deeper ones are
/// closed, and `indent` is the last, newly opened unless it was open.
pub open spec fn enter_level(levels: Seq<nat>, indent: nat) -> Seq<nat> {
    let open = pop_deeper(levels, indent);
    if open.len() > 0 && open.last() == indent {
        open
    } else {
        open.push(indent)
    }
}

/// The numbers of the items, one for each level down to `level`, after one more
/// item at `level`: its number is one more than before, or 1 where the level is
/// new, and the numbers of deeper levels are forgotten.
pub open spec fn count_item(counters: Seq<nat>, level: int) -> Seq<nat> {
    if 0 <= level < counters.len() {
        counters.take(level).push(counters[level] + 1)
    } else {
        counters.push(1)
    }
}

/// The numbers joined by dots.
pub open spec fn numbering(counters: Seq<nat>) -> Seq<char>
    decreases counters.len(),
{
    if counters.len() == 0 {
        Seq::empty()
    } else if counters.len() == 1 {
        decimal(counters[0])
    } else {
        numbering(counters.drop_last()) + seq!['.'] + decimal(counters.last())
    }
}

/// What is put before an item.
pub open spec fn item_prefix(kind: ListType, counters: Seq<nat>) -> Seq<char> {
    match kind {
        ListType::Ordered => numbering(counters) + ". "@,
        ListType::Unordered => "- "@,
        ListType::TaskList => "- [ ] "@,
    }
}

/// Line `i` of a text with its line break.
pub open spec fn full_line(s: Seq<char>, i: nat) -> Seq<char> {
    s.subrange(line_start(s, i), line_start(s, i + 1))
}

/// The insertions that turn the lines of a text from line `i` on into a list, each
/// as the line, the offset in the line and the text to insert. `levels` holds the
/// indents that are open before line `i`, `counters` the numbers of the last
/// items. A line of whitespace closes every indent and gets nothing.
pub open spec fn list_insertions(
    s: Seq<char>,
    kind: ListType,
    i: nat,
    levels: Seq<nat>,
    counters: Seq<nat>,
) -> Seq<(nat, nat, Seq<char>)>
    decreases line_count(s) - i,
{
    if i >= line_count(s) {
        Seq::empty()
    } else {
        let indent = leading_whitespace(full_line(s, i));
        if indent == full_line(s, i).len() {
            list_insertions(s, kind, i + 1, Seq::empty(), counters)
        } else {
            let open = enter_level(levels, indent);
            let numbers = if kind == ListType::Ordered {
                count_item(counters, open.len() - 1)
            } else {
                counters
            };
            seq![(i, indent, item_prefix(kind, numbers))] + list_insertions(
                s,
                kind,
                i + 1,
                open,
                numbers,
            )
        }
    }
}

/// The edits that turn a text into a list, where it can be one: it holds no list
/// yet, has a line that is not whitespace, and its lines and offsets can be
/// written as positions from the line `first_line` on.
pub open spec fn list_conversion(s: Seq<char>, first_line: u32, kind: ListType) -> Option<
    Seq<(nat, nat, Seq<char>)>,
> {
    let insertions = list_insertions(s, kind, 0, Seq::empty(), Seq::empty());
    if holds_list(s) || insertions.len() == 0 || first_line + line_count(s) - 1 > u32::MAX
        || s.len() > u32::MAX {
        None
    } else {
        Some(insertions)
    }
}

/// The indents of a list of open levels as numbers.
pub open spec fn indents(levels: Seq<usize>) -> Seq<nat> {
    Seq::new(levels.len(), |i: int| levels[i] as nat)
}

/// The numbers of a list of counters.
pub open spec fn numbers(counters: Seq<u64>) -> Seq<nat> {
    Seq::new(counters.len(), |i: int| counters[i] as nat)
}

/// An edit by its plain values: the line and offset at which it inserts, both
/// counted from the start of the selection, and what it inserts.
pub open spec fn insertion_of(edit: TextEdit, first_line: u32) -> (nat, nat, Seq<char>) {
    ((edit.range.start.line - first_line) as nat, edit.range.start.character as nat, edit.new_text@)
}

/// Whether an edit inserts at one place, at or after the line `first_line`.
pub open spec fn is_insertion(edit: TextEdit, first_line: u32) -> bool {
    edit.range.start == edit.range.end && edit.range.start.line >= first_line
}

fn numbering_text(counters: &Vec<u64>) -> (text: String)
    ensures
        text@ == numbering(numbers(counters@)),
{
    let ghost all = numbers(counters@);
    let mut text = String::new();
    let mut i: usize = 0;
    while i < counters.len()
        invariant
            i <= counters@.len(),
            all == numbers(counters@),
            text@ == numbering(all.take(i as int)),
        decreases counters@.len() - i,
    {
        proof {
            reveal_strlit(".");
            assert(all.take(i + 1).drop_last() =~= all.take(i as int));
            assert("."@ =~= seq!['.']);
        }
        if i > 0 {
            text.append(".");
        }
        text.append(u64_to_string(counters[i]).as_str());
        i = i + 1;
    }
    assert(all.take(all.len() as int) =~= all);
    text
}

/// Closes the levels that are deeper than `indent` and opens `indent`.
fn enter(levels: &mut Vec<usize>, indent: usize)
    ensures
        indents(final(levels)@) == enter_level(indents(old(levels)@), indent as nat),
        final(levels)@.len() <= old(levels)@.len() + 1,
        final(levels)@.len() >= 1,
{
    while levels.len() > 0 && levels[levels.len() - 1] > indent
        invariant
            levels@.len() <= old(levels)@.len(),
            pop_deeper(indents(old(levels)@), indent as nat) == pop_deeper(
                indents(levels@),
                indent as nat,
            ),
        decreases levels@.len(),
    {
        assert(indents(levels@).drop_last() =~= indents(levels@.drop_last()));
        levels.pop();
    }
    let ghost open = indents(levels@);
    if levels.len() == 0 || levels[levels.len() - 1] != indent {
        levels.push(indent);
        assert(indents(levels@) =~= open.push(indent as nat));
    }
}

/// Counts one more item at `level`.
fn count(counters: &mut Vec<u64>, level: usize, bound: u64)
    requires
        level <= old(counters)@.len(),
        bound < u64::MAX,
        forall|j: int| 0 <= j < old(counters)@.len() ==> old(counters)@[j] <= bound,
    ensures
        numbers(final(counters)@) == count_item(numbers(old(counters)@), level as int),
        final(counters)@.len() == level + 1,
        forall|j: int| 0 <= j < final(counters)@.len() ==> final(counters)@[j] <= bound + 1,
{
    if level < counters.len() {
        let number: u64 = counters[level] + 1;
        while counters.len() > level
            invariant
                level <= counters@.len() <= old(counters)@.len(),
                counters@ == old(counters)@.take(counters@.len() as int),
            decreases counters@.len(),
        {
            counters.pop();
            assert(counters@ =~= old(counters)@.take(counters@.len() as int));
        }
        counters.push(number);
        assert(numbers(counters@) =~= count_item(numbers(old(counters)@), level as int));
    } else {
        counters.push(1);
        assert(numbers(counters@) =~= count_item(numbers(old(counters)@), level as int));
    }
}

/// The number of whitespace scalar values at the start of the text between two
/// offsets of a rope.
fn indent_of(rope: &ropey::Rope, start: usize, next: usize) -> (indent: usize)
    requires
        start <= next <= rope_text(*rope).len(),
    ensures
        indent == leading_whitespace(rope_text(*rope).subrange(start as int, next as int)),
        indent <= next - start,
{
    let ghost line = rope_text(*rope).subrange(start as int, next as int);
    let mut k: usize = start;
    assert(line.skip(0) =~= line);
    loop
        invariant
            start <= k <= next <= rope_text(*rope).len(),
            line == rope_text(*rope).subrange(start as int, next as int),
            leading_whitespace(line) == (k - start) + leading_whitespace(line.skip(k - start)),
        ensures
            start <= k <= next,
            leading_whitespace(line) == k - start,
        decreases next - k,
    {
        if k == next {
            break ;
        }
        if !is_whitespace(rope_char(rope, k)) {
            break ;
        }
        assert(line.skip(k - start).drop_first() =~= line.skip(k + 1 - start));
        k = k + 1;
    }
    k - start
}

/// Turns the selected lines into a list of the given kind: each line that is not
/// whitespace gets the mark of an item behind its indent. There is nothing to do,
/// and no edits, where the selection holds a list already or holds only
/// whitespace. `rope` holds the selected text, which starts in the line
/// `range.start.line` of its document.
pub fn convert_to_list(rope: &ropey::Rope, range: Range, conversion_type: ListType) -> (edits:
    Option<Vec<TextEdit>>)
    ensures
        match list_conversion(rope_text(*rope), range.start.line, conversion_type) {
            Some(insertions) => edits matches Some(e) && e@.len() == insertions.len()
                && forall|i: int|
                0 <= i < e@.len() ==> is_insertion(#[trigger] e@[i], range.start.line)
                    && insertion_of(e@[i], range.start.line) == insertions[i],
            None => edits is None,
        },
{
    let ghost s = rope_text(*rope);
    let first_line: u32 = range.start.line;
    let len: usize = rope_len_chars(rope);
    let n_lines: usize = rope_len_lines(rope);
    let text = rope_slice_to_string(rope, 0, len);
    assert(s.subrange(0, len as int) =~= s);
    if contains_list(text.as_str()) {
        return None;
    }
    if len as u128 > u32::MAX as u128 || first_line as u128 + n_lines as u128 - 1
        > u32::MAX as u128 {
        return None;
    }
    let mut edits: Vec<TextEdit> = Vec::new();
    let mut levels: Vec<usize> = Vec::new();
    let mut counters: Vec<u64> = Vec::new();
    let ghost mut done: Seq<(nat, nat, Seq<char>)> = Seq::empty();
    let mut i: usize = 0;
    assert(indents(levels@) =~= Seq::<nat>::empty());
    assert(numbers(counters@) =~= Seq::<nat>::empty());
    while i < n_lines
        invariant
            i <= n_lines == line_count(s),
            s == rope_text(*rope),
            s.len() <= u32::MAX,
            first_line == range.start.line,
            first_line + n_lines - 1 <= u32::MAX,
            list_insertions(s, conversion_type, 0, Seq::empty(), Seq::empty()) == done
                + list_insertions(
                s,
                conversion_type,
                i as nat,
                indents(levels@),
                numbers(counters@),
            ),
            edits@.len() == done.len(),
            forall|j: int|
                0 <= j < edits@.len() ==> is_insertion(#[trigger] edits@[j], first_line)
                    && insertion_of(edits@[j], first_line) == done[j],
            forall|j: int| 0 <= j < counters@.len() ==> counters@[j] <= i,
            conversion_type == ListType::Ordered ==> levels@.len() <= counters@.len(),
        decreases n_lines - i,
    {
        proof {
            lemma_line_start_monotonic(s, i as nat, (i + 1) as nat);
        }
        let start: usize = rope_line_to_char(rope, i);
        let next: usize = rope_line_to_char(rope, i + 1);
        let indent: usize = indent_of(rope, start, next);
        let ghost line = full_line(s, i as nat);
        if indent == next - start {
            levels = Vec::new();
            assert(indents(levels@) =~= Seq::<nat>::empty());
        } else {
            let ghost counted = numbers(counters@);
            enter(&mut levels, indent);
            let prefix = match conversion_type {
                ListType::Ordered => {
                    count(&mut counters, levels.len() - 1, i as u64);
                    let mut numbered = numbering_text(&counters);
                    numbered.append(". ");
                    numbered
                },
                ListType::Unordered => "- ".to_owned(),
                ListType::TaskList => "- [ ] ".to_owned(),
            };
            let place = Position { line: first_line + i as u32, character: indent as u32 };
            edits.push(TextEdit { range: Range { start: place, end: place }, new_text: prefix });
            proof {
                let ghost before = done;
                done = done.push((i as nat, indent as nat, prefix@));
                assert(done + list_insertions(
                    s,
                    conversion_type,
                    (i + 1) as nat,
                    indents(levels@),
                    numbers(counters@),
                ) =~= before + (seq![(i as nat, indent as nat, prefix@)] + list_insertions(
                    s,
                    conversion_type,
                    (i + 1) as nat,
                    indents(levels@),
                    numbers(counters@),
                )));
            }
        }
        i = i + 1;
    }
    if edits.len() == 0 {
        None
    } else {
        Some(edits)
    }
}

} // verus!
