//! What the server decides when it answers a request.
use vstd::prelude::*;

use crate::action::{ActionData};
use crate::encoding::{
    current_word, field_before, get_current_word, get_range_content, is_field, range_content,
    Range, TextEdit,
};
use crate::errors::Error;
use crate::rope::rope_text;

verus! {

/// The event that the server sends to itself once a second.
#[derive(Clone, Copy, Debug)]
pub struct TickEvent;

/// The text that the command of an action gets as its input: the text of the
/// range, or an empty text where the range cannot be read. An action on a range
/// that starts where it ends gets no input.
pub open spec fn selection_input(s: Seq<char>, range: Range) -> Option<Seq<char>> {
    if range.start == range.end {
        None
    } else {
        match range_content(s, range) {
            Some(text) => Some(text),
            None => Some(Seq::empty()),
        }
    }
}

/// The text of the range of an action, as the input of its command.
pub fn selected_text(doc: &ropey::Rope, range: &Range) -> (input: Option<String>)
    ensures
        match selection_input(rope_text(*doc), *range) {
            Some(text) => input matches Some(t) && t@ == text,
            None => input is None,
        },
{
    if range.start == range.end {
        None
    } else {
        match get_range_content(doc, range) {
            Some(text) => Some(text),
            None => Some(String::new()),
        }
    }
}

/// The edit that resolves an action: the output of its command in place of its
/// range. A command that failed or wrote nothing gives no edit.
pub fn resolve_edit(data: &ActionData, outcome: Result<String, Error>) -> (edit: Option<TextEdit>)
    ensures
        match outcome {
            Ok(output) => if output@.len() > 0 {
                edit matches Some(e) && e.range == data@.range && e.new_text@ == output@
            } else {
                edit is None
            },
            Err(_) => edit is None,
        },
{
    match outcome {
        Ok(output) => if output.as_str().unicode_len() > 0 {
            Some(TextEdit { range: data.range, new_text: output })
        } else {
            None
        },
        Err(_) => None,
    }
}

/// What a completion at a cursor offers.
#[derive(Debug, PartialEq, Eq)]
pub enum CompletionScope {
    /// Nothing: the cursor stands in a field or an attribute.
    Nothing,
    /// The snippets whose prefix matches the word at the cursor.
    Matching(String),
    /// Every snippet: there is no word at the cursor.
    Everything,
}

/// What a completion offers at the offset `character` of a line, counted in scalar
/// values.
pub fn completion_scope(line: &ropey::Rope, character: usize) -> (scope: CompletionScope)
    ensures
        if 0 < character <= rope_text(*line).len() && field_before(
            rope_text(*line),
            character as int,
        ) {
            scope == CompletionScope::Nothing
        } else {
            match current_word(rope_text(*line), character as int) {
                Some(word) => scope matches CompletionScope::Matching(w) && w@ == word,
                None => scope == CompletionScope::Everything,
            }
        },
{
    if is_field(line, character) {
        CompletionScope::Nothing
    } else {
        match get_current_word(line, character) {
            Some(word) => CompletionScope::Matching(word),
            None => CompletionScope::Everything,
        }
    }
}

/// The name and version under which a client goes: what it says of itself, with
/// `unknown` for a version that it does not state; `web` and `unknown` for a
/// client that says nothing.
pub fn client_identity(info: Option<(String, Option<String>)>) -> (identity: (String, String))
    ensures
        identity.0@ == match info {
            Some((name, _)) => name@,
            None => "web"@,
        },
        identity.1@ == match info {
            Some((_, Some(version))) => version@,
            _ => "unknown"@,
        },
{
    match info {
        Some((name, Some(version))) => (name, version),
        Some((name, None)) => (name, "unknown".to_owned()),
        None => ("web".to_owned(), "unknown".to_owned()),
    }
}

} // verus!
