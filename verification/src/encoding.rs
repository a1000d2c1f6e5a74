//! Positions as a client states them, the offsets in Unicode scalar values that
//! they stand for, and the changes to a document that are stated in them.
use vstd::prelude::*;

use crate::errors::Error;
use crate::rope::{
    recall_length_fits, rope_byte_to_char, rope_char, rope_char_to_byte, rope_char_to_utf16_cu,
    rope_from_str, rope_insert, rope_len_chars, rope_len_lines, rope_line_to_char, rope_remove,
    rope_slice_to_string, rope_text, rope_utf16_cu_to_char,
};
use crate::text::{
    lemma_line_bounds, lemma_line_start, lemma_line_start_past_end, lemma_scalar_of_unit,
    lemma_scalar_of_unit_utf32, lemma_unit_in_piece, lemma_unit_width_positive,
    lemma_units_len_at_least_len, lemma_units_len_split, lemma_units_of_piece, line_content,
    line_count, line_end, line_start, scalar_of_unit, units_len,
};

verus! {

/// The code unit in which a client counts the offset inside a line.
#[derive(Clone, Copy, Debug, PartialEq, Eq, Structural)]
pub enum OffsetEncoding {
    /// UTF-8 code units, that is bytes.
    Utf8,
    /// UTF-16 code units.
    Utf16,
    /// UTF-32 code units, that is scalar values.
    Utf32,
}

impl Default for OffsetEncoding {
    fn default() -> (enc: OffsetEncoding)
        ensures
            enc == OffsetEncoding::Utf16,
    {
        OffsetEncoding::Utf16
    }
}

/// A place in a document: a line, counted from 0, and an offset inside that line in
/// the code units of the session's encoding.
#[derive(Clone, Copy, Debug, PartialEq, Eq, Structural)]
pub struct Position {
    pub line: u32,
    pub character: u32,
}

impl Position {
    pub fn new(line: u32, character: u32) -> (pos: Position)
        ensures
            pos.line == line,
            pos.character == character,
    {
        Position { line, character }
    }

    /// Order by line, then by offset.
    pub open spec fn precedes(&self, other: &Position) -> bool {
        self.line < other.line || (self.line == other.line && self.character <= other.character)
    }

    /// Whether this position is at or before `other`.
    pub fn le(&self, other: &Position) -> (b: bool)
        ensures
            b == self.precedes(other),
    {
        self.line < other.line || (self.line == other.line && self.character <= other.character)
    }
}

/// A stretch of a document between two positions.
#[derive(Clone, Copy, Debug, PartialEq, Eq, Structural)]
pub struct Range {
    pub start: Position,
    pub end: Position,
}

impl Range {
    pub fn new(start: Position, end: Position) -> (range: Range)
        ensures
            range.start == start,
            range.end == end,
    {
        Range { start, end }
    }
}

/// A proposal to replace the text of a range by another text.
#[derive(Clone, Debug, PartialEq, Eq)]
pub struct TextEdit {
    pub range: Range,
    pub new_text: String,
}

/// The scalar value inside the content of one line at which a unit offset points.
/// There is none where the offset is past the content, nor, in UTF-16, where it
/// points into the middle of a surrogate pair. A UTF-8 offset into the middle of a
/// scalar value points at that scalar value.
pub open spec fn decode_in_line(content: Seq<char>, character: u32, enc: OffsetEncoding) -> Option<
    nat,
> {
    let k = scalar_of_unit(content, character as nat, enc);
    if character > units_len(content, enc) {
        None
    } else if enc == OffsetEncoding::Utf16 && units_len(content.take(k as int), enc)
        != character {
        None
    } else {
        Some(k)
    }
}

/// The offset, in scalar values from the start of the text, of a position.
pub open spec fn decode_position(s: Seq<char>, pos: Position, enc: OffsetEncoding) -> Result<
    usize,
    Error,
> {
    if pos.line >= line_count(s) {
        Err(Error::PositionOutOfBounds(pos.line, pos.character))
    } else {
        match decode_in_line(line_content(s, pos.line as nat), pos.character, enc) {
            None => Err(Error::UnitOffsetOutOfBounds),
            Some(k) => Ok((line_start(s, pos.line as nat) + k) as usize),
        }
    }
}

/// The index at which the content of a line ends, its line break left out.
fn line_content_end(doc: &ropey::Rope, line: usize) -> (end: usize)
    requires
        line < line_count(rope_text(*doc)),
    ensures
        end == line_end(rope_text(*doc), line as nat),
        line_start(rope_text(*doc), line as nat) <= end <= rope_text(*doc).len(),
{
    let n_lines: usize = rope_len_lines(doc);
    let next: usize = rope_line_to_char(doc, line + 1);
    proof {
        lemma_line_bounds(rope_text(*doc), line as nat);
        lemma_line_start_past_end(rope_text(*doc));
    }
    if line + 1 == n_lines {
        next
    } else {
        proof {
            lemma_line_start(rope_text(*doc), (line + 1) as nat);
        }
        if next >= 2 && rope_char(doc, next - 1) == '\n' && rope_char(doc, next - 2) == '\r' {
            next - 2
        } else {
            next - 1
        }
    }
}

/// The offset in a document at which a unit offset into the piece `start..end` of
/// the document points.
fn decode_in_piece(
    doc: &ropey::Rope,
    start: usize,
    end: usize,
    character: u32,
    offset_encoding: OffsetEncoding,
) -> (offset: Option<usize>)
    requires
        start <= end <= rope_text(*doc).len(),
    ensures
        offset == match decode_in_line(
            rope_text(*doc).subrange(start as int, end as int),
            character,
            offset_encoding,
        ) {
            Some(k) => Some((start + k) as usize),
            None => None,
        },
        offset matches Some(at) ==> start <= at <= end,
{
    let ghost s = rope_text(*doc);
    let ghost content = s.subrange(start as int, end as int);
    let units: usize = character as usize;
    proof {
        lemma_units_of_piece(s, start as int, end as int, offset_encoding);
        if units <= units_len(content, offset_encoding) {
            lemma_unit_in_piece(s, start as int, end as int, units as nat, offset_encoding);
        }
    }
    match offset_encoding {
        OffsetEncoding::Utf32 => {
            proof {
                lemma_units_len_at_least_len(content, offset_encoding);
            }
            if units > end - start {
                None
            } else {
                proof {
                    lemma_scalar_of_unit_utf32(content, units as nat);
                }
                Some(start + units)
            }
        },
        OffsetEncoding::Utf16 => {
            let base: usize = rope_char_to_utf16_cu(doc, start);
            let limit: usize = rope_char_to_utf16_cu(doc, end);
            if units > limit - base {
                None
            } else {
                let at: usize = rope_utf16_cu_to_char(doc, base + units);
                if rope_char_to_utf16_cu(doc, at) != base + units {
                    None
                } else {
                    Some(at)
                }
            }
        },
        OffsetEncoding::Utf8 => {
            let base: usize = rope_char_to_byte(doc, start);
            let limit: usize = rope_char_to_byte(doc, end);
            if units > limit - base {
                None
            } else {
                Some(rope_byte_to_char(doc, base + units))
            }
        },
    }
}

/// Converts a position into an offset in scalar values from the start of the
/// document.
///
/// A line that the document does not have gives `PositionOutOfBounds`. An offset past
/// the content of its line, the line break not counted, gives
/// `UnitOffsetOutOfBounds`, and so does a UTF-16 offset inside a surrogate pair.
pub fn lsp_pos_to_pos(doc: &ropey::Rope, pos: Position, offset_encoding: OffsetEncoding) -> (r:
    Result<usize, Error>)
    ensures
        r == decode_position(rope_text(*doc), pos, offset_encoding),
        r matches Ok(offset) ==> offset <= rope_text(*doc).len(),
{
    let line: usize = pos.line as usize;
    if line >= rope_len_lines(doc) {
        return Err(Error::PositionOutOfBounds(pos.line, pos.character));
    }
    let start: usize = rope_line_to_char(doc, line);
    let end: usize = line_content_end(doc, line);
    match decode_in_piece(doc, start, end, pos.character, offset_encoding) {
        Some(offset) => Ok(offset),
        None => Err(Error::UnitOffsetOutOfBounds),
    }
}

/// A position whose offset ends on a scalar value of its line decodes to that scalar
/// value, and the text from the start of the line up to the decoded offset is the
/// piece of the line that has exactly as many code units as the offset says.
pub proof fn lemma_decode_valid_position(
    s: Seq<char>,
    pos: Position,
    enc: OffsetEncoding,
    k: nat,
)
    requires
        s.len() <= usize::MAX,
        pos.line < line_count(s),
        k <= line_content(s, pos.line as nat).len(),
        units_len(line_content(s, pos.line as nat).take(k as int), enc) == pos.character,
    ensures
        decode_position(s, pos, enc) == Ok::<usize, Error>(
            (line_start(s, pos.line as nat) + k) as usize,
        ),
        s.subrange(line_start(s, pos.line as nat), line_start(s, pos.line as nat) + k)
            == line_content(s, pos.line as nat).take(k as int),
        units_len(
            s.subrange(line_start(s, pos.line as nat), line_start(s, pos.line as nat) + k),
            enc,
        ) == pos.character,
{
    let line = pos.line as nat;
    let content = line_content(s, line);
    let start = line_start(s, line);
    let ki = k as int;
    lemma_line_bounds(s, line);
    lemma_units_len_split(content, ki, content.len() as int, enc);
    assert(content.take(content.len() as int) =~= content);
    if ki < content.len() {
        assert(content.take(ki + 1).drop_last() =~= content.take(ki));
        lemma_unit_width_positive(content.take(ki + 1).last(), enc);
    }
    crate::text::lemma_scalar_of_unit_unique(content, pos.character as nat, enc, k);
    assert(s.subrange(start, start + k) =~= content.take(ki));
}

/// An offset that decoding returns lies inside the content of the position's line,
/// and the text between the start of the line and the offset holds no more code
/// units than the position's offset: exactly as many in UTF-16 and UTF-32, and in
/// UTF-8 fewer only where the offset points into the middle of a scalar value.
pub proof fn lemma_decoded_offset_in_line(
    s: Seq<char>,
    pos: Position,
    enc: OffsetEncoding,
    offset: usize,
)
    requires
        s.len() <= usize::MAX,
        decode_position(s, pos, enc) == Ok::<usize, Error>(offset),
    ensures
        pos.line < line_count(s),
        line_start(s, pos.line as nat) <= offset <= line_end(s, pos.line as nat) <= s.len(),
        units_len(s.subrange(line_start(s, pos.line as nat), offset as int), enc)
            <= pos.character,
        enc != OffsetEncoding::Utf8 ==> units_len(
            s.subrange(line_start(s, pos.line as nat), offset as int),
            enc,
        ) == pos.character,
        offset < line_end(s, pos.line as nat) ==> pos.character < units_len(
            s.subrange(line_start(s, pos.line as nat), offset + 1),
            enc,
        ),
{
    let line = pos.line as nat;
    let content = line_content(s, line);
    let start = line_start(s, line);
    lemma_line_bounds(s, line);
    let k = scalar_of_unit(content, pos.character as nat, enc) as int;
    lemma_scalar_of_unit(content, pos.character as nat, enc);
    assert(s.subrange(start, start + k) =~= content.take(k));
    if k < content.len() {
        assert(s.subrange(start, start + k + 1) =~= content.take(k + 1));
    }
    if enc == OffsetEncoding::Utf32 {
        lemma_units_len_at_least_len(content, enc);
        lemma_scalar_of_unit_utf32(content, pos.character as nat);
    }
}

/// Converts a position as `lsp_pos_to_pos` does, but takes a line past the last
/// one for the end of the document. A caller has to ask for this by name.
pub fn lsp_pos_to_pos_clamped(
    doc: &ropey::Rope,
    pos: Position,
    offset_encoding: OffsetEncoding,
) -> (r: Result<usize, Error>)
    ensures
        r == if pos.line >= line_count(rope_text(*doc)) {
            Ok::<usize, Error>(rope_text(*doc).len() as usize)
        } else {
            decode_position(rope_text(*doc), pos, offset_encoding)
        },
{
    if pos.line as usize >= rope_len_lines(doc) {
        Ok(rope_len_chars(doc))
    } else {
        lsp_pos_to_pos(doc, pos, offset_encoding)
    }
}

/// One change to a document, as a client reports it.
#[derive(Clone, Debug, PartialEq, Eq)]
pub enum ChangeEvent {
    /// The text between two positions gives way to `text`.
    Incremental { range: Range, text: String },
    /// The whole document gives way to `text`.
    FullReplace { text: String },
}

/// The text `s` with the scalar values in `start..end` replaced by `text`.
pub open spec fn splice(s: Seq<char>, start: int, end: int, text: Seq<char>) -> Seq<char> {
    s.subrange(0, start) + text + s.subrange(end, s.len() as int)
}

/// The text that one change leaves, or the error that stops it. Both ends of an
/// incremental change are decoded against `s`. An end that decodes to an offset
/// before the start is refused as out of bounds.
pub open spec fn apply_change(s: Seq<char>, change: ChangeEvent, enc: OffsetEncoding) -> Result<
    Seq<char>,
    Error,
> {
    match change {
        ChangeEvent::FullReplace { text } => Ok(text@),
        ChangeEvent::Incremental { range, text } => match decode_position(s, range.start, enc) {
            Err(e) => Err(e),
            Ok(start) => match decode_position(s, range.end, enc) {
                Err(e) => Err(e),
                Ok(end) => if start <= end {
                    Ok(splice(s, start as int, end as int, text@))
                } else {
                    Err(Error::PositionOutOfBounds(range.end.line, range.end.character))
                },
            },
        },
    }
}

/// The text that a batch of changes leaves, and the error that stopped it, if any.
/// Each change is applied to the text that the one before it left. The first
/// change that fails ends the batch: what was applied before it stays applied.
pub open spec fn apply_changes(s: Seq<char>, changes: Seq<ChangeEvent>, enc: OffsetEncoding) -> (
    Seq<char>,
    Option<Error>,
)
    decreases changes.len(),
{
    if changes.len() == 0 {
        (s, None)
    } else {
        match apply_change(s, changes[0], enc) {
            Err(e) => (s, Some(e)),
            Ok(t) => apply_changes(t, changes.drop_first(), enc),
        }
    }
}

/// Applies one change to a document. Where the change fails the document is left
/// as it was.
pub fn apply_content_change(
    doc: &mut ropey::Rope,
    change: &ChangeEvent,
    offset_encoding: OffsetEncoding,
) -> (r: Result<(), Error>)
    ensures
        match apply_change(rope_text(*old(doc)), *change, offset_encoding) {
            Ok(t) => r == Ok::<(), Error>(()) && rope_text(*final(doc)) == t,
            Err(e) => r == Err::<(), Error>(e) && rope_text(*final(doc)) == rope_text(*old(doc)),
        },
{
    match change {
        ChangeEvent::FullReplace { text } => {
            *doc = rope_from_str(text.as_str());
            Ok(())
        },
        ChangeEvent::Incremental { range, text } => {
            let start: usize = match lsp_pos_to_pos(doc, range.start, offset_encoding) {
                Ok(offset) => offset,
                Err(e) => {
                    return Err(e);
                },
            };
            let end: usize = match lsp_pos_to_pos(doc, range.end, offset_encoding) {
                Ok(offset) => offset,
                Err(e) => {
                    return Err(e);
                },
            };
            if start > end {
                return Err(Error::PositionOutOfBounds(range.end.line, range.end.character));
            }
            rope_remove(doc, start, end);
            rope_insert(doc, start, text.as_str());
            assert(rope_text(*doc) =~= splice(
                rope_text(*old(doc)),
                start as int,
                end as int,
                text@,
            ));
            Ok(())
        },
    }
}

/// Applies a batch of changes to a document in the order in which they were
/// delivered, each against the text that the one before it left. The batch ends at
/// the first change that fails, and its error is returned; the changes before it
/// stay applied.
pub fn apply_content_changes(
    doc: &mut ropey::Rope,
    changes: &Vec<ChangeEvent>,
    offset_encoding: OffsetEncoding,
) -> (r: Result<(), Error>)
    ensures
        rope_text(*final(doc)) == apply_changes(
            rope_text(*old(doc)),
            changes@,
            offset_encoding,
        ).0,
        match apply_changes(rope_text(*old(doc)), changes@, offset_encoding).1 {
            None => r == Ok::<(), Error>(()),
            Some(e) => r == Err::<(), Error>(e),
        },
{
    let mut i: usize = 0;
    assert(changes@.skip(0) =~= changes@);
    while i < changes.len()
        invariant
            i <= changes.len(),
            apply_changes(rope_text(*old(doc)), changes@, offset_encoding) == apply_changes(
                rope_text(*doc),
                changes@.skip(i as int),
                offset_encoding,
            ),
        decreases changes.len() - i,
    {
        assert(changes@.skip(i as int)[0] == changes@[i as int]);
        assert(changes@.skip(i as int).drop_first() =~= changes@.skip(i + 1));
        match apply_content_change(doc, &changes[i], offset_encoding) {
            Ok(()) => {},
            Err(e) => {
                return Err(e);
            },
        }
        i = i + 1;
    }
    Ok(())
}

/// A batch without changes leaves the text as it is and reports no error.
pub proof fn lemma_apply_no_changes(s: Seq<char>, enc: OffsetEncoding)
    ensures
        apply_changes(s, Seq::<ChangeEvent>::empty(), enc) == (s, None::<Error>),
{
}

/// Changes that arrive in two batches leave what they leave when they arrive in
/// one: the second batch works on the text that the first one left, and is not
/// looked at where the first one failed.
pub proof fn lemma_apply_changes_in_two_batches(
    s: Seq<char>,
    first: Seq<ChangeEvent>,
    second: Seq<ChangeEvent>,
    enc: OffsetEncoding,
)
    ensures
        apply_changes(s, first + second, enc) == if apply_changes(s, first, enc).1 is None {
            apply_changes(apply_changes(s, first, enc).0, second, enc)
        } else {
            apply_changes(s, first, enc)
        },
    decreases first.len(),
{
    if first.len() == 0 {
        assert(first + second =~= second);
    } else {
        assert((first + second)[0] == first[0]);
        assert((first + second).drop_first() =~= first.drop_first() + second);
        match apply_change(s, first[0], enc) {
            Err(e) => {},
            Ok(t) => {
                lemma_apply_changes_in_two_batches(t, first.drop_first(), second, enc);
            },
        }
    }
}

/// What a list of edits leaves of a plain string when they are made one after the
/// other. Each edit is the offset at which it starts, the offset at which it ends
/// and the text that takes the place of what lies between, the offsets counted in
/// the string as the edit finds it.
pub open spec fn plain_edits(s: Seq<char>, edits: Seq<(int, int, Seq<char>)>) -> Seq<char>
    decreases edits.len(),
{
    if edits.len() == 0 {
        s
    } else {
        plain_edits(splice(s, edits[0].0, edits[0].1, edits[0].2), edits.drop_first())
    }
}

/// Whether a list of edits is what a batch of incremental changes says, the
/// positions of each change turned into offsets in the text that the changes
/// before it left.
pub open spec fn edits_of_changes(
    s: Seq<char>,
    changes: Seq<ChangeEvent>,
    edits: Seq<(int, int, Seq<char>)>,
    enc: OffsetEncoding,
) -> bool
    decreases changes.len(),
{
    &&& changes.len() == edits.len()
    &&& changes.len() > 0 ==> {
        &&& changes[0] matches ChangeEvent::Incremental { range, text }
        &&& 0 <= edits[0].0 <= edits[0].1 <= usize::MAX
        &&& decode_position(s, range.start, enc) == Ok::<usize, Error>(edits[0].0 as usize)
        &&& decode_position(s, range.end, enc) == Ok::<usize, Error>(edits[0].1 as usize)
        &&& edits[0].2 == text@
        &&& edits_of_changes(
            splice(s, edits[0].0, edits[0].1, edits[0].2),
            changes.drop_first(),
            edits.drop_first(),
            enc,
        )
    }
}

/// A batch of incremental changes leaves the text that the same edits leave of a
/// plain string when they are made one after the other, the offsets of each edit
/// taken from the string that the edit before it left. And it reports no error.
pub proof fn lemma_batch_equals_plain_edits(
    s: Seq<char>,
    changes: Seq<ChangeEvent>,
    edits: Seq<(int, int, Seq<char>)>,
    enc: OffsetEncoding,
)
    requires
        edits_of_changes(s, changes, edits, enc),
    ensures
        apply_changes(s, changes, enc) == (plain_edits(s, edits), None::<Error>),
    decreases changes.len(),
{
    if changes.len() > 0 {
        let after = splice(s, edits[0].0, edits[0].1, edits[0].2);
        assert(apply_change(s, changes[0], enc) == Ok::<Seq<char>, Error>(after));
        lemma_batch_equals_plain_edits(after, changes.drop_first(), edits.drop_first(), enc);
    }
}

/// A position at or before another never decodes to a later offset.
pub proof fn lemma_decode_monotonic(
    s: Seq<char>,
    first: Position,
    second: Position,
    enc: OffsetEncoding,
)
    requires
        s.len() <= usize::MAX,
        first.precedes(&second),
        decode_position(s, first, enc) is Ok,
        decode_position(s, second, enc) is Ok,
    ensures
        decode_position(s, first, enc)->Ok_0 <= decode_position(s, second, enc)->Ok_0,
{
    let a = decode_position(s, first, enc)->Ok_0;
    let b = decode_position(s, second, enc)->Ok_0;
    let l1 = first.line as nat;
    let l2 = second.line as nat;
    lemma_decoded_offset_in_line(s, first, enc, a);
    lemma_decoded_offset_in_line(s, second, enc, b);
    lemma_line_bounds(s, l1);
    lemma_line_bounds(s, l2);
    if l1 == l2 {
        let content = line_content(s, l1);
        crate::text::lemma_scalar_of_unit_monotonic(
            content,
            first.character as nat,
            second.character as nat,
            enc,
        );
        lemma_scalar_of_unit(content, first.character as nat, enc);
        lemma_scalar_of_unit(content, second.character as nat, enc);
        assert(a == line_start(s, l1) + scalar_of_unit(content, first.character as nat, enc));
        assert(b == line_start(s, l1) + scalar_of_unit(content, second.character as nat, enc));
    } else {
        assert(l1 + 1 <= l2);
        crate::text::lemma_line_start_monotonic(s, l1 + 1, l2);
        assert(a <= line_end(s, l1));
        assert(line_end(s, l1) < line_start(s, l1 + 1));
        assert(line_start(s, l2) <= b);
    }
}

/// The text of a range: what lies between the offsets of its two positions, both
/// counted in UTF-16 code units. There is none where the range ends before it
/// starts or where one of the positions does not decode.
pub open spec fn range_content(s: Seq<char>, range: Range) -> Option<Seq<char>> {
    if !range.start.precedes(&range.end) {
        None
    } else {
        match (
            decode_position(s, range.start, OffsetEncoding::Utf16),
            decode_position(s, range.end, OffsetEncoding::Utf16),
        ) {
            (Ok(start), Ok(end)) => Some(s.subrange(start as int, end as int)),
            _ => None,
        }
    }
}

/// The text of a range of a document.
pub fn get_range_content(doc: &ropey::Rope, range: &Range) -> (content: Option<String>)
    ensures
        match range_content(rope_text(*doc), *range) {
            Some(text) => content matches Some(c) && c@ == text,
            None => content is None,
        },
{
    if !range.start.le(&range.end) {
        return None;
    }
    let start: usize = match lsp_pos_to_pos(doc, range.start, OffsetEncoding::Utf16) {
        Ok(offset) => offset,
        Err(_) => {
            return None;
        },
    };
    let end: usize = match lsp_pos_to_pos(doc, range.end, OffsetEncoding::Utf16) {
        Ok(offset) => offset,
        Err(_) => {
            return None;
        },
    };
    recall_length_fits(doc);
    proof {
        lemma_decode_monotonic(rope_text(*doc), range.start, range.end, OffsetEncoding::Utf16);
    }
    Some(rope_slice_to_string(doc, start, end))
}

/// Whether `char::is_alphanumeric` holds of a scalar value.
pub uninterp spec fn char_is_alphanumeric(ch: char) -> bool;

/// `char::is_alphanumeric`: whether the scalar value is a letter or a number as
/// Unicode classes them.
#[verifier::external_body]
fn is_alphanumeric(ch: char) -> (b: bool)
    ensures
        b == char_is_alphanumeric(ch),
{
    ch.is_alphanumeric()
}

/// The two-letter abbreviation of the Unicode general category of a scalar value.
pub uninterp spec fn general_category_abbreviation(ch: char) -> Seq<char>;

/// `get_general_category` and `GeneralCategory::abbreviation`: the abbreviation of
/// the general category of a scalar value. Each of them has two letters.
#[verifier::external_body]
fn category_abbreviation(ch: char) -> (abbreviation: &'static str)
    ensures
        abbreviation@ == general_category_abbreviation(ch),
        abbreviation@.len() == 2,
{
    unicode_general_category::get_general_category(ch).abbreviation()
}

/// The general categories of what separates words: the punctuation categories, and
/// the math, currency and modifier symbols.
pub open spec fn is_punctuation_category(category: Seq<char>) -> bool {
    ||| category == seq!['P', 'o']
    ||| category == seq!['P', 's']
    ||| category == seq!['P', 'e']
    ||| category == seq!['P', 'i']
    ||| category == seq!['P', 'f']
    ||| category == seq!['P', 'c']
    ||| category == seq!['P', 'd']
    ||| category == seq!['S', 'm']
    ||| category == seq!['S', 'c']
    ||| category == seq!['S', 'k']
}

/// A scalar value that separates words.
pub open spec fn is_punctuation_char(ch: char) -> bool {
    is_punctuation_category(general_category_abbreviation(ch))
}

/// A scalar value that can stand in a word: a letter, a number or an underscore.
pub open spec fn is_word_char(ch: char) -> bool {
    char_is_alphanumeric(ch) || ch == '_'
}

/// Whether a general category, given by its abbreviation, is one of those that
/// separate words.
pub fn category_is_punctuation(abbreviation: &str) -> (b: bool)
    ensures
        b == is_punctuation_category(abbreviation@),
{
    if abbreviation.unicode_len() != 2 {
        return false;
    }
    let major: char = abbreviation.get_char(0);
    let minor: char = abbreviation.get_char(1);
    assert(abbreviation@ =~= seq![major, minor]);
    if major == 'P' {
        minor == 'o' || minor == 's' || minor == 'e' || minor == 'i' || minor == 'f' || minor
            == 'c' || minor == 'd'
    } else if major == 'S' {
        minor == 'm' || minor == 'c' || minor == 'k'
    } else {
        false
    }
}

pub fn char_is_punctuation(ch: char) -> (b: bool)
    ensures
        b == is_punctuation_char(ch),
{
    category_is_punctuation(category_abbreviation(ch))
}

pub fn char_is_word(ch: char) -> (b: bool)
    ensures
        b == is_word_char(ch),
{
    is_alphanumeric(ch) || ch == '_'
}

/// Whether the scalar values of `s` in `from..to` are all word or punctuation
/// scalar values.
pub open spec fn all_field_chars(s: Seq<char>, from: int, to: int) -> bool {
    forall|i: int| from <= i < to ==> is_word_char(#[trigger] s[i]) || is_punctuation_char(s[i])
}

/// Whether what stands before index `pos` is a field or an attribute: a
/// punctuation that only word and punctuation scalar values part from `pos`.
pub open spec fn field_before(s: Seq<char>, pos: int) -> bool {
    exists|j: int|
        0 <= j < pos && is_punctuation_char(#[trigger] s[j]) && all_field_chars(s, j + 1, pos)
}

/// Whether the cursor at offset `line_character_pos` of a line, counted in scalar
/// values, stands in a field or an attribute. An offset of 0 or past the line does
/// not.
pub fn is_field(line: &ropey::Rope, line_character_pos: usize) -> (b: bool)
    ensures
        b == (0 < line_character_pos <= rope_text(*line).len() && field_before(
            rope_text(*line),
            line_character_pos as int,
        )),
{
    if line_character_pos == 0 || line_character_pos > rope_len_chars(line) {
        return false;
    }
    let ghost s = rope_text(*line);
    let mut i: usize = line_character_pos;
    while i > 0
        invariant
            i <= line_character_pos <= s.len(),
            s == rope_text(*line),
            forall|k: int|
                i <= k < line_character_pos ==> is_word_char(#[trigger] s[k])
                    && !is_punctuation_char(s[k]),
        decreases i,
    {
        let ch: char = rope_char(line, i - 1);
        if char_is_punctuation(ch) {
            assert(is_punctuation_char(s[i - 1]) && all_field_chars(
                s,
                i - 1 + 1,
                line_character_pos as int,
            ));
            return true;
        }
        if !char_is_word(ch) {
            assert forall|j: int|
                0 <= j < line_character_pos && is_punctuation_char(
                    #[trigger] s[j],
                ) implies !all_field_chars(s, j + 1, line_character_pos as int) by {
                if j < i - 1 {
                    assert(!(is_word_char(s[i - 1]) || is_punctuation_char(s[i - 1])));
                }
            }
            return false;
        }
        i = i - 1;
    }
    false
}

/// The number of word scalar values directly before index `pos`.
pub open spec fn word_run_back(s: Seq<char>, pos: int) -> nat
    decreases pos,
{
    if 0 < pos <= s.len() && is_word_char(s[pos - 1]) {
        1 + word_run_back(s, pos - 1)
    } else {
        0
    }
}

/// The number of word scalar values from index `pos` on.
pub open spec fn word_run_forward(s: Seq<char>, pos: int) -> nat
    decreases s.len() - pos,
{
    if 0 <= pos < s.len() && is_word_char(s[pos]) {
        1 + word_run_forward(s, pos + 1)
    } else {
        0
    }
}

/// The word around index `pos`: the word scalar values directly before it and from
/// it on. There is none at index 0, past the text, or where no word scalar value
/// touches `pos`.
pub open spec fn current_word(s: Seq<char>, pos: int) -> Option<Seq<char>> {
    if pos <= 0 || pos > s.len() || (word_run_back(s, pos) == 0 && word_run_forward(s, pos)
        == 0) {
        None
    } else {
        Some(s.subrange(pos - word_run_back(s, pos), pos + word_run_forward(s, pos)))
    }
}

/// The word at the cursor, which stands at offset `line_character_pos` of a line,
/// counted in scalar values.
pub fn get_current_word(line: &ropey::Rope, line_character_pos: usize) -> (word: Option<String>)
    ensures
        match current_word(rope_text(*line), line_character_pos as int) {
            Some(text) => word matches Some(w) && w@ == text,
            None => word is None,
        },
{
    let len: usize = rope_len_chars(line);
    if line_character_pos == 0 || line_character_pos > len {
        return None;
    }
    let ghost s = rope_text(*line);
    let mut start: usize = line_character_pos;
    loop
        invariant
            start <= line_character_pos <= s.len(),
            s == rope_text(*line),
            word_run_back(s, line_character_pos as int) == (line_character_pos - start)
                + word_run_back(s, start as int),
        ensures
            start <= line_character_pos,
            word_run_back(s, line_character_pos as int) == line_character_pos - start,
        decreases start,
    {
        if start == 0 {
            break ;
        }
        if !char_is_word(rope_char(line, start - 1)) {
            break ;
        }
        start = start - 1;
    }
    let mut end: usize = line_character_pos;
    loop
        invariant
            line_character_pos <= end <= s.len() == len,
            s == rope_text(*line),
            word_run_forward(s, line_character_pos as int) == (end - line_character_pos)
                + word_run_forward(s, end as int),
        ensures
            line_character_pos <= end <= s.len(),
            word_run_forward(s, line_character_pos as int) == end - line_character_pos,
        decreases len - end,
    {
        if end == len {
            break ;
        }
        if !char_is_word(rope_char(line, end)) {
            break ;
        }
        end = end + 1;
    }
    if start == line_character_pos && end == line_character_pos {
        return None;
    }
    Some(rope_slice_to_string(line, start, end))
}

} // verus!
