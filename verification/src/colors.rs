//! Finding the colors that a document writes out. What a color is in numbers
//! between 0 and 1 is left to the caller: here a color is found, its text cut
//! out and its place given.
use vstd::prelude::*;
use vstd::string::StringExecFns;

use crate::encoding::{Position, Range};
use crate::rope::{
    recall_length_fits, rope_char, rope_char_to_line, rope_len_chars, rope_line_to_char,
    rope_slice_to_string, rope_text,
};
use crate::text::{breaks_before, lemma_line_of_index, line_start};

verus! {

/// The ways to write a color as a call: the name of the call decides how its
/// numbers are read.
#[derive(Clone, Copy, Debug, PartialEq, Eq, Structural)]
pub enum ColorFormat {
    Srgba,
    Srgb,
    Rgba,
    Rgb,
    Hsla,
    Hsl,
    Hsva,
    Hsv,
}

impl ColorFormat {
    /// The text with which a color in this format starts.
    pub open spec fn prefix(self) -> Seq<char> {
        match self {
            ColorFormat::Srgba => seq!['s', 'r', 'g', 'b', 'a', '('],
            ColorFormat::Srgb => seq!['s', 'r', 'g', 'b', '('],
            ColorFormat::Rgba => seq!['r', 'g', 'b', 'a', '('],
            ColorFormat::Rgb => seq!['r', 'g', 'b', '('],
            ColorFormat::Hsla => seq!['h', 's', 'l', 'a', '('],
            ColorFormat::Hsl => seq!['h', 's', 'l', '('],
            ColorFormat::Hsva => seq!['h', 's', 'v', 'a', '('],
            ColorFormat::Hsv => seq!['h', 's', 'v', '('],
        }
    }

    pub fn prefix_str(&self) -> (prefix: &'static str)
        ensures
            prefix@ == self.prefix(),
    {
        proof {
            reveal_strlit("srgba(");
            reveal_strlit("srgb(");
            reveal_strlit("rgba(");
            reveal_strlit("rgb(");
            reveal_strlit("hsla(");
            reveal_strlit("hsl(");
            reveal_strlit("hsva(");
            reveal_strlit("hsv(");
        }
        let prefix = match self {
            ColorFormat::Srgba => "srgba(",
            ColorFormat::Srgb => "srgb(",
            ColorFormat::Rgba => "rgba(",
            ColorFormat::Rgb => "rgb(",
            ColorFormat::Hsla => "hsla(",
            ColorFormat::Hsl => "hsl(",
            ColorFormat::Hsva => "hsva(",
            ColorFormat::Hsv => "hsv(",
        };
        assert(prefix@ =~= self.prefix());
        prefix
    }
}

/// The formats, in the order in which they are tried.
pub open spec fn color_formats() -> Seq<ColorFormat> {
    seq![
        ColorFormat::Srgba,
        ColorFormat::Srgb,
        ColorFormat::Rgba,
        ColorFormat::Rgb,
        ColorFormat::Hsla,
        ColorFormat::Hsl,
        ColorFormat::Hsva,
        ColorFormat::Hsv,
    ]
}

/// The value of a hexadecimal digit, in either case.
pub open spec fn hex_value(c: char) -> Option<nat> {
    if '0' <= c <= '9' {
        Some((c as u32 - '0' as u32) as nat)
    } else if 'a' <= c <= 'f' {
        Some((c as u32 - 'a' as u32 + 10) as nat)
    } else if 'A' <= c <= 'F' {
        Some((c as u32 - 'A' as u32 + 10) as nat)
    } else {
        None
    }
}

fn hex_digit(c: char) -> (value: Option<u8>)
    ensures
        match hex_value(c) {
            Some(v) => value == Some(v as u8) && v < 16,
            None => value is None,
        },
{
    let code: u32 = c as u32;
    if '0' <= c && c <= '9' {
        Some((code - 48) as u8)
    } else if 'a' <= c && c <= 'f' {
        Some((code - 97 + 10) as u8)
    } else if 'A' <= c && c <= 'F' {
        Some((code - 65 + 10) as u8)
    } else {
        None
    }
}

/// The number that two hexadecimal digits write.
pub open spec fn hex_pair(high: char, low: char) -> Option<u8> {
    match (hex_value(high), hex_value(low)) {
        (Some(h), Some(l)) => Some((16 * h + l) as u8),
        _ => None,
    }
}

/// The color that `#` and six hexadecimal digits at index `start` write: the index
/// behind them, and red, green and blue between 0 and 255.
pub open spec fn hex_color_at(s: Seq<char>, start: int) -> Option<(usize, (u8, u8, u8))> {
    if 0 <= start && start + 7 <= s.len() && s[start] == '#' {
        match (
            hex_pair(s[start + 1], s[start + 2]),
            hex_pair(s[start + 3], s[start + 4]),
            hex_pair(s[start + 5], s[start + 6]),
        ) {
            (Some(red), Some(green), Some(blue)) => Some(
                ((start + 7) as usize, (red, green, blue)),
            ),
            _ => None,
        }
    } else {
        None
    }
}

fn hex_pair_at(doc: &ropey::Rope, at: usize) -> (value: Option<u8>)
    requires
        at + 1 < rope_text(*doc).len(),
    ensures
        value == hex_pair(rope_text(*doc)[at as int], rope_text(*doc)[at + 1]),
{
    recall_length_fits(doc);
    match (hex_digit(rope_char(doc, at)), hex_digit(rope_char(doc, at + 1))) {
        (Some(high), Some(low)) => Some(16 * high + low),
        _ => None,
    }
}

/// Finds a color written as `#` and six hexadecimal digits at an index.
pub fn detect_hex_color(doc: &ropey::Rope, start: usize) -> (found: Option<(usize, (u8, u8, u8))>)
    ensures
        found == hex_color_at(rope_text(*doc), start as int),
{
    let len: usize = rope_len_chars(doc);
    if len < 7 || start > len - 7 {
        return None;
    }
    if rope_char(doc, start) != '#' {
        return None;
    }
    let red = hex_pair_at(doc, start + 1);
    let green = hex_pair_at(doc, start + 3);
    let blue = hex_pair_at(doc, start + 5);
    match (red, green, blue) {
        (Some(red), Some(green), Some(blue)) => Some((start + 7, (red, green, blue))),
        _ => None,
    }
}

/// A text without the `#` at its start, however many there are.
pub open spec fn without_hashes(s: Seq<char>) -> Seq<char>
    decreases s.len(),
{
    if s.len() > 0 && s[0] == '#' {
        without_hashes(s.drop_first())
    } else {
        s
    }
}

/// The number that two scalar values write in base 16: two digits, or a plus sign
/// and one digit.
pub open spec fn hex_number(high: char, low: char) -> Option<u8> {
    if high == '+' {
        match hex_value(low) {
            Some(l) => Some(l as u8),
            None => None,
        }
    } else {
        hex_pair(high, low)
    }
}

/// The color that a text writes in six hexadecimal digits behind any number of
/// `#`: red, green and blue between 0 and 255.
pub open spec fn hex_color(s: Seq<char>) -> Option<(u8, u8, u8)> {
    let digits = without_hashes(s);
    if digits.len() == 6 {
        match (
            hex_number(digits[0], digits[1]),
            hex_number(digits[2], digits[3]),
            hex_number(digits[4], digits[5]),
        ) {
            (Some(red), Some(green), Some(blue)) => Some((red, green, blue)),
            _ => None,
        }
    } else {
        None
    }
}

fn hex_number_of(high: char, low: char) -> (value: Option<u8>)
    ensures
        value == hex_number(high, low),
{
    if high == '+' {
        hex_digit(low)
    } else {
        match (hex_digit(high), hex_digit(low)) {
            (Some(h), Some(l)) => Some(16 * h + l),
            _ => None,
        }
    }
}

/// Reads a color in hexadecimal digits.
pub fn parse_hex(text: &str) -> (color: Option<(u8, u8, u8)>)
    ensures
        color == hex_color(text@),
{
    let ghost s = text@;
    let len: usize = text.unicode_len();
    let mut from: usize = 0;
    assert(s.skip(0) =~= s);
    while from < len && text.get_char(from) == '#'
        invariant
            from <= len == s.len(),
            s == text@,
            without_hashes(s) == without_hashes(s.skip(from as int)),
        decreases len - from,
    {
        assert(s.skip(from as int).drop_first() =~= s.skip(from + 1));
        from = from + 1;
    }
    assert(without_hashes(s) == s.skip(from as int));
    if len - from != 6 {
        return None;
    }
    let red = hex_number_of(text.get_char(from), text.get_char(from + 1));
    let green = hex_number_of(text.get_char(from + 2), text.get_char(from + 3));
    let blue = hex_number_of(text.get_char(from + 4), text.get_char(from + 5));
    match (red, green, blue) {
        (Some(red), Some(green), Some(blue)) => Some((red, green, blue)),
        _ => None,
    }
}

/// The index of the bracket that closes a call, looked for from index `i` on,
/// where `depth` brackets are open.
pub open spec fn closing_index(s: Seq<char>, i: int, depth: nat) -> Option<int>
    decreases s.len() - i,
{
    if i < 0 || i >= s.len() {
        None
    } else if s[i] == ')' && depth <= 1 {
        Some(i)
    } else if s[i] == ')' {
        closing_index(s, i + 1, (depth - 1) as nat)
    } else if s[i] == '(' {
        closing_index(s, i + 1, depth + 1)
    } else {
        closing_index(s, i + 1, depth)
    }
}

/// Finds the bracket that closes a call whose arguments start at an index, and
/// gives its index and the text of the arguments.
pub fn find_color_closure(doc: &ropey::Rope, start: usize) -> (found: Option<(usize, String)>)
    ensures
        match closing_index(rope_text(*doc), start as int, 1) {
            Some(end) => found matches Some((at, text)) && at == end && start <= end
                && text@ == rope_text(*doc).subrange(start as int, end),
            None => found is None,
        },
{
    let ghost s = rope_text(*doc);
    let len: usize = rope_len_chars(doc);
    let mut depth: u128 = 1;
    let mut i: usize = start;
    while i < len
        invariant
            start <= i,
            s == rope_text(*doc),
            len == s.len(),
            1 <= depth <= 1 + (i - start),
            closing_index(s, start as int, 1) == closing_index(s, i as int, depth as nat),
        decreases len - i,
    {
        let c: char = rope_char(doc, i);
        if c == ')' {
            if depth == 1 {
                return Some((i, rope_slice_to_string(doc, start, i)));
            }
            depth = depth - 1;
        } else if c == '(' {
            depth = depth + 1;
        }
        i = i + 1;
    }
    None
}

/// A letter of ASCII in lower case, any other scalar value as it is.
pub open spec fn ascii_lower(c: char) -> char {
    if 'A' <= c <= 'Z' {
        ((c as u32) + 32) as char
    } else {
        c
    }
}

/// Whether the text at an index starts with a prefix, the case of ASCII letters
/// not counted.
pub open spec fn starts_with_prefix(s: Seq<char>, pos: int, prefix: Seq<char>) -> bool {
    &&& 0 <= pos
    &&& pos + prefix.len() <= s.len()
    &&& forall|i: int| 0 <= i < prefix.len() ==> ascii_lower(#[trigger] s[pos + i]) == prefix[i]
}

fn has_prefix(doc: &ropey::Rope, pos: usize, prefix: &str) -> (found: bool)
    ensures
        found == starts_with_prefix(rope_text(*doc), pos as int, prefix@),
{
    let ghost s = rope_text(*doc);
    let len: usize = rope_len_chars(doc);
    let n: usize = prefix.unicode_len();
    if pos > len || n > len - pos {
        return false;
    }
    let mut i: usize = 0;
    while i < n
        invariant
            i <= n == prefix@.len(),
            pos + n <= len == s.len(),
            s == rope_text(*doc),
            forall|j: int| 0 <= j < i ==> ascii_lower(#[trigger] s[pos + j]) == prefix@[j],
        decreases n - i,
    {
        let c: char = rope_char(doc, pos + i);
        let lower: char = if 'A' <= c && c <= 'Z' {
            ((c as u8) + 32) as char
        } else {
            c
        };
        if lower != prefix.get_char(i) {
            assert(ascii_lower(s[pos + i]) != prefix@[i as int]);
            return false;
        }
        i = i + 1;
    }
    true
}

/// A color written as a call: its format, the index of its closing bracket, and
/// the call as text, its name in lower case.
#[derive(Debug, PartialEq, Eq)]
pub struct ColorCall {
    pub format: ColorFormat,
    pub end: usize,
    pub text: String,
}

/// The call in the format `format` at an index, as the index of its closing
/// bracket and its text.
pub open spec fn color_call_in(s: Seq<char>, pos: int, format: ColorFormat) -> Option<
    (int, Seq<char>),
> {
    if starts_with_prefix(s, pos, format.prefix()) {
        match closing_index(s, pos + format.prefix().len(), 1) {
            Some(end) => Some(
                (
                    end,
                    format.prefix() + s.subrange(pos + format.prefix().len(), end) + seq![')'],
                ),
            ),
            None => None,
        }
    } else {
        None
    }
}

fn detect_call_in(doc: &ropey::Rope, pos: usize, format: ColorFormat) -> (found: Option<
    ColorCall,
>)
    ensures
        match color_call_in(rope_text(*doc), pos as int, format) {
            Some((end, text)) => found matches Some(call) && call.format == format && call.end
                == end && call.text@ == text,
            None => found is None,
        },
{
    let prefix = format.prefix_str();
    if !has_prefix(doc, pos, prefix) {
        return None;
    }
    let n: usize = prefix.unicode_len();
    recall_length_fits(doc);
    match find_color_closure(doc, pos + n) {
        Some((end, arguments)) => {
            proof {
                reveal_strlit(")");
            }
            let mut text = prefix.to_owned();
            text.append(arguments.as_str());
            text.append(")");
            assert(text@ =~= format.prefix() + rope_text(*doc).subrange(pos + n, end as int)
                + seq![')']);
            Some(ColorCall { format, end, text })
        },
        None => None,
    }
}

/// What stands at an index of a document as far as colors go.
#[derive(Debug, PartialEq, Eq)]
pub enum ColorScan {
    /// A color in hexadecimal digits: the index behind it, and its red, green and
    /// blue between 0 and 255.
    Hex { end: usize, red: u8, green: u8, blue: u8 },
    /// What may be a color written as a call. Whether it is one is for the
    /// reader of its numbers to say.
    Call(ColorCall),
    /// Nothing that could be a color.
    Nothing,
}

/// The first of the formats from the `k`-th on in which a call stands at an
/// index.
pub open spec fn first_call(s: Seq<char>, pos: int, k: int) -> Option<(ColorFormat, int, Seq<char>)>
    decreases color_formats().len() - k,
{
    if k < 0 || k >= color_formats().len() {
        None
    } else {
        match color_call_in(s, pos, color_formats()[k]) {
            Some((end, text)) => Some((color_formats()[k], end, text)),
            None => first_call(s, pos, k + 1),
        }
    }
}

/// Looks at an index of a document for a color: first for one in hexadecimal
/// digits, then for a call in one of the formats.
pub fn scan_color(doc: &ropey::Rope, pos: usize) -> (scan: ColorScan)
    ensures
        match hex_color_at(rope_text(*doc), pos as int) {
            Some((end, (red, green, blue))) => scan == (ColorScan::Hex { end, red, green, blue }),
            None => match first_call(rope_text(*doc), pos as int, 0) {
                Some((format, end, text)) => scan matches ColorScan::Call(call) && call.format
                    == format && call.end == end && call.text@ == text,
                None => scan == ColorScan::Nothing,
            },
        },
{
    if let Some((end, (red, green, blue))) = detect_hex_color(doc, pos) {
        return ColorScan::Hex { end, red, green, blue };
    }
    let formats = [
        ColorFormat::Srgba,
        ColorFormat::Srgb,
        ColorFormat::Rgba,
        ColorFormat::Rgb,
        ColorFormat::Hsla,
        ColorFormat::Hsl,
        ColorFormat::Hsva,
        ColorFormat::Hsv,
    ];
    assert(formats@ =~= color_formats());
    let mut k: usize = 0;
    while k < 8
        invariant
            k <= 8,
            formats@ == color_formats(),
            first_call(rope_text(*doc), pos as int, 0) == first_call(
                rope_text(*doc),
                pos as int,
                k as int,
            ),
        decreases 8 - k,
    {
        if let Some(call) = detect_call_in(doc, pos, formats[k]) {
            return ColorScan::Call(call);
        }
        k = k + 1;
    }
    ColorScan::Nothing
}

/// The index behind an index, as far as there is one.
pub open spec fn behind(idx: usize) -> usize {
    if idx < usize::MAX {
        (idx + 1) as usize
    } else {
        idx
    }
}

/// The index at which the search goes on after an index was looked at: behind a
/// color that was found there, else one further. `is_color` says whether the
/// numbers of a call could be read as a color.
pub fn next_position(pos: usize, scan: &ColorScan, is_color: bool) -> (next: usize)
    ensures
        next == match scan {
            ColorScan::Hex { end, .. } => *end,
            ColorScan::Call(call) => if is_color {
                behind(call.end)
            } else {
                behind(pos)
            },
            ColorScan::Nothing => behind(pos),
        },
{
    let after: usize = match scan {
        ColorScan::Hex { end, .. } => {
            return *end;
        },
        ColorScan::Call(call) => if is_color {
            call.end
        } else {
            pos
        },
        ColorScan::Nothing => pos,
    };
    if after < usize::MAX {
        after + 1
    } else {
        after
    }
}

/// The position of an index: its line, and its offset in that line in scalar
/// values. There is none where the two cannot be written.
pub open spec fn position_of(s: Seq<char>, idx: int) -> Option<Position> {
    if 0 <= idx <= s.len() && breaks_before(s, idx) <= u32::MAX && idx - line_start(
        s,
        breaks_before(s, idx),
    ) <= u32::MAX {
        Some(
            Position {
                line: breaks_before(s, idx) as u32,
                character: (idx - line_start(s, breaks_before(s, idx))) as u32,
            },
        )
    } else {
        None
    }
}

fn position_at(doc: &ropey::Rope, idx: usize) -> (position: Option<Position>)
    ensures
        position == position_of(rope_text(*doc), idx as int),
{
    let len: usize = rope_len_chars(doc);
    if idx > len {
        return None;
    }
    proof {
        lemma_line_of_index(rope_text(*doc), idx as int);
    }
    let line: usize = rope_char_to_line(doc, idx);
    let column: usize = idx - rope_line_to_char(doc, line);
    if line > u32::MAX as usize || column > u32::MAX as usize {
        return None;
    }
    Some(Position { line: line as u32, character: column as u32 })
}

/// The range of a color that stands between two indexes of a document.
pub fn color_range(doc: &ropey::Rope, start: usize, end: usize) -> (range: Option<Range>)
    ensures
        range == match (
            position_of(rope_text(*doc), start as int),
            position_of(rope_text(*doc), end as int),
        ) {
            (Some(from), Some(to)) => Some(Range { start: from, end: to }),
            _ => None,
        },
{
    match (position_at(doc, start), position_at(doc, end)) {
        (Some(from), Some(to)) => Some(Range { start: from, end: to }),
        _ => None,
    }
}

} // verus!
