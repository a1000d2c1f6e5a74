//! The variables that a snippet body or a command line may name, and their
//! replacement by what they stand for.
use vstd::prelude::*;
use vstd::string::{StringExecFns, StringSliceAdditionalSpecFns};
use vstd::utf8::{
    decode_utf8, encode_utf8, encode_utf8_decode_utf8, encode_utf8_valid_utf8, is_char_boundary,
    is_char_boundary_iff_not_is_continuation_byte, is_char_boundary_start_end_of_seq,
    valid_utf8_split,
};

use crate::encoding::{char_is_word, is_word_char};
use crate::strings::{decimal, u128_to_string};

verus! {

/// What the variables are resolved from: where the cursor is and what is around it.
#[derive(Debug, Default)]
pub struct VariableInit {
    pub file_path: String,
    pub work_path: String,
    pub line_text: String,
    pub current_word: String,
    pub selected_text: String,
    pub line_pos: usize,
    pub cursor_pos: usize,
    pub clipboard: Option<String>,
    /// The local time zone, in seconds east of UTC.
    pub time_offset: i32,
}

/// The variables, as the snippets of Visual Studio Code name them.
#[derive(Debug, Clone, Copy, PartialEq, Eq, Structural)]
pub enum Variables {
    TmSelectedText,
    TmCurrentLine,
    TmCurrentWord,
    TmLineIndex,
    TmLineNumber,
    TmFilename,
    TmFilenameBase,
    TmDirectory,
    TmFilepath,
    RelativeFilepath,
    Clipboard,
    WorkspaceName,
    WorkspaceFolder,
    CursorIndex,
    CursorNumber,
    CurrentYear,
    CurrentYearShort,
    CurrentMonth,
    CurrentMonthName,
    CurrentMonthNameShort,
    CurrentDate,
    CurrentDayName,
    CurrentDayNameShort,
    CurrentHour,
    CurrentMinute,
    CurrentSecond,
    CurrentSecondsUnix,
    CurrentTimezoneOffset,
    Random,
    RandomHex,
    Uuid,
    BlockCommentStart,
    BlockCommentEnd,
    LineComment,
}

/// Every variable, in the order in which their patterns are numbered.
pub open spec fn all_variables() -> Seq<Variables> {
    seq![
        Variables::TmSelectedText,
        Variables::TmCurrentLine,
        Variables::TmCurrentWord,
        Variables::TmLineIndex,
        Variables::TmLineNumber,
        Variables::TmFilename,
        Variables::TmFilenameBase,
        Variables::TmDirectory,
        Variables::TmFilepath,
        Variables::RelativeFilepath,
        Variables::Clipboard,
        Variables::WorkspaceName,
        Variables::WorkspaceFolder,
        Variables::CursorIndex,
        Variables::CursorNumber,
        Variables::CurrentYear,
        Variables::CurrentYearShort,
        Variables::CurrentMonth,
        Variables::CurrentMonthName,
        Variables::CurrentMonthNameShort,
        Variables::CurrentDate,
        Variables::CurrentDayName,
        Variables::CurrentDayNameShort,
        Variables::CurrentHour,
        Variables::CurrentMinute,
        Variables::CurrentSecond,
        Variables::CurrentSecondsUnix,
        Variables::CurrentTimezoneOffset,
        Variables::Random,
        Variables::RandomHex,
        Variables::Uuid,
        Variables::BlockCommentStart,
        Variables::BlockCommentEnd,
        Variables::LineComment,
    ]
}

/// The file name of a path.
pub uninterp spec fn path_file_name(path: Seq<char>) -> Seq<char>;

/// `Path::file_name`: the last component of the path, or an empty text where the
/// path has none.
#[verifier::external_body]
fn file_name(path: &str) -> (name: String)
    ensures
        name@ == path_file_name(path@),
{
    std::path::Path::new(path).file_name().and_then(|n| n.to_str()).unwrap_or_default().to_string()
}

/// The directory of a path.
pub uninterp spec fn path_parent(path: Seq<char>) -> Seq<char>;

/// `Path::parent`: the path without its last component, or an empty text where
/// the path has none.
#[verifier::external_body]
fn file_directory(path: &str) -> (directory: String)
    ensures
        directory@ == path_parent(path@),
{
    std::path::Path::new(path).parent().and_then(|p| p.to_str()).unwrap_or("").to_owned()
}

/// The number of word scalar values at the start of a text.
pub open spec fn word_prefix_len(s: Seq<char>) -> nat
    decreases s.len(),
{
    if s.len() > 0 && is_word_char(s[0]) {
        1 + word_prefix_len(s.drop_first())
    } else {
        0
    }
}

/// A name up to its first scalar value that cannot stand in a word, such as the dot
/// before an extension.
pub fn word_prefix(name: &str) -> (base: String)
    ensures
        base@ == name@.take(word_prefix_len(name@) as int),
{
    let len: usize = name.unicode_len();
    let mut n: usize = 0;
    let ghost s = name@;
    assert(s.skip(0) =~= s);
    loop
        invariant
            n <= len == s.len(),
            s == name@,
            word_prefix_len(s) == n + word_prefix_len(s.skip(n as int)),
        ensures
            n <= len,
            word_prefix_len(s) == n,
        decreases len - n,
    {
        if n == len {
            break ;
        }
        if !char_is_word(name.get_char(n)) {
            break ;
        }
        assert(s.skip(n as int).drop_first() =~= s.skip(n + 1));
        n = n + 1;
    }
    name.substring_char(0, n).to_owned()
}

/// The file name of a path up to its first scalar value that cannot stand in a
/// word, such as the dot before an extension.
fn file_name_base(path: &str) -> (base: String)
    ensures
        base@ == path_file_name(path@).take(word_prefix_len(path_file_name(path@)) as int),
{
    word_prefix(file_name(path).as_str())
}

/// `Rng::random_range` on `rand::rng()`: a number below `bound`, drawn at random.
/// It panics on an empty range.
#[verifier::external_body]
fn random_below(bound: u32) -> (n: u32)
    requires
        bound > 0,
    ensures
        n < bound,
{
    rand::Rng::random_range(&mut rand::rng(), 0..bound)
}

/// `Uuid::new_v4` and its `to_string`: a random UUID in its hyphenated form, which
/// has 36 scalar values. No more is said of the text, which is different at every
/// call.
#[verifier::external_body]
fn new_uuid() -> (text: String)
    ensures
        text@.len() == 36,
{
    uuid::Uuid::new_v4().to_string()
}

/// `OffsetDateTime::format` of the time now: `OffsetDateTime::now_utc`, moved
/// `to_offset` of `offset_seconds` east of UTC, in the format that the description
/// asks for. There is none where `format_description::parse` or
/// `UtcOffset::from_whole_seconds` refuses its argument. Nothing is said of the
/// text, which is different at every call.
#[verifier::external_body]
fn format_now(description: &str, offset_seconds: i32) -> (text: Option<String>)
{
    let offset = time::UtcOffset::from_whole_seconds(offset_seconds).ok()?;
    let items = time::format_description::parse(description).ok()?;
    time::OffsetDateTime::now_utc().to_offset(offset).format(&items).ok()
}

/// A time zone offset as text.
pub uninterp spec fn utc_offset_text(offset_seconds: int) -> Option<Seq<char>>;

/// `UtcOffset::from_whole_seconds` and its `to_string`: the offset as text, such as
/// `+08:00:00`. There is none for a number of seconds that is no offset.
#[verifier::external_body]
fn timezone_offset(offset_seconds: i32) -> (text: Option<String>)
    ensures
        match utc_offset_text(offset_seconds as int) {
            Some(t) => text matches Some(s) && s@ == t,
            None => text is None,
        },
{
    time::UtcOffset::from_whole_seconds(offset_seconds).ok().map(|offset| offset.to_string())
}

/// A hexadecimal digit.
pub open spec fn is_hex_digit(c: char) -> bool {
    ('0' <= c <= '9') || ('a' <= c <= 'f')
}

/// A decimal digit.
pub open spec fn is_decimal_digit(c: char) -> bool {
    '0' <= c <= '9'
}

fn digit_text(d: u32) -> (digit: &'static str)
    requires
        d < 16,
    ensures
        digit@.len() == 1,
        is_hex_digit(digit@[0]),
        d < 10 ==> is_decimal_digit(digit@[0]),
{
    proof {
        reveal_strlit("0");
        reveal_strlit("1");
        reveal_strlit("2");
        reveal_strlit("3");
        reveal_strlit("4");
        reveal_strlit("5");
        reveal_strlit("6");
        reveal_strlit("7");
        reveal_strlit("8");
        reveal_strlit("9");
        reveal_strlit("a");
        reveal_strlit("b");
        reveal_strlit("c");
        reveal_strlit("d");
        reveal_strlit("e");
        reveal_strlit("f");
    }
    if d == 0 {
        "0"
    } else if d == 1 {
        "1"
    } else if d == 2 {
        "2"
    } else if d == 3 {
        "3"
    } else if d == 4 {
        "4"
    } else if d == 5 {
        "5"
    } else if d == 6 {
        "6"
    } else if d == 7 {
        "7"
    } else if d == 8 {
        "8"
    } else if d == 9 {
        "9"
    } else if d == 10 {
        "a"
    } else if d == 11 {
        "b"
    } else if d == 12 {
        "c"
    } else if d == 13 {
        "d"
    } else if d == 14 {
        "e"
    } else {
        "f"
    }
}

/// A text of `len` digits in base `base`, each drawn at random.
fn random_digits(len: usize, base: u32) -> (text: String)
    requires
        base == 10 || base == 16,
    ensures
        text@.len() == len,
        forall|i: int| 0 <= i < len ==> is_hex_digit(#[trigger] text@[i]),
        base == 10 ==> forall|i: int| 0 <= i < len ==> is_decimal_digit(#[trigger] text@[i]),
{
    let mut text = String::new();
    let mut i: usize = 0;
    while i < len
        invariant
            i <= len,
            base == 10 || base == 16,
            text@.len() == i,
            forall|j: int| 0 <= j < i ==> is_hex_digit(#[trigger] text@[j]),
            base == 10 ==> forall|j: int| 0 <= j < i ==> is_decimal_digit(#[trigger] text@[j]),
        decreases len - i,
    {
        let digit = digit_text(random_below(base));
        text.append(digit);
        i = i + 1;
    }
    text
}

/// A text of `len` decimal digits, each drawn at random.
fn random_base10(len: usize) -> (text: String)
    ensures
        text@.len() == len,
        forall|i: int| 0 <= i < len ==> is_decimal_digit(#[trigger] text@[i]),
{
    random_digits(len, 10)
}

/// A text of `len` hexadecimal digits, each drawn at random.
fn random_hex(len: usize) -> (text: String)
    ensures
        text@.len() == len,
        forall|i: int| 0 <= i < len ==> is_hex_digit(#[trigger] text@[i]),
{
    random_digits(len, 16)
}

impl Variables {
    /// The name of the variable.
    pub open spec fn name(self) -> Seq<char> {
        match self {
            Variables::TmSelectedText => "TM_SELECTED_TEXT"@,
            Variables::TmCurrentLine => "TM_CURRENT_LINE"@,
            Variables::TmCurrentWord => "TM_CURRENT_WORD"@,
            Variables::TmLineIndex => "TM_LINE_INDEX"@,
            Variables::TmLineNumber => "TM_LINE_NUMBER"@,
            Variables::TmFilename => "TM_FILENAME"@,
            Variables::TmFilenameBase => "TM_FILENAME_BASE"@,
            Variables::TmDirectory => "TM_DIRECTORY"@,
            Variables::TmFilepath => "TM_FILEPATH"@,
            Variables::RelativeFilepath => "RELATIVE_FILEPATH"@,
            Variables::Clipboard => "CLIPBOARD"@,
            Variables::WorkspaceName => "WORKSPACE_NAME"@,
            Variables::WorkspaceFolder => "WORKSPACE_FOLDER"@,
            Variables::CursorIndex => "CURSOR_INDEX"@,
            Variables::CursorNumber => "CURSOR_NUMBER"@,
            Variables::CurrentYear => "CURRENT_YEAR"@,
            Variables::CurrentYearShort => "CURRENT_YEAR_SHORT"@,
            Variables::CurrentMonth => "CURRENT_MONTH"@,
            Variables::CurrentMonthName => "CURRENT_MONTH_NAME"@,
            Variables::CurrentMonthNameShort => "CURRENT_MONTH_NAME_SHORT"@,
            Variables::CurrentDate => "CURRENT_DATE"@,
            Variables::CurrentDayName => "CURRENT_DAY_NAME"@,
            Variables::CurrentDayNameShort => "CURRENT_DAY_NAME_SHORT"@,
            Variables::CurrentHour => "CURRENT_HOUR"@,
            Variables::CurrentMinute => "CURRENT_MINUTE"@,
            Variables::CurrentSecond => "CURRENT_SECOND"@,
            Variables::CurrentSecondsUnix => "CURRENT_SECONDS_UNIX"@,
            Variables::CurrentTimezoneOffset => "CURRENT_TIMEZONE_OFFSET"@,
            Variables::Random => "RANDOM"@,
            Variables::RandomHex => "RANDOM_HEX"@,
            Variables::Uuid => "UUID"@,
            Variables::BlockCommentStart => "BLOCK_COMMENT_START"@,
            Variables::BlockCommentEnd => "BLOCK_COMMENT_END"@,
            Variables::LineComment => "LINE_COMMENT"@,
        }
    }

    fn as_str(&self) -> (name: &'static str)
        ensures
            name@ == self.name(),
    {
        match self {
            Variables::TmSelectedText => "TM_SELECTED_TEXT",
            Variables::TmCurrentLine => "TM_CURRENT_LINE",
            Variables::TmCurrentWord => "TM_CURRENT_WORD",
            Variables::TmLineIndex => "TM_LINE_INDEX",
            Variables::TmLineNumber => "TM_LINE_NUMBER",
            Variables::TmFilename => "TM_FILENAME",
            Variables::TmFilenameBase => "TM_FILENAME_BASE",
            Variables::TmDirectory => "TM_DIRECTORY",
            Variables::TmFilepath => "TM_FILEPATH",
            Variables::RelativeFilepath => "RELATIVE_FILEPATH",
            Variables::Clipboard => "CLIPBOARD",
            Variables::WorkspaceName => "WORKSPACE_NAME",
            Variables::WorkspaceFolder => "WORKSPACE_FOLDER",
            Variables::CursorIndex => "CURSOR_INDEX",
            Variables::CursorNumber => "CURSOR_NUMBER",
            Variables::CurrentYear => "CURRENT_YEAR",
            Variables::CurrentYearShort => "CURRENT_YEAR_SHORT",
            Variables::CurrentMonth => "CURRENT_MONTH",
            Variables::CurrentMonthName => "CURRENT_MONTH_NAME",
            Variables::CurrentMonthNameShort => "CURRENT_MONTH_NAME_SHORT",
            Variables::CurrentDate => "CURRENT_DATE",
            Variables::CurrentDayName => "CURRENT_DAY_NAME",
            Variables::CurrentDayNameShort => "CURRENT_DAY_NAME_SHORT",
            Variables::CurrentHour => "CURRENT_HOUR",
            Variables::CurrentMinute => "CURRENT_MINUTE",
            Variables::CurrentSecond => "CURRENT_SECOND",
            Variables::CurrentSecondsUnix => "CURRENT_SECONDS_UNIX",
            Variables::CurrentTimezoneOffset => "CURRENT_TIMEZONE_OFFSET",
            Variables::Random => "RANDOM",
            Variables::RandomHex => "RANDOM_HEX",
            Variables::Uuid => "UUID",
            Variables::BlockCommentStart => "BLOCK_COMMENT_START",
            Variables::BlockCommentEnd => "BLOCK_COMMENT_END",
            Variables::LineComment => "LINE_COMMENT",
        }
    }

    pub fn to_string(&self) -> (name: String)
        ensures
            name@ == self.name(),
    {
        self.as_str().to_owned()
    }

    /// Every variable.
    pub fn all() -> (all: Vec<Variables>)
        ensures
            all@ == all_variables(),
    {
        let all = vec![
            Variables::TmSelectedText,
            Variables::TmCurrentLine,
            Variables::TmCurrentWord,
            Variables::TmLineIndex,
            Variables::TmLineNumber,
            Variables::TmFilename,
            Variables::TmFilenameBase,
            Variables::TmDirectory,
            Variables::TmFilepath,
            Variables::RelativeFilepath,
            Variables::Clipboard,
            Variables::WorkspaceName,
            Variables::WorkspaceFolder,
            Variables::CursorIndex,
            Variables::CursorNumber,
            Variables::CurrentYear,
            Variables::CurrentYearShort,
            Variables::CurrentMonth,
            Variables::CurrentMonthName,
            Variables::CurrentMonthNameShort,
            Variables::CurrentDate,
            Variables::CurrentDayName,
            Variables::CurrentDayNameShort,
            Variables::CurrentHour,
            Variables::CurrentMinute,
            Variables::CurrentSecond,
            Variables::CurrentSecondsUnix,
            Variables::CurrentTimezoneOffset,
            Variables::Random,
            Variables::RandomHex,
            Variables::Uuid,
            Variables::BlockCommentStart,
            Variables::BlockCommentEnd,
            Variables::LineComment,
        ];
        assert(all@ =~= all_variables());
        all
    }

    /// The format description of a variable that stands for a part of the time.
    pub open spec fn time_description(self) -> Option<Seq<char>> {
        match self {
            Variables::CurrentYear => Some("[year]"@),
            Variables::CurrentYearShort => Some("[year repr:last_two]"@),
            Variables::CurrentMonth => Some("[month]"@),
            Variables::CurrentMonthName => Some("[month repr:long]"@),
            Variables::CurrentMonthNameShort => Some("[month repr:short]"@),
            Variables::CurrentDate => Some("[day]"@),
            Variables::CurrentDayName => Some("[weekday repr:long]"@),
            Variables::CurrentDayNameShort => Some("[weekday repr:short]"@),
            Variables::CurrentHour => Some("[hour repr:24]"@),
            Variables::CurrentMinute => Some("[minute]"@),
            Variables::CurrentSecond => Some("[second]"@),
            Variables::CurrentSecondsUnix => Some("[unix_timestamp precision:nanosecond]"@),
            _ => None,
        }
    }

    /// The format description of a variable that stands for a part of the time.
    pub fn time_format(&self) -> (description: Option<&'static str>)
        ensures
            match self.time_description() {
                Some(d) => description matches Some(s) && s@ == d,
                None => description is None,
            },
    {
        match self {
            Variables::CurrentYear => Some("[year]"),
            Variables::CurrentYearShort => Some("[year repr:last_two]"),
            Variables::CurrentMonth => Some("[month]"),
            Variables::CurrentMonthName => Some("[month repr:long]"),
            Variables::CurrentMonthNameShort => Some("[month repr:short]"),
            Variables::CurrentDate => Some("[day]"),
            Variables::CurrentDayName => Some("[weekday repr:long]"),
            Variables::CurrentDayNameShort => Some("[weekday repr:short]"),
            Variables::CurrentHour => Some("[hour repr:24]"),
            Variables::CurrentMinute => Some("[minute]"),
            Variables::CurrentSecond => Some("[second]"),
            Variables::CurrentSecondsUnix => Some("[unix_timestamp precision:nanosecond]"),
            _ => None,
        }
    }

    /// What the variable stands for, as far as the cursor and its surroundings
    /// decide it. The time, a random number and a UUID are not decided by them.
    pub open spec fn resolved(self, init: VariableInit) -> Option<Seq<char>> {
        match self {
            Variables::TmSelectedText => Some(init.selected_text@),
            Variables::TmCurrentLine => Some(init.line_text@),
            Variables::TmCurrentWord => Some(init.current_word@),
            Variables::TmLineIndex => Some(decimal(init.line_pos as nat)),
            Variables::TmLineNumber => Some(decimal((init.line_pos + 1) as nat)),
            Variables::TmFilename => Some(path_file_name(init.file_path@)),
            Variables::TmFilenameBase => Some(
                path_file_name(init.file_path@).take(
                    word_prefix_len(path_file_name(init.file_path@)) as int,
                ),
            ),
            Variables::TmDirectory => Some(path_parent(init.file_path@)),
            Variables::TmFilepath => Some(init.file_path@),
            Variables::RelativeFilepath => Some(init.file_path@),
            Variables::Clipboard => Some(
                match init.clipboard {
                    Some(text) => text@,
                    None => Seq::empty(),
                },
            ),
            Variables::WorkspaceName => Some(path_file_name(init.work_path@)),
            Variables::WorkspaceFolder => Some(init.work_path@),
            Variables::CursorIndex => Some(decimal(init.cursor_pos as nat)),
            Variables::CursorNumber => Some(decimal((init.cursor_pos + 1) as nat)),
            Variables::CurrentTimezoneOffset => Some(
                match utc_offset_text(init.time_offset as int) {
                    Some(text) => text,
                    None => self.name(),
                },
            ),
            Variables::BlockCommentStart | Variables::BlockCommentEnd | Variables::LineComment =>
                Some(self.name()),
            _ => None,
        }
    }

    /// What the variable stands for.
    pub fn resolve(&self, init: &VariableInit) -> (text: String)
        ensures
            self.resolved(*init) matches Some(t) ==> text@ == t,
            *self == Variables::Random ==> text@.len() == 6 && forall|i: int|
                0 <= i < 6 ==> is_decimal_digit(#[trigger] text@[i]),
            *self == Variables::RandomHex ==> text@.len() == 6 && forall|i: int|
                0 <= i < 6 ==> is_hex_digit(#[trigger] text@[i]),
            *self == Variables::Uuid ==> text@.len() == 36,
    {
        match self {
            Variables::TmSelectedText => init.selected_text.clone(),
            Variables::TmCurrentLine => init.line_text.clone(),
            Variables::TmCurrentWord => init.current_word.clone(),
            Variables::TmLineIndex => u128_to_string(init.line_pos as u128),
            Variables::TmLineNumber => u128_to_string(init.line_pos as u128 + 1),
            Variables::TmFilename => file_name(init.file_path.as_str()),
            Variables::TmFilenameBase => file_name_base(init.file_path.as_str()),
            Variables::TmDirectory => file_directory(init.file_path.as_str()),
            Variables::TmFilepath => init.file_path.clone(),
            Variables::RelativeFilepath => init.file_path.clone(),
            Variables::Clipboard => match &init.clipboard {
                Some(text) => text.clone(),
                None => String::new(),
            },
            Variables::WorkspaceName => file_name(init.work_path.as_str()),
            Variables::WorkspaceFolder => init.work_path.clone(),
            Variables::CursorIndex => u128_to_string(init.cursor_pos as u128),
            Variables::CursorNumber => u128_to_string(init.cursor_pos as u128 + 1),
            Variables::CurrentTimezoneOffset => match timezone_offset(init.time_offset) {
                Some(text) => text,
                None => self.to_string(),
            },
            Variables::Random => random_base10(6),
            Variables::RandomHex => random_hex(6),
            Variables::Uuid => new_uuid(),
            Variables::BlockCommentStart => self.to_string(),
            Variables::BlockCommentEnd => self.to_string(),
            Variables::LineComment => self.to_string(),
            _ => {
                let formatted = match self.time_format() {
                    Some(description) => format_now(description, init.time_offset),
                    None => None,
                };
                match formatted {
                    Some(text) => text,
                    None => self.to_string(),
                }
            },
        }
    }

    /// The variable that a pattern stands for. Each variable has two patterns,
    /// one after the other.
    pub fn from_pattern_id(id: usize) -> (variable: Option<Variables>)
        ensures
            variable == if id / 2 < all_variables().len() {
                Some(all_variables()[(id / 2) as int])
            } else {
                None
            },
    {
        let all = Variables::all();
        let index: usize = id / 2;
        if index < all.len() {
            Some(all[index])
        } else {
            None
        }
    }
}

/// The two patterns of each variable, in the order of the variables: `$NAME`, then
/// `${NAME}`.
pub open spec fn variable_patterns() -> Seq<Seq<char>> {
    Seq::new(
        2 * all_variables().len(),
        |i: int|
            if i % 2 == 0 {
                "$"@ + all_variables()[i / 2].name()
            } else {
                "${"@ + all_variables()[i / 2].name() + "}"@
            },
    )
}

/// The patterns by which the variables are found in a text.
pub fn build_patterns() -> (patterns: Vec<String>)
    ensures
        patterns@.len() == variable_patterns().len(),
        forall|i: int| 0 <= i < patterns@.len() ==> patterns@[i]@ == variable_patterns()[i],
{
    let all = Variables::all();
    let mut patterns: Vec<String> = Vec::new();
    let mut i: usize = 0;
    while i < all.len()
        invariant
            i <= all@.len(),
            all@ == all_variables(),
            patterns@.len() == 2 * i,
            forall|j: int| 0 <= j < patterns@.len() ==> patterns@[j]@ == variable_patterns()[j],
        decreases all@.len() - i,
    {
        let name = all[i].as_str();
        let mut plain = "$".to_owned();
        plain.append(name);
        let mut braced = "${".to_owned();
        braced.append(name);
        braced.append("}");
        patterns.push(plain);
        patterns.push(braced);
        i = i + 1;
    }
    patterns
}

/// The places at which patterns occur in a text: for each, the number of the
/// pattern and the byte offsets at which the occurrence starts and ends. There is
/// none where no automaton can be built from the patterns.
pub uninterp spec fn pattern_matches(patterns: Seq<Seq<char>>, text: Seq<char>) -> Option<
    Seq<(usize, usize, usize)>,
>;

/// An Aho-Corasick automaton built from the patterns with
/// `ascii_case_insensitive` and `MatchKind::LeftmostLongest`, and its
/// `try_find_iter` on the text: the occurrences that do not overlap, from left to
/// right, the longest pattern taken where several start at one place.
#[verifier::external_body]
fn find_patterns(patterns: &Vec<String>, text: &str) -> (matches: Option<
    Vec<(usize, usize, usize)>,
>)
    ensures
        match pattern_matches(Seq::new(patterns@.len(), |i: int| patterns@[i]@), text@) {
            Some(found) => matches matches Some(m) && m@ == found,
            None => matches is None,
        },
{
    let automaton = aho_corasick::AhoCorasick::builder()
        .ascii_case_insensitive(true)
        .match_kind(aho_corasick::MatchKind::LeftmostLongest)
        .build(patterns)
        .ok()?;
    let found = automaton.try_find_iter(text).ok()?;
    Some(found.map(|m| (m.pattern().as_usize(), m.start(), m.end())).collect())
}

/// Whether the bytes `start..end` of a text can give way to a replacement after
/// everything up to `last_end` was dealt with: they lie behind `last_end`, inside
/// the text, and cut no scalar value in two.
pub open spec fn replaceable(bytes: Seq<u8>, last_end: int, start: int, end: int) -> bool {
    &&& last_end <= start <= end <= bytes.len()
    &&& is_char_boundary(bytes, start)
    &&& is_char_boundary(bytes, end)
}

/// The text from byte `last_end` on, with each stretch `start..end` replaced by the
/// text that comes with it. A stretch that is not replaceable is passed over.
pub open spec fn replaced_from(
    bytes: Seq<u8>,
    replacements: Seq<(usize, usize, String)>,
    last_end: int,
) -> Seq<char>
    decreases replacements.len(),
{
    if replacements.len() == 0 {
        decode_utf8(bytes.subrange(last_end, bytes.len() as int))
    } else {
        let (start, end, text) = replacements[0];
        if replaceable(bytes, last_end, start as int, end as int) {
            decode_utf8(bytes.subrange(last_end, start as int)) + text@ + replaced_from(
                bytes,
                replacements.drop_first(),
                end as int,
            )
        } else {
            replaced_from(bytes, replacements.drop_first(), last_end)
        }
    }
}

/// A place that is a boundary in a text is one in each prefix that reaches it.
proof fn lemma_boundary_in_prefix(bytes: Seq<u8>, from: int, to: int)
    requires
        vstd::utf8::valid_utf8(bytes),
        0 <= from <= to <= bytes.len(),
        is_char_boundary(bytes, from),
        is_char_boundary(bytes, to),
    ensures
        vstd::utf8::valid_utf8(bytes.subrange(0, to)),
        is_char_boundary(bytes.subrange(0, to), from),
{
    valid_utf8_split(bytes, to);
    let prefix = bytes.subrange(0, to);
    if from == to {
        is_char_boundary_start_end_of_seq(prefix);
    } else {
        is_char_boundary_iff_not_is_continuation_byte(bytes, from);
        is_char_boundary_iff_not_is_continuation_byte(prefix, from);
    }
}

/// The piece of a string between two byte offsets.
fn byte_slice<'a>(text: &'a str, from: usize, to: usize) -> (piece: &'a str)
    requires
        from <= to <= text.spec_bytes().len(),
        is_char_boundary(text.spec_bytes(), from as int),
        is_char_boundary(text.spec_bytes(), to as int),
    ensures
        piece@ == decode_utf8(text.spec_bytes().subrange(from as int, to as int)),
{
    let ghost bytes = text.spec_bytes();
    proof {
        encode_utf8_valid_utf8(text@);
        lemma_boundary_in_prefix(bytes, from as int, to as int);
    }
    let (head, _) = text.split_at(to);
    let (_, piece) = head.split_at(from);
    proof {
        encode_utf8_decode_utf8(piece@);
        assert(head.spec_bytes().subrange(from as int, head.spec_bytes().len() as int)
            =~= bytes.subrange(from as int, to as int));
    }
    piece
}

/// Builds the text in which each stretch of bytes has given way to its
/// replacement. The stretches are taken from left to right; one that reaches back
/// before the end of the one before it, reaches past the text or cuts a scalar
/// value in two is passed over.
pub fn build_replaced_string(text: &str, replacements: Vec<(usize, usize, String)>) -> (result:
    String)
    ensures
        result@ == replaced_from(text.spec_bytes(), replacements@, 0),
{
    let ghost bytes = text.spec_bytes();
    let len: usize = text.as_bytes().len();
    let mut result = String::new();
    let mut last_end: usize = 0;
    let mut i: usize = 0;
    proof {
        encode_utf8_valid_utf8(text@);
        is_char_boundary_start_end_of_seq(bytes);
        assert(replacements@.skip(0) =~= replacements@);
    }
    while i < replacements.len()
        invariant
            i <= replacements@.len(),
            bytes == text.spec_bytes(),
            len == bytes.len(),
            vstd::utf8::valid_utf8(bytes),
            last_end <= len,
            is_char_boundary(bytes, last_end as int),
            is_char_boundary(bytes, len as int),
            replaced_from(bytes, replacements@, 0) == result@ + replaced_from(
                bytes,
                replacements@.skip(i as int),
                last_end as int,
            ),
        decreases replacements@.len() - i,
    {
        let start: usize = replacements[i].0;
        let end: usize = replacements[i].1;
        proof {
            assert(replacements@.skip(i as int)[0] == replacements@[i as int]);
            assert(replacements@.skip(i as int).drop_first() =~= replacements@.skip(i + 1));
        }
        if last_end <= start && start <= end && end <= len && text.is_char_boundary(start)
            && text.is_char_boundary(end) {
            result.append(byte_slice(text, last_end, start));
            result.append(replacements[i].2.as_str());
            last_end = end;
        }
        i = i + 1;
    }
    result.append(byte_slice(text, last_end, len));
    result
}

/// The text with each stretch replaced by what its variable stands for. The
/// `k`-th text of `texts` is the replacement of the `k`-th match.
pub open spec fn replaced_matches(
    text: Seq<char>,
    matches: Seq<(usize, usize, usize)>,
    texts: Seq<String>,
) -> Seq<char> {
    replaced_from(
        encode_utf8(text),
        Seq::new(matches.len(), |k: int| (matches[k].1, matches[k].2, texts[k])),
        0,
    )
}

/// Whether `result` is `text` with every variable that it names replaced by what
/// the variable stands for. A variable is named as `$NAME` or `${NAME}`, in any
/// case of the letters. What stands for the time, a random number or a UUID is
/// left open; the places that are replaced are not.
pub open spec fn replaces_variables(
    text: Seq<char>,
    init: VariableInit,
    result: Seq<char>,
) -> bool {
    match pattern_matches(variable_patterns(), text) {
        None => result == text,
        Some(matches) => exists|texts: Seq<String>|
            texts.len() == matches.len() && (forall|k: int|
                0 <= k < matches.len() && matches[k].0 / 2 < all_variables().len()
                    && all_variables()[(matches[k].0 / 2) as int].resolved(init) is Some ==> (
                #[trigger] texts[k])@ == all_variables()[(matches[k].0 / 2) as int].resolved(
                    init,
                )->Some_0) && result == replaced_matches(text, matches, texts),
    }
}

impl Variables {
    /// Replaces every variable that a text names by what it stands for.
    pub fn replace_all(text: &str, init: &VariableInit) -> (result: String)
        ensures
            replaces_variables(text@, *init, result@),
    {
        let patterns = build_patterns();
        assert(Seq::new(patterns@.len(), |i: int| patterns@[i]@) =~= variable_patterns());
        let matches = match find_patterns(&patterns, text) {
            Some(matches) => matches,
            None => {
                return text.to_owned();
            },
        };
        let mut replacements: Vec<(usize, usize, String)> = Vec::new();
        let ghost mut texts: Seq<String> = Seq::empty();
        let mut k: usize = 0;
        while k < matches.len()
            invariant
                k <= matches@.len(),
                texts.len() == k,
                replacements@.len() == k,
                forall|j: int|
                    0 <= j < k ==> #[trigger] replacements@[j] == (
                        matches@[j].1,
                        matches@[j].2,
                        texts[j],
                    ),
                forall|j: int|
                    0 <= j < k && matches@[j].0 / 2 < all_variables().len() && all_variables()[(
                    matches@[j].0 / 2) as int].resolved(*init) is Some ==> (#[trigger] texts[j])@
                        == all_variables()[(matches@[j].0 / 2) as int].resolved(*init)->Some_0,
            decreases matches@.len() - k,
        {
            let replacement = match Variables::from_pattern_id(matches[k].0) {
                Some(variable) => variable.resolve(init),
                None => String::new(),
            };
            proof {
                texts = texts.push(replacement);
            }
            replacements.push((matches[k].1, matches[k].2, replacement));
            k = k + 1;
        }
        assert(replacements@ =~= Seq::new(
            matches@.len(),
            |j: int| (matches@[j].1, matches@[j].2, texts[j]),
        ));
        let result = build_replaced_string(text, replacements);
        assert(texts.len() == matches@.len() && result@ == replaced_matches(
            text@,
            matches@,
            texts,
        ));
        result
    }
}

} // verus!
