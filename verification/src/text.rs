//! The reference model of a document: a plain sequence of Unicode scalar values,
//! its lines, and the length of a piece of text in the code units of each
//! offset encoding.
use vstd::prelude::*;

use crate::encoding::OffsetEncoding;

verus! {

/// The scalar values that take part in a line break: LF, VT, FF, CR, NEL, LS and PS.
pub open spec fn is_line_break_char(c: char) -> bool {
    c == '\u{000A}' || c == '\u{000B}' || c == '\u{000C}' || c == '\u{000D}' || c == '\u{0085}'
        || c == '\u{2028}' || c == '\u{2029}'
}

/// Whether the scalar at index `i` is the last scalar of a line break. A CR that is
/// directly followed by LF is not: the pair is one break, which ends at the LF.
pub open spec fn ends_line_break(s: Seq<char>, i: int) -> bool {
    &&& 0 <= i < s.len()
    &&& is_line_break_char(s[i])
    &&& !(s[i] == '\r' && i + 1 < s.len() && s[i + 1] == '\n')
}

/// The number of line breaks that end before index `n`.
pub open spec fn breaks_before(s: Seq<char>, n: int) -> nat
    decreases n,
{
    if n <= 0 {
        0
    } else {
        breaks_before(s, n - 1) + if ends_line_break(s, n - 1) {
            1nat
        } else {
            0nat
        }
    }
}

/// The number of lines: one more than the number of line breaks. A text that ends
/// in a line break has a last, empty line.
pub open spec fn line_count(s: Seq<char>) -> nat {
    breaks_before(s, s.len() as int) + 1
}

/// The first index at or after `i` before which at least `line` line breaks end, or
/// the length of the text where there is none.
pub open spec fn scan_line_start(s: Seq<char>, line: nat, i: int) -> int
    decreases s.len() - i,
{
    if i >= s.len() || breaks_before(s, i) >= line {
        i
    } else {
        scan_line_start(s, line, i + 1)
    }
}

/// The index at which line `line` starts. Line 0 starts at 0, every other line
/// directly after the line break that ends the line before it. For a `line` that
/// the text does not have this is the length of the text.
pub open spec fn line_start(s: Seq<char>, line: nat) -> int {
    scan_line_start(s, line, 0)
}

/// Whether the two scalars before index `i` are CR and LF.
pub open spec fn crlf_before(s: Seq<char>, i: int) -> bool {
    2 <= i <= s.len() && s[i - 2] == '\r' && s[i - 1] == '\n'
}

/// The index at which the content of line `line` ends: the start of its line
/// break, or the end of the text for the last line.
pub open spec fn line_end(s: Seq<char>, line: nat) -> int {
    if line + 1 >= line_count(s) {
        s.len() as int
    } else {
        let next = line_start(s, line + 1);
        if crlf_before(s, next) {
            next - 2
        } else {
            next - 1
        }
    }
}

/// The content of line `line`: its scalar values without its line break.
pub open spec fn line_content(s: Seq<char>, line: nat) -> Seq<char> {
    s.subrange(line_start(s, line), line_end(s, line))
}

/// The number of UTF-8 code units (bytes) that encode `c`.
pub open spec fn utf8_width(c: char) -> nat {
    if (c as u32) < 0x80 {
        1
    } else if (c as u32) < 0x800 {
        2
    } else if (c as u32) < 0x10000 {
        3
    } else {
        4
    }
}

/// The number of UTF-16 code units that encode `c`.
pub open spec fn utf16_width(c: char) -> nat {
    if (c as u32) < 0x10000 {
        1
    } else {
        2
    }
}

/// The number of code units of `enc` that encode `c`.
pub open spec fn unit_width(c: char, enc: OffsetEncoding) -> nat {
    match enc {
        OffsetEncoding::Utf8 => utf8_width(c),
        OffsetEncoding::Utf16 => utf16_width(c),
        OffsetEncoding::Utf32 => 1,
    }
}

/// The number of code units of `enc` that encode `s`.
pub open spec fn units_len(s: Seq<char>, enc: OffsetEncoding) -> nat
    decreases s.len(),
{
    if s.len() == 0 {
        0
    } else {
        units_len(s.drop_last(), enc) + unit_width(s.last(), enc)
    }
}

/// The index of the scalar of `s` to which the code unit at offset `u` belongs:
/// the greatest `k` with `units_len(s.take(k)) <= u`. An offset at or past the end
/// gives the length of `s`.
pub open spec fn scalar_of_unit(s: Seq<char>, u: nat, enc: OffsetEncoding) -> nat
    decreases s.len(),
{
    if s.len() == 0 || units_len(s, enc) <= u {
        s.len()
    } else {
        scalar_of_unit(s.drop_last(), u, enc)
    }
}

/// Every scalar value takes at least one code unit.
pub proof fn lemma_unit_width_positive(c: char, enc: OffsetEncoding)
    ensures
        1 <= unit_width(c, enc) <= 4,
{
}

/// The code units of a concatenation are those of its parts.
pub proof fn lemma_units_len_concat(a: Seq<char>, b: Seq<char>, enc: OffsetEncoding)
    ensures
        units_len(a + b, enc) == units_len(a, enc) + units_len(b, enc),
    decreases b.len(),
{
    if b.len() == 0 {
        assert(a + b =~= a);
    } else {
        lemma_units_len_concat(a, b.drop_last(), enc);
        assert((a + b).drop_last() =~= a + b.drop_last());
        assert((a + b).last() == b.last());
    }
}

/// A longer prefix has the code units of the shorter one and of what lies between.
pub proof fn lemma_units_len_split(s: Seq<char>, i: int, j: int, enc: OffsetEncoding)
    requires
        0 <= i <= j <= s.len(),
    ensures
        units_len(s.take(j), enc) == units_len(s.take(i), enc) + units_len(s.subrange(i, j), enc),
        units_len(s.take(i), enc) <= units_len(s.take(j), enc),
{
    assert(s.take(j) =~= s.take(i) + s.subrange(i, j));
    lemma_units_len_concat(s.take(i), s.subrange(i, j), enc);
}

/// A text has at least as many code units as scalar values.
pub proof fn lemma_units_len_at_least_len(s: Seq<char>, enc: OffsetEncoding)
    ensures
        s.len() <= units_len(s, enc),
        enc == OffsetEncoding::Utf32 ==> units_len(s, enc) == s.len(),
    decreases s.len(),
{
    if s.len() > 0 {
        lemma_units_len_at_least_len(s.drop_last(), enc);
    }
}

/// What `scalar_of_unit` returns is the scalar value that holds the code unit.
pub proof fn lemma_scalar_of_unit(s: Seq<char>, u: nat, enc: OffsetEncoding)
    ensures
        scalar_of_unit(s, u, enc) <= s.len(),
        units_len(s.take(scalar_of_unit(s, u, enc) as int), enc) <= u,
        scalar_of_unit(s, u, enc) < s.len() ==> u < units_len(
            s.take(scalar_of_unit(s, u, enc) as int + 1),
            enc,
        ),
        units_len(s, enc) <= u ==> scalar_of_unit(s, u, enc) == s.len(),
    decreases s.len(),
{
    let k = scalar_of_unit(s, u, enc) as int;
    if s.len() == 0 || units_len(s, enc) <= u {
        assert(s.take(s.len() as int) =~= s);
    } else {
        let t = s.drop_last();
        lemma_scalar_of_unit(t, u, enc);
        assert(t.take(k) =~= s.take(k));
        if k < t.len() {
            assert(t.take(k + 1) =~= s.take(k + 1));
        } else {
            assert(s.take(k + 1) =~= s);
        }
    }
}

/// Only one scalar value holds a given code unit.
pub proof fn lemma_scalar_of_unit_unique(s: Seq<char>, u: nat, enc: OffsetEncoding, k: nat)
    requires
        k <= s.len(),
        units_len(s.take(k as int), enc) <= u,
        k < s.len() ==> u < units_len(s.take(k as int + 1), enc),
    ensures
        scalar_of_unit(s, u, enc) == k,
{
    let k2 = scalar_of_unit(s, u, enc) as int;
    lemma_scalar_of_unit(s, u, enc);
    if k < k2 {
        lemma_units_len_split(s, k as int + 1, k2, enc);
    } else if k2 < k {
        lemma_units_len_split(s, k2 + 1, k as int, enc);
    }
}

/// A greater code unit offset never belongs to an earlier scalar value.
pub proof fn lemma_scalar_of_unit_monotonic(s: Seq<char>, u: nat, v: nat, enc: OffsetEncoding)
    requires
        u <= v,
    ensures
        scalar_of_unit(s, u, enc) <= scalar_of_unit(s, v, enc),
{
    let ku = scalar_of_unit(s, u, enc) as int;
    let kv = scalar_of_unit(s, v, enc) as int;
    lemma_scalar_of_unit(s, u, enc);
    lemma_scalar_of_unit(s, v, enc);
    if kv < ku {
        lemma_units_len_split(s, kv + 1, ku, enc);
    }
}

/// A code unit offset inside the piece `a..b` of a text, counted from the start of
/// the text, belongs to the scalar value that it belongs to inside the piece.
pub proof fn lemma_scalar_of_unit_in_piece(
    s: Seq<char>,
    a: int,
    b: int,
    c: nat,
    enc: OffsetEncoding,
)
    requires
        0 <= a <= b <= s.len(),
        c <= units_len(s.subrange(a, b), enc),
    ensures
        scalar_of_unit(s, units_len(s.take(a), enc) + c, enc) == a + scalar_of_unit(
            s.subrange(a, b),
            c,
            enc,
        ),
{
    let piece = s.subrange(a, b);
    let kp = scalar_of_unit(piece, c, enc) as int;
    let k = a + kp;
    let u = units_len(s.take(a), enc) + c;
    lemma_scalar_of_unit(piece, c, enc);
    assert(s.take(k) =~= s.take(a) + piece.take(kp));
    lemma_units_len_concat(s.take(a), piece.take(kp), enc);
    if k < s.len() {
        if kp < piece.len() {
            assert(s.take(k + 1) =~= s.take(a) + piece.take(kp + 1));
            lemma_units_len_concat(s.take(a), piece.take(kp + 1), enc);
        } else {
            assert(piece.take(kp) =~= piece);
            assert(s.take(k + 1).drop_last() =~= s.take(k));
            lemma_unit_width_positive(s.take(k + 1).last(), enc);
        }
    }
    lemma_scalar_of_unit_unique(s, u, enc, k as nat);
}

/// In scalar values themselves, an offset inside a text is its own index.
pub proof fn lemma_scalar_of_unit_utf32(s: Seq<char>, u: nat)
    requires
        u <= s.len(),
    ensures
        scalar_of_unit(s, u, OffsetEncoding::Utf32) == u,
        units_len(s.take(u as int), OffsetEncoding::Utf32) == u,
{
    lemma_units_len_at_least_len(s.take(u as int), OffsetEncoding::Utf32);
    if u < s.len() {
        lemma_units_len_at_least_len(s.take(u as int + 1), OffsetEncoding::Utf32);
    }
    lemma_scalar_of_unit_unique(s, u, OffsetEncoding::Utf32, u);
}

/// Fewer line breaks end before an earlier index.
pub proof fn lemma_breaks_before_monotonic(s: Seq<char>, i: int, j: int)
    requires
        i <= j,
    ensures
        breaks_before(s, i) <= breaks_before(s, j),
    decreases j - i,
{
    if i < j {
        lemma_breaks_before_monotonic(s, i, j - 1);
    }
}

/// What the scan for a line start finds.
pub proof fn lemma_scan_line_start(s: Seq<char>, line: nat, i: int)
    requires
        0 <= i <= s.len(),
    ensures
        i <= scan_line_start(s, line, i) <= s.len(),
        scan_line_start(s, line, i) == s.len() || breaks_before(
            s,
            scan_line_start(s, line, i),
        ) >= line,
        forall|j: int| i <= j < scan_line_start(s, line, i) ==> breaks_before(s, j) < line,
    decreases s.len() - i,
{
    if i >= s.len() || breaks_before(s, i) >= line {
    } else {
        lemma_scan_line_start(s, line, i + 1);
    }
}

/// A line that the text has starts at the start of the text or directly after a
/// line break, with exactly `line` line breaks before it.
pub proof fn lemma_line_start(s: Seq<char>, line: nat)
    requires
        line < line_count(s),
    ensures
        0 <= line_start(s, line) <= s.len(),
        breaks_before(s, line_start(s, line)) == line,
        line == 0 <==> line_start(s, line) == 0,
        line > 0 ==> ends_line_break(s, line_start(s, line) - 1),
{
    let r = line_start(s, line);
    lemma_scan_line_start(s, line, 0);
    if r > 0 {
        assert(breaks_before(s, r - 1) < line);
    }
}

/// The line one past the last starts at the end of the text.
pub proof fn lemma_line_start_past_end(s: Seq<char>)
    ensures
        line_start(s, line_count(s)) == s.len(),
{
    let r = line_start(s, line_count(s));
    lemma_scan_line_start(s, line_count(s), 0);
    if r < s.len() {
        lemma_breaks_before_monotonic(s, r, s.len() as int);
    }
}

/// No two lines start at the same index, and a later line starts later.
pub proof fn lemma_line_start_increasing(s: Seq<char>, a: nat, b: nat)
    requires
        a < b < line_count(s),
    ensures
        line_start(s, a) < line_start(s, b),
{
    lemma_line_start(s, a);
    lemma_line_start(s, b);
    if line_start(s, b) <= line_start(s, a) {
        lemma_breaks_before_monotonic(s, line_start(s, b), line_start(s, a));
    }
}

/// The content of a line lies inside the text, between the start of the line and
/// the start of the next.
pub proof fn lemma_line_bounds(s: Seq<char>, line: nat)
    requires
        line < line_count(s),
    ensures
        0 <= line_start(s, line) <= line_end(s, line) <= s.len(),
        line + 1 < line_count(s) ==> line_end(s, line) < line_start(s, line + 1) <= s.len(),
{
    lemma_line_start(s, line);
    if line + 1 < line_count(s) {
        let start = line_start(s, line);
        let next = line_start(s, line + 1);
        lemma_line_start(s, line + 1);
        lemma_line_start_increasing(s, line, line + 1);
        if crlf_before(s, next) && start == next - 1 {
            assert(!ends_line_break(s, start - 1));
        }
    }
}

/// A later line, and the line one past the last, starts no earlier.
pub proof fn lemma_line_start_monotonic(s: Seq<char>, a: nat, b: nat)
    requires
        a <= b <= line_count(s),
    ensures
        line_start(s, a) <= line_start(s, b) <= s.len(),
{
    if b == line_count(s) {
        lemma_line_start_past_end(s);
        if a < b {
            lemma_line_start(s, a);
        }
    } else {
        lemma_line_start(s, b);
        if a < b {
            lemma_line_start_increasing(s, a, b);
        }
    }
}

/// The line of an index, which is the number of line breaks that end before it,
/// is a line of the text, and it starts at or before the index.
pub proof fn lemma_line_of_index(s: Seq<char>, idx: int)
    requires
        0 <= idx <= s.len(),
    ensures
        breaks_before(s, idx) < line_count(s),
        0 <= line_start(s, breaks_before(s, idx)) <= idx,
{
    let line = breaks_before(s, idx);
    lemma_breaks_before_monotonic(s, idx, s.len() as int);
    lemma_scan_line_start(s, line, 0);
}

/// The code units before and inside the piece `a..b` of a text add up, and do not
/// exceed those of the text.
pub proof fn lemma_units_of_piece(s: Seq<char>, a: int, b: int, enc: OffsetEncoding)
    requires
        0 <= a <= b <= s.len(),
    ensures
        units_len(s.take(b), enc) == units_len(s.take(a), enc) + units_len(
            s.subrange(a, b),
            enc,
        ),
        units_len(s.take(b), enc) <= units_len(s, enc),
{
    lemma_units_len_split(s, a, b, enc);
    lemma_units_len_split(s, b, s.len() as int, enc);
    assert(s.take(s.len() as int) =~= s);
}

/// What the scalar value of a code unit inside a piece of a text is, seen from the
/// text: it lies inside the piece, and as many code units lie before it in the
/// text as lie before the piece and before it in the piece.
pub proof fn lemma_unit_in_piece(s: Seq<char>, a: int, b: int, c: nat, enc: OffsetEncoding)
    requires
        0 <= a <= b <= s.len(),
        c <= units_len(s.subrange(a, b), enc),
    ensures
        scalar_of_unit(s.subrange(a, b), c, enc) <= b - a,
        scalar_of_unit(s, units_len(s.take(a), enc) + c, enc) == a + scalar_of_unit(
            s.subrange(a, b),
            c,
            enc,
        ),
        units_len(s.take(a + scalar_of_unit(s.subrange(a, b), c, enc)), enc) == units_len(
            s.take(a),
            enc,
        ) + units_len(
            s.subrange(a, b).take(scalar_of_unit(s.subrange(a, b), c, enc) as int),
            enc,
        ),
{
    let piece = s.subrange(a, b);
    let k = scalar_of_unit(piece, c, enc) as int;
    lemma_scalar_of_unit_in_piece(s, a, b, c, enc);
    lemma_scalar_of_unit(piece, c, enc);
    assert(s.take(a + k) =~= s.take(a) + piece.take(k));
    lemma_units_len_concat(s.take(a), piece.take(k), enc);
}

/// The UTF-8 code units of a text are as many as the bytes of its UTF-8 encoding.
pub proof fn lemma_utf8_units_are_bytes(s: Seq<char>)
    ensures
        units_len(s, OffsetEncoding::Utf8) == vstd::utf8::encode_utf8(s).len(),
    decreases s.len(),
{
    if s.len() > 0 {
        let first = seq![s[0]];
        vstd::utf8::char_is_scalar(s[0]);
        assert(s =~= first + s.drop_first());
        lemma_units_len_concat(first, s.drop_first(), OffsetEncoding::Utf8);
        assert(first.drop_last() =~= Seq::<char>::empty());
        assert(first.last() == s[0]);
        assert(units_len(first.drop_last(), OffsetEncoding::Utf8) == 0);
        assert(units_len(first, OffsetEncoding::Utf8) == units_len(
            first.drop_last(),
            OffsetEncoding::Utf8,
        ) + unit_width(first.last(), OffsetEncoding::Utf8));
        lemma_utf8_units_are_bytes(s.drop_first());
    }
}

} // verus!
