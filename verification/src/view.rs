//! View projection: the display rows an external renderer draws, derived
//! afresh from document and cursor, plus the title line. An empty line is
//! shown as a single placeholder glyph (display only, never stored).

use crate::cursor::Cursor;
use crate::document::{chars_to_string, Document, PLACEHOLDER};
use crate::session::Mode;
use vstd::prelude::*;

verus! {

/// One displayed character; `highlighted` marks the cursor's cell.
#[derive(Clone, Copy, PartialEq, Eq, Structural, Debug)]
pub struct Segment {
    pub ch: char,
    pub highlighted: bool,
}

/// One display row: the line-number label, then the line's characters.
pub struct Row {
    pub label: String,
    pub segments: Vec<Segment>,
}

pub open spec fn digit_char(d: nat) -> char {
    if d == 0 {
        '0'
    } else if d == 1 {
        '1'
    } else if d == 2 {
        '2'
    } else if d == 3 {
        '3'
    } else if d == 4 {
        '4'
    } else if d == 5 {
        '5'
    } else if d == 6 {
        '6'
    } else if d == 7 {
        '7'
    } else if d == 8 {
        '8'
    } else {
        '9'
    }
}

/// Decimal digits of `n`, most significant first.
pub open spec fn dec_digits(n: nat) -> Seq<char>
    decreases n,
{
    if n < 10 {
        seq![digit_char(n)]
    } else {
        dec_digits(n / 10).push(digit_char(n % 10))
    }
}

/// The line-number label: padded with the placeholder glyph and blanks so
/// that numbers up to three digits line up, 1-based.
pub open spec fn label_spec(n: nat) -> Seq<char> {
    if n < 10 {
        seq![PLACEHOLDER, ' '] + dec_digits(n) + seq![' ']
    } else if n < 100 {
        seq![PLACEHOLDER] + dec_digits(n) + seq![' ']
    } else {
        dec_digits(n) + seq![' ']
    }
}

/// The cell shown for one character: highlighted exactly when the cursor
/// sits on this line and column.
pub open spec fn seg_at(line: Seq<char>, on_line: bool, col: nat, j: int) -> Segment {
    Segment { ch: line[j], highlighted: on_line && j == col }
}

/// The characters of one display row: an empty line is shown as a single
/// placeholder glyph (highlighted when the cursor rests on that line);
/// otherwise exactly the line's characters, with the cursor's cell and no
/// other marked highlighted.
pub open spec fn row_segments_spec(line: Seq<char>, on_line: bool, col: nat) -> Seq<Segment> {
    if line.len() == 0 {
        seq![Segment { ch: PLACEHOLDER, highlighted: on_line }]
    } else {
        Seq::new(line.len(), |j: int| seg_at(line, on_line, col, j))
    }
}

fn digit_to_char(d: u64) -> (c: char)
    requires
        d < 10,
    ensures
        c == digit_char(d as nat),
{
    if d == 0 {
        '0'
    } else if d == 1 {
        '1'
    } else if d == 2 {
        '2'
    } else if d == 3 {
        '3'
    } else if d == 4 {
        '4'
    } else if d == 5 {
        '5'
    } else if d == 6 {
        '6'
    } else if d == 7 {
        '7'
    } else if d == 8 {
        '8'
    } else {
        '9'
    }
}

/// Appends the decimal digits of `n`, most significant first.
fn push_decimal(out: &mut Vec<char>, n: u64)
    ensures
        final(out)@ == old(out)@ + dec_digits(n as nat),
    decreases n,
{
    if n >= 10 {
        push_decimal(out, n / 10);
        out.push(digit_to_char(n % 10));
    } else {
        out.push(digit_to_char(n));
        proof {
            assert(out@ =~= old(out)@ + dec_digits(n as nat));
        }
    }
}

/// Appends every character of `s`.
fn push_str_chars(out: &mut Vec<char>, s: &str)
    ensures
        final(out)@ == old(out)@ + s@,
{
    let n = s.unicode_len();
    let mut i: usize = 0;
    while i < n
        invariant
            n == s@.len(),
            i <= n,
            out@ == old(out)@ + s@.take(i as int),
        decreases n - i,
    {
        out.push(s.get_char(i));
        proof {
            assert(out@ =~= old(out)@ + s@.take(i + 1 as int));
        }
        i += 1;
    }
    proof {
        assert(s@.take(n as int) =~= s@);
    }
}

/// The 1-based line-number label shown before a row.
pub fn label_text(n: usize) -> (r: String)
    requires
        n >= 1,
    ensures
        r@ == label_spec(n as nat),
{
    let mut out: Vec<char> = Vec::new();
    if n < 10 {
        out.push(PLACEHOLDER);
        out.push(' ');
        push_decimal(&mut out, n as u64);
        out.push(' ');
    } else if n < 100 {
        out.push(PLACEHOLDER);
        push_decimal(&mut out, n as u64);
        out.push(' ');
    } else {
        push_decimal(&mut out, n as u64);
        out.push(' ');
    }
    proof {
        assert(out@ =~= label_spec(n as nat));
    }
    chars_to_string(out)
}

/// Derives the full display: one row per document line, rebuilt from
/// scratch, with the cursor's cell highlighted and empty lines shown as a
/// placeholder glyph.
pub fn project(doc: &Document, cur: &Cursor) -> (rows: Vec<Row>)
    ensures
        rows@.len() == doc@.len(),
        forall|i: int|
            0 <= i < rows@.len() ==> (#[trigger] rows@[i]).label@ == label_spec((i + 1) as nat),
        forall|i: int|
            0 <= i < rows@.len() ==> (#[trigger] rows@[i]).segments@ == row_segments_spec(
                doc@[i],
                cur.line == i,
                cur.col as nat,
            ),
{
    let n = doc.line_count();
    let mut rows: Vec<Row> = Vec::new();
    let mut i: usize = 0;
    while i < n
        invariant
            n == doc@.len(),
            i <= n,
            rows@.len() == i,
            forall|k: int|
                0 <= k < i as int ==> (#[trigger] rows@[k]).label@ == label_spec((k + 1) as nat),
            forall|k: int|
                0 <= k < i as int ==> (#[trigger] rows@[k]).segments@ == row_segments_spec(
                    doc@[k],
                    cur.line == k,
                    cur.col as nat,
                ),
        decreases n - i,
    {
        let label = label_text(i + 1);
        let len = doc.line_length(i);
        let mut segments: Vec<Segment> = Vec::new();
        if len == 0 {
            segments.push(Segment { ch: PLACEHOLDER, highlighted: cur.line == i });
            proof {
                assert(segments@ =~= row_segments_spec(doc@[i as int], cur.line == i as int, cur.col as nat));
            }
        } else {
            let on_line = cur.line == i;
            let mut j: usize = 0;
            while j < len
                invariant
                    len == doc@[i as int].len(),
                    i < doc@.len(),
                    j <= len,
                    on_line == (cur.line == i as int),
                    segments@.len() == j,
                    forall|m: int|
                        0 <= m < j as int ==> (#[trigger] segments@[m]) == (Segment {
                            ch: doc@[i as int][m],
                            highlighted: (cur.line == i as int) && m == cur.col as int,
                        }),
                decreases len - j,
            {
                let ch = doc.char_at(i, j);
                segments.push(Segment { ch, highlighted: on_line && j == cur.col });
                j += 1;
            }
            proof {
                let line = doc@[i as int];
                let onl = cur.line == i as int;
                let spec_row = row_segments_spec(line, onl, cur.col as nat);
                assert(spec_row.len() == line.len());
                assert forall|m: int| 0 <= m < line.len() implies segments@[m] == spec_row[m] by {
                    assert(spec_row[m] == seg_at(line, onl, cur.col as nat, m));
                }
                assert(segments@ =~= spec_row);
            }
        }
        rows.push(Row { label, segments });
        i += 1;
    }
    rows
}

pub open spec fn mode_name_spec(m: Mode) -> Seq<char> {
    match m {
        Mode::Normal => "NORMAL"@,
        Mode::Insert => "INSERT"@,
        Mode::Debug => "DEBUG"@,
    }
}

pub fn mode_name(m: Mode) -> (r: &'static str)
    ensures
        r@ == mode_name_spec(m),
{
    match m {
        Mode::Normal => "NORMAL",
        Mode::Insert => "INSERT",
        Mode::Debug => "DEBUG",
    }
}

/// The title line shown above the text: mode, path, 1-based cursor
/// position, and elapsed seconds.
pub open spec fn title_spec(mode: Mode, path: Seq<char>, cur: Cursor, secs: nat) -> Seq<char> {
    seq!['<'] + mode_name_spec(mode) + seq!['>', '-'] + path + seq!['-', '|'] + dec_digits(
        (cur.line + 1) as nat,
    ) + seq![':'] + dec_digits((cur.col + 1) as nat) + seq!['|', '-', '['] + dec_digits(secs)
        + seq![']']
}

/// Builds the title line for the renderer.
pub fn title_text(mode: Mode, path: &str, cur: Cursor, secs: u64) -> (r: String)
    requires
        cur.line < usize::MAX,
        cur.col < usize::MAX,
    ensures
        r@ == title_spec(mode, path@, cur, secs as nat),
{
    let mut out: Vec<char> = Vec::new();
    out.push('<');
    push_str_chars(&mut out, mode_name(mode));
    out.push('>');
    out.push('-');
    push_str_chars(&mut out, path);
    out.push('-');
    out.push('|');
    push_decimal(&mut out, (cur.line + 1) as u64);
    out.push(':');
    push_decimal(&mut out, (cur.col + 1) as u64);
    out.push('|');
    out.push('-');
    out.push('[');
    push_decimal(&mut out, secs);
    out.push(']');
    proof {
        assert(out@ =~= title_spec(mode, path@, cur, secs as nat));
    }
    chars_to_string(out)
}

} // verus!
