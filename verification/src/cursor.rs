//! Cursor position and the navigation operations, with their clamping rules.

use crate::document::Document;
use vstd::prelude::*;

verus! {

/// Edit position: a 0-based line index into the document and a 0-based
/// column index into that line's codepoints.
#[derive(Clone, Copy, PartialEq, Eq, Structural, Debug)]
pub struct Cursor {
    pub line: usize,
    pub col: usize,
}

/// The cursor addresses an existing line and sits at most one place past
/// its last character (the appending position that insertion uses).
pub open spec fn cursor_valid(doc: Seq<Seq<char>>, cur: Cursor) -> bool {
    &&& cur.line < doc.len()
    &&& cur.col <= doc[cur.line as int].len()
}

/// The stricter bound that pure navigation guarantees: the column addresses
/// an existing character, or is 0 on an empty line.
pub open spec fn nav_valid(doc: Seq<Seq<char>>, cur: Cursor) -> bool {
    &&& cur.line < doc.len()
    &&& if doc[cur.line as int].len() == 0 {
        cur.col == 0
    } else {
        cur.col < doc[cur.line as int].len()
    }
}

/// Column that vertical navigation lands on: two places before the end of
/// the destination line, clamped to 0.
pub open spec fn vertical_col(len: nat) -> nat {
    if len >= 2 {
        (len - 2) as nat
    } else {
        0
    }
}

/// Clamps a signed position to zero from below.
pub fn keep_pos(val: i64) -> (res: i64)
    ensures
        res == if val < 0 { 0i64 } else { val },
{
    let mut res: i64 = val;
    if res < 0 {
        res = 0;
    }
    res
}

pub open spec fn move_up_spec(doc: Seq<Seq<char>>, cur: Cursor) -> Cursor {
    let line = if cur.line > 0 {
        (cur.line - 1) as usize
    } else {
        0
    };
    Cursor { line, col: vertical_col(doc[line as int].len()) as usize }
}

pub open spec fn move_down_spec(doc: Seq<Seq<char>>, cur: Cursor) -> Cursor {
    let line = if cur.line + 1 < doc.len() {
        (cur.line + 1) as usize
    } else {
        (doc.len() - 1) as usize
    };
    Cursor { line, col: vertical_col(doc[line as int].len()) as usize }
}

pub open spec fn move_left_spec(cur: Cursor) -> Cursor {
    let col = if cur.col > 0 {
        (cur.col - 1) as usize
    } else {
        0
    };
    Cursor { line: cur.line, col }
}

pub open spec fn move_right_spec(doc: Seq<Seq<char>>, cur: Cursor) -> Cursor {
    let len = doc[cur.line as int].len();
    let col = if cur.col + 1 < len {
        (cur.col + 1) as usize
    } else if len > 0 {
        (len - 1) as usize
    } else {
        0
    };
    Cursor { line: cur.line, col }
}

/// Moves one line up (clamped at the first line); the column is recomputed
/// near the end of the destination line.
pub fn move_up(doc: &Document, cur: Cursor) -> (r: Cursor)
    requires
        doc@.len() >= 1,
        cur.line < doc@.len(),
    ensures
        r == move_up_spec(doc@, cur),
        nav_valid(doc@, r),
{
    let line = if cur.line > 0 {
        cur.line - 1
    } else {
        0
    };
    let len = doc.line_length(line);
    let col = if len >= 2 {
        len - 2
    } else {
        0
    };
    Cursor { line, col }
}

/// Moves one line down (clamped at the last line); the column is recomputed
/// near the end of the destination line.
pub fn move_down(doc: &Document, cur: Cursor) -> (r: Cursor)
    requires
        doc@.len() >= 1,
        cur.line < doc@.len(),
    ensures
        r == move_down_spec(doc@, cur),
        nav_valid(doc@, r),
{
    let count = doc.line_count();
    let line = if cur.line + 1 < count {
        cur.line + 1
    } else {
        count - 1
    };
    let len = doc.line_length(line);
    let col = if len >= 2 {
        len - 2
    } else {
        0
    };
    Cursor { line, col }
}

/// Moves one column left, clamped at the start of the line.
pub fn move_left(doc: &Document, cur: Cursor) -> (r: Cursor)
    requires
        cursor_valid(doc@, cur),
    ensures
        r == move_left_spec(cur),
        nav_valid(doc@, r),
{
    let col = if cur.col > 0 {
        cur.col - 1
    } else {
        0
    };
    Cursor { line: cur.line, col }
}

/// Moves one column right, clamped so that it never passes the last
/// existing character (and stays at 0 on an empty line).
pub fn move_right(doc: &Document, cur: Cursor) -> (r: Cursor)
    requires
        cursor_valid(doc@, cur),
    ensures
        r == move_right_spec(doc@, cur),
        nav_valid(doc@, r),
{
    let len = doc.line_length(cur.line);
    let col = if len > 0 && cur.col < len - 1 {
        cur.col + 1
    } else if len > 0 {
        len - 1
    } else {
        0
    };
    Cursor { line: cur.line, col }
}

/// Navigation never leaves the document's bounds: from any valid cursor,
/// every navigation operation lands with the line index within
/// `[0, line_count - 1]` and the column within `[0, line_length - 1]`
/// (or at column 0 on an empty line), so any sequence of navigation
/// operations keeps the cursor there after every step.
pub proof fn lemma_navigation_stays_in_bounds(doc: Seq<Seq<char>>, cur: Cursor)
    requires
        doc.len() >= 1,
        cursor_valid(doc, cur),
    ensures
        nav_valid(doc, move_up_spec(doc, cur)),
        nav_valid(doc, move_down_spec(doc, cur)),
        nav_valid(doc, move_left_spec(cur)),
        nav_valid(doc, move_right_spec(doc, cur)),
        cursor_valid(doc, move_up_spec(doc, cur)),
        cursor_valid(doc, move_down_spec(doc, cur)),
        cursor_valid(doc, move_left_spec(cur)),
        cursor_valid(doc, move_right_spec(doc, cur)),
{
}

pub open spec fn clamp_spec(doc: Seq<Seq<char>>, cur: Cursor) -> Cursor {
    let line = if cur.line < doc.len() {
        cur.line
    } else {
        (doc.len() - 1) as usize
    };
    let len = doc[line as int].len();
    let col = if cur.col <= len {
        cur.col
    } else {
        len as usize
    };
    Cursor { line, col }
}

/// Re-clamps the cursor into the document's bounds after a mutation that
/// may have shortened a line or removed lines; a cursor that was already
/// valid comes back unchanged.
pub fn clamp(doc: &Document, cur: Cursor) -> (r: Cursor)
    requires
        doc@.len() >= 1,
    ensures
        r == clamp_spec(doc@, cur),
        cursor_valid(doc@, r),
        cursor_valid(doc@, cur) ==> r == cur,
{
    let count = doc.line_count();
    let line = if cur.line < count {
        cur.line
    } else {
        count - 1
    };
    let len = doc.line_length(line);
    let col = if cur.col <= len {
        cur.col
    } else {
        len
    };
    Cursor { line, col }
}

} // verus!
