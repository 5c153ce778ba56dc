//! Pure edit operations on a document and cursor pair: insert a character,
//! insert a line break, delete the character before the cursor.

use crate::cursor::{cursor_valid, Cursor};
use crate::document::Document;
use vstd::prelude::*;

verus! {

pub open spec fn insert_char_spec(doc: Seq<Seq<char>>, cur: Cursor, c: char) -> Seq<Seq<char>> {
    doc.update(cur.line as int, doc[cur.line as int].insert(cur.col as int, c))
}

pub open spec fn insert_break_spec(doc: Seq<Seq<char>>, cur: Cursor) -> Seq<Seq<char>> {
    doc.insert(cur.line + 1, Seq::<char>::empty())
}

/// Deletion before the cursor happens only when there is a character
/// before the cursor and the position before the cursor lies strictly
/// before the line's last position; at the start of a line it is a no-op
/// (deleting across a line boundary is unsupported).
pub open spec fn can_delete(doc: Seq<Seq<char>>, cur: Cursor) -> bool {
    &&& cur.col >= 1
    &&& cur.col < doc[cur.line as int].len()
}

pub open spec fn delete_spec(doc: Seq<Seq<char>>, cur: Cursor) -> Seq<Seq<char>> {
    doc.update(cur.line as int, doc[cur.line as int].remove(cur.col - 1))
}

/// Inserts `c` into the addressed line at the cursor's column (appending
/// when the cursor sits one past the end, so an empty line receives `c` as
/// its sole content) and advances the cursor one column. No other line is
/// touched.
pub fn insert_char(doc: &mut Document, cur: &mut Cursor, c: char)
    requires
        old(doc).wf(),
        cursor_valid(old(doc)@, *old(cur)),
        old(doc)@[old(cur).line as int].len() < usize::MAX,
        c != '\n',
    ensures
        final(doc)@ == insert_char_spec(old(doc)@, *old(cur), c),
        *final(cur) == (Cursor { line: old(cur).line, col: (old(cur).col + 1) as usize }),
        final(doc).wf(),
        cursor_valid(final(doc)@, *final(cur)),
{
    let ghost d0 = doc@;
    let mut line = doc.lines.remove(cur.line);
    line.insert(cur.col, c);
    doc.lines.insert(cur.line, line);
    cur.col = cur.col + 1;
    proof {
        let li = cur.line as int;
        assert(doc@ =~~= insert_char_spec(d0, Cursor { line: cur.line, col: (cur.col - 1) as usize }, c));
        let newline = d0[li].insert(cur.col - 1, c);
        assert forall|k: int| 0 <= k < doc@.len() implies !(#[trigger] doc@[k]).contains('\n') by {
            if k == li {
                if newline.contains('\n') {
                    let j = choose|j: int| 0 <= j < newline.len() && newline[j] == '\n';
                    if j < cur.col - 1 {
                        assert(d0[li][j] == '\n');
                    } else if j > cur.col - 1 {
                        assert(d0[li][j - 1] == '\n');
                    }
                }
            } else {
                assert(doc@[k] == d0[k]);
            }
        }
    }
}

/// Starts a new empty line directly after the addressed line; the
/// addressed line and the cursor stay as they are.
pub fn insert_line_break(doc: &mut Document, cur: &Cursor)
    requires
        old(doc).wf(),
        cursor_valid(old(doc)@, *cur),
    ensures
        final(doc)@ == insert_break_spec(old(doc)@, *cur),
        final(doc).wf(),
        cursor_valid(final(doc)@, *cur),
{
    let ghost d0 = doc@;
    let _count = doc.line_count();
    doc.lines.insert(cur.line + 1, Vec::new());
    proof {
        assert(doc@ =~~= insert_break_spec(d0, *cur));
        assert forall|k: int| 0 <= k < doc@.len() implies !(#[trigger] doc@[k]).contains('\n') by {
            if k <= cur.line {
                assert(doc@[k] == d0[k]);
            } else if k == cur.line + 1 {
                assert(doc@[k] =~= Seq::<char>::empty());
            } else {
                assert(doc@[k] == d0[k - 1]);
            }
        }
        assert(doc@[cur.line as int] == d0[cur.line as int]);
    }
}

/// Removes the character immediately before the cursor and steps the
/// cursor back one column, when [`can_delete`] allows it; otherwise
/// leaves document and cursor untouched.
pub fn delete_before(doc: &mut Document, cur: &mut Cursor)
    requires
        old(doc).wf(),
        cursor_valid(old(doc)@, *old(cur)),
    ensures
        can_delete(old(doc)@, *old(cur)) ==> {
            &&& final(doc)@ == delete_spec(old(doc)@, *old(cur))
            &&& *final(cur) == (Cursor {
                line: old(cur).line,
                col: (old(cur).col - 1) as usize,
            })
        },
        !can_delete(old(doc)@, *old(cur)) ==> {
            &&& final(doc)@ == old(doc)@
            &&& *final(cur) == *old(cur)
        },
        final(doc).wf(),
        cursor_valid(final(doc)@, *final(cur)),
{
    let len = doc.line_length(cur.line);
    if cur.col >= 1 && cur.col < len {
        let ghost d0 = doc@;
        let mut line = doc.lines.remove(cur.line);
        line.remove(cur.col - 1);
        doc.lines.insert(cur.line, line);
        cur.col = cur.col - 1;
        proof {
            let li = cur.line as int;
            assert(doc@ =~~= delete_spec(d0, Cursor { line: cur.line, col: (cur.col + 1) as usize }));
            let newline = d0[li].remove(cur.col as int);
            assert forall|k: int| 0 <= k < doc@.len() implies !(#[trigger] doc@[k]).contains('\n') by {
                if k == li {
                    if newline.contains('\n') {
                        let j = choose|j: int| 0 <= j < newline.len() && newline[j] == '\n';
                        if j < cur.col {
                            assert(d0[li][j] == '\n');
                        } else {
                            assert(d0[li][j + 1] == '\n');
                        }
                    }
                } else {
                    assert(doc@[k] == d0[k]);
                }
            }
        }
    }
}

/// Local invertibility of editing: inserting a character and immediately
/// deleting before the cursor restores the document and the cursor column,
/// whenever the cursor sits strictly before the end of a (necessarily
/// nonempty) line — exactly the positions at which the deletion is not the
/// line-boundary no-op.
pub proof fn lemma_insert_then_delete(doc: Seq<Seq<char>>, cur: Cursor, c: char)
    requires
        cur.line < doc.len(),
        cur.col < doc[cur.line as int].len(),
        cur.col < usize::MAX,
    ensures
        ({
            let doc1 = insert_char_spec(doc, cur, c);
            let cur1 = Cursor { line: cur.line, col: (cur.col + 1) as usize };
            &&& can_delete(doc1, cur1)
            &&& delete_spec(doc1, cur1) == doc
            &&& (Cursor { line: cur1.line, col: (cur1.col - 1) as usize }) == cur
        }),
{
    let li = cur.line as int;
    let co = cur.col as int;
    let line0 = doc[li];
    let line1 = line0.insert(co, c);
    let doc1 = insert_char_spec(doc, cur, c);
    assert(doc1[li] == line1);
    assert(line1.len() == line0.len() + 1);
    assert(line1.remove(co) =~= line0);
    assert(delete_spec(doc1, Cursor { line: cur.line, col: (cur.col + 1) as usize }) =~~= doc);
}

} // verus!
