//! The editing session: document, cursor and mode together, with the modal
//! key dispatch that decides what every keystroke does.

use crate::cursor::{
    clamp, clamp_spec, cursor_valid, move_down, move_down_spec, move_left, move_left_spec,
    move_right, move_right_spec, move_up, move_up_spec, Cursor,
};
use crate::document::{
    ends_with_newline, join_lines, parse_lines, Document, PLACEHOLDER,
};
use crate::document::{lemma_parse_join_round_trip, lemma_segments_exclude};
use crate::edit::{
    can_delete, delete_before, delete_spec, insert_break_spec, insert_char, insert_char_spec,
    insert_line_break,
};
use vstd::prelude::*;

verus! {

/// Interaction mode: Normal navigates and saves, Insert mutates text, and
/// Debug is Insert with a vocalization overlay that changes nothing about
/// how text is edited.
#[derive(Clone, Copy, PartialEq, Eq, Structural, Debug)]
pub enum Mode {
    Normal,
    Insert,
    Debug,
}

/// A key press, as the core sees it: an opaque tagged event.
#[derive(Clone, Copy, PartialEq, Eq, Structural, Debug)]
pub enum Key {
    Char(char),
    Up,
    Down,
    Left,
    Right,
    Enter,
    Backspace,
    Esc,
    DebugToggle,
}

/// What the surrounding process must do after a keystroke is handled.
#[derive(Clone, Copy, PartialEq, Eq, Structural, Debug)]
pub enum Action {
    Stay,
    Save,
    Quit,
}

/// Mode after a keystroke: `i` enters Insert from Normal, Esc leaves for
/// Normal, and the toggle key flips between Insert and Debug.
pub open spec fn step_mode(mode: Mode, key: Key) -> Mode {
    match mode {
        Mode::Normal => if key == Key::Char('i') {
            Mode::Insert
        } else {
            Mode::Normal
        },
        Mode::Insert => match key {
            Key::Esc => Mode::Normal,
            Key::DebugToggle => Mode::Debug,
            _ => Mode::Insert,
        },
        Mode::Debug => match key {
            Key::Esc => Mode::Normal,
            Key::DebugToggle => Mode::Insert,
            _ => Mode::Debug,
        },
    }
}

/// Action after a keystroke: only Normal mode quits or saves.
pub open spec fn step_action(mode: Mode, key: Key) -> Action {
    if mode == Mode::Normal {
        if key == Key::Char('q') {
            Action::Quit
        } else if key == Key::Char('w') {
            Action::Save
        } else {
            Action::Stay
        }
    } else {
        Action::Stay
    }
}

/// Cursor after a keystroke. Normal mode navigates on `h`/`j`/`k`/`l` and
/// the arrow keys; Insert and Debug navigate on the arrow keys, advance on
/// an inserted character, and step back on a successful deletion.
pub open spec fn step_cursor(doc: Seq<Seq<char>>, cur: Cursor, mode: Mode, key: Key) -> Cursor {
    match mode {
        Mode::Normal => match key {
            Key::Char(c) => if c == 'k' {
                move_up_spec(doc, cur)
            } else if c == 'j' {
                move_down_spec(doc, cur)
            } else if c == 'h' {
                move_left_spec(cur)
            } else if c == 'l' {
                move_right_spec(doc, cur)
            } else {
                cur
            },
            Key::Up => move_up_spec(doc, cur),
            Key::Down => move_down_spec(doc, cur),
            Key::Left => move_left_spec(cur),
            Key::Right => move_right_spec(doc, cur),
            _ => cur,
        },
        _ => match key {
            Key::Up => move_up_spec(doc, cur),
            Key::Down => move_down_spec(doc, cur),
            Key::Left => move_left_spec(cur),
            Key::Right => move_right_spec(doc, cur),
            Key::Char(c) => Cursor { line: cur.line, col: (cur.col + 1) as usize },
            Key::Backspace => if can_delete(doc, cur) {
                Cursor { line: cur.line, col: (cur.col - 1) as usize }
            } else {
                cur
            },
            _ => cur,
        },
    }
}

/// Document after a keystroke: only Insert and Debug mutate it.
pub open spec fn step_doc(doc: Seq<Seq<char>>, cur: Cursor, mode: Mode, key: Key) -> Seq<
    Seq<char>,
> {
    match mode {
        Mode::Normal => doc,
        _ => match key {
            Key::Char(c) => insert_char_spec(doc, cur, c),
            Key::Enter => insert_break_spec(doc, cur),
            Key::Backspace => if can_delete(doc, cur) {
                delete_spec(doc, cur)
            } else {
                doc
            },
            _ => doc,
        },
    }
}

/// A line with every placeholder glyph removed.
pub open spec fn strip_line(l: Seq<char>) -> Seq<char> {
    l.filter(|c: char| c != PLACEHOLDER)
}

/// The defensive cleanup applied before saving: no stored line keeps the
/// view-only placeholder glyph.
pub open spec fn strip_doc(d: Seq<Seq<char>>) -> Seq<Seq<char>> {
    d.map_values(|l: Seq<char>| strip_line(l))
}

/// One running editor: the document, the cursor into it, and the mode.
pub struct Session {
    pub doc: Document,
    pub cursor: Cursor,
    pub mode: Mode,
}

impl Session {
    pub open spec fn wf(&self) -> bool {
        &&& self.doc.wf()
        &&& cursor_valid(self.doc@, self.cursor)
    }

    /// Starts a session on loaded (or empty) flat text: cursor at the
    /// origin, Normal mode.
    pub fn new(text: &str) -> (s: Session)
        ensures
            s.doc@ == parse_lines(text@),
            s.cursor == (Cursor { line: 0, col: 0 }),
            s.mode == Mode::Normal,
            s.wf(),
    {
        let doc = Document::parse(text);
        Session { doc, cursor: Cursor { line: 0, col: 0 }, mode: Mode::Normal }
    }

    /// Handles one keystroke: dispatches on the current mode to a
    /// navigation or edit operation or a mode transition, exactly as the
    /// four `step_*` functions describe, and reports what the surrounding
    /// process must do next.
    pub fn handle_key(&mut self, key: Key) -> (action: Action)
        requires
            old(self).wf(),
            key matches Key::Char(c) ==> c != '\n',
            key matches Key::Char(c) ==> old(self).doc@[old(self).cursor.line as int].len()
                < usize::MAX,
        ensures
            final(self).doc@ == step_doc(old(self).doc@, old(self).cursor, old(self).mode, key),
            final(self).cursor == step_cursor(
                old(self).doc@,
                old(self).cursor,
                old(self).mode,
                key,
            ),
            final(self).mode == step_mode(old(self).mode, key),
            action == step_action(old(self).mode, key),
            final(self).wf(),
    {
        match self.mode {
            Mode::Normal => {
                match key {
                    Key::Char(c) => {
                        if c == 'q' {
                            Action::Quit
                        } else if c == 'w' {
                            Action::Save
                        } else if c == 'k' {
                            self.cursor = move_up(&self.doc, self.cursor);
                            Action::Stay
                        } else if c == 'j' {
                            self.cursor = move_down(&self.doc, self.cursor);
                            Action::Stay
                        } else if c == 'h' {
                            self.cursor = move_left(&self.doc, self.cursor);
                            Action::Stay
                        } else if c == 'l' {
                            self.cursor = move_right(&self.doc, self.cursor);
                            Action::Stay
                        } else if c == 'i' {
                            self.mode = Mode::Insert;
                            Action::Stay
                        } else {
                            Action::Stay
                        }
                    },
                    Key::Up => {
                        self.cursor = move_up(&self.doc, self.cursor);
                        Action::Stay
                    },
                    Key::Down => {
                        self.cursor = move_down(&self.doc, self.cursor);
                        Action::Stay
                    },
                    Key::Left => {
                        self.cursor = move_left(&self.doc, self.cursor);
                        Action::Stay
                    },
                    Key::Right => {
                        self.cursor = move_right(&self.doc, self.cursor);
                        Action::Stay
                    },
                    _ => Action::Stay,
                }
            },
            Mode::Insert | Mode::Debug => {
                match key {
                    Key::Esc => {
                        self.mode = Mode::Normal;
                        Action::Stay
                    },
                    Key::DebugToggle => {
                        self.mode = if self.mode == Mode::Insert {
                            Mode::Debug
                        } else {
                            Mode::Insert
                        };
                        Action::Stay
                    },
                    Key::Up => {
                        self.cursor = move_up(&self.doc, self.cursor);
                        Action::Stay
                    },
                    Key::Down => {
                        self.cursor = move_down(&self.doc, self.cursor);
                        Action::Stay
                    },
                    Key::Left => {
                        self.cursor = move_left(&self.doc, self.cursor);
                        Action::Stay
                    },
                    Key::Right => {
                        self.cursor = move_right(&self.doc, self.cursor);
                        Action::Stay
                    },
                    Key::Enter => {
                        insert_line_break(&mut self.doc, &self.cursor);
                        Action::Stay
                    },
                    Key::Char(c) => {
                        insert_char(&mut self.doc, &mut self.cursor, c);
                        Action::Stay
                    },
                    Key::Backspace => {
                        delete_before(&mut self.doc, &mut self.cursor);
                        Action::Stay
                    },
                }
            },
        }
    }

    /// Produces the flat text that a save must write and applies the
    /// defensive cleanup that goes with it: every placeholder glyph is
    /// stripped from stored lines first (such glyphs belong only to the
    /// view), and the cursor is re-clamped to the possibly shortened
    /// lines. The returned text is the join of the cleaned document.
    pub fn save_text(&mut self) -> (text: String)
        requires
            old(self).wf(),
        ensures
            final(self).doc@ == strip_doc(old(self).doc@),
            final(self).cursor == clamp_spec(strip_doc(old(self).doc@), old(self).cursor),
            final(self).mode == old(self).mode,
            text@ == join_lines(strip_doc(old(self).doc@)),
            final(self).wf(),
    {
        let ghost d0 = self.doc@;
        let mut stripped: Vec<Vec<char>> = Vec::new();
        let n = self.doc.line_count();
        let mut i: usize = 0;
        while i < n
            invariant
                n == d0.len(),
                i <= n,
                self.doc@ == d0,
                self.doc.wf(),
                stripped.deep_view() == strip_doc(d0).take(i as int),
                forall|k: int|
                    0 <= k < i ==> !(#[trigger] stripped.deep_view()[k]).contains('\n'),
            decreases n - i,
        {
            let ghost line0 = d0[i as int];
            let len = self.doc.line_length(i);
            let mut nl: Vec<char> = Vec::new();
            proof {
                reveal(Seq::filter);
                assert(nl@ =~= strip_line(line0.take(0)));
            }
            let mut j: usize = 0;
            while j < len
                invariant
                    len == line0.len(),
                    j <= len,
                    self.doc@ == d0,
                    self.doc.wf(),
                    i < d0.len(),
                    line0 == d0[i as int],
                    nl@ == strip_line(line0.take(j as int)),
                    !nl@.contains('\n'),
                decreases len - j,
            {
                let ghost nl0 = nl@;
                let c = self.doc.char_at(i, j);
                if c != PLACEHOLDER {
                    nl.push(c);
                }
                proof {
                    reveal(Seq::filter);
                    assert(line0.take(j + 1 as int).drop_last() =~= line0.take(j as int));
                    assert(line0.take(j + 1 as int).last() == c);
                    assert(nl@ =~= strip_line(line0.take(j + 1 as int)));
                    if nl@.contains('\n') {
                        let k = choose|k: int| 0 <= k < nl@.len() && nl@[k] == '\n';
                        if k < nl0.len() {
                            assert(nl0[k] == '\n');
                        } else {
                            assert(line0.contains('\n'));
                        }
                    }
                }
                j += 1;
            }
            let ghost s0 = stripped.deep_view();
            stripped.push(nl);
            proof {
                assert(line0.take(line0.len() as int) =~= line0);
                assert(stripped.deep_view() =~~= s0.push(nl@));
                assert(stripped.deep_view() =~~= strip_doc(d0).take(i + 1 as int));
            }
            i += 1;
        }
        proof {
            assert(strip_doc(d0).take(d0.len() as int) =~~= strip_doc(d0));
        }
        self.doc = Document { lines: stripped };
        self.cursor = clamp(&self.doc, self.cursor);
        self.doc.serialize()
    }
}

/// Vocalization is orthogonal to text mutation: every keystroke edits the
/// document, moves the cursor and yields the same action in Debug mode as
/// in plain Insert mode, and the debug toggle is an involution, so
/// toggling into Debug and back leaves the editing semantics of plain
/// Insert unchanged.
pub proof fn lemma_debug_edits_like_insert(doc: Seq<Seq<char>>, cur: Cursor, key: Key)
    ensures
        step_doc(doc, cur, Mode::Insert, key) == step_doc(doc, cur, Mode::Debug, key),
        step_cursor(doc, cur, Mode::Insert, key) == step_cursor(doc, cur, Mode::Debug, key),
        step_action(Mode::Insert, key) == step_action(Mode::Debug, key),
        step_mode(step_mode(Mode::Insert, Key::DebugToggle), Key::DebugToggle) == Mode::Insert,
        step_mode(step_mode(Mode::Debug, Key::DebugToggle), Key::DebugToggle) == Mode::Debug,
{
}

/// Stripping is the identity on a line without the placeholder glyph.
proof fn lemma_strip_line_absent(l: Seq<char>)
    requires
        !l.contains(PLACEHOLDER),
    ensures
        strip_line(l) == l,
    decreases l.len(),
{
    reveal(Seq::filter);
    if l.len() == 0 {
        assert(strip_line(l) =~= l);
    } else {
        let t = l.drop_last();
        assert(!t.contains(PLACEHOLDER)) by {
            if t.contains(PLACEHOLDER) {
                let k = choose|k: int| 0 <= k < t.len() && t[k] == PLACEHOLDER;
                assert(l[k] == PLACEHOLDER);
            }
        }
        lemma_strip_line_absent(t);
        assert(l.last() != PLACEHOLDER);
        assert(strip_line(l) =~= l);
    }
}

/// A freshly loaded, unmodified document saves back byte for byte under
/// the round-trip law: when the loaded text does not contain the
/// placeholder glyph, the defensive strip changes nothing, so saving
/// reproduces the text exactly (with the single appended final line break
/// when the text lacked one).
pub proof fn lemma_fresh_save_round_trip(s: Seq<char>)
    requires
        !s.contains(PLACEHOLDER),
    ensures
        strip_doc(parse_lines(s)) == parse_lines(s),
        ends_with_newline(s) ==> join_lines(strip_doc(parse_lines(s))) == s,
        !ends_with_newline(s) ==> join_lines(strip_doc(parse_lines(s))) == s.push('\n'),
{
    lemma_segments_exclude(s, PLACEHOLDER);
    let p = parse_lines(s);
    assert forall|i: int| 0 <= i < p.len() implies strip_doc(p)[i] == p[i] by {
        assert(p[i] == crate::document::segments(s)[i]);
        lemma_strip_line_absent(p[i]);
    }
    assert(strip_doc(p) =~~= p);
    lemma_parse_join_round_trip(s);
}

} // verus!
