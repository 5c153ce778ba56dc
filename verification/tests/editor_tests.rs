use modal_edit::cursor::{move_down, move_left, move_right, move_up, Cursor};
use modal_edit::document::Document;
use modal_edit::session::{Action, Key, Mode, Session};
use modal_edit::view::{label_text, mode_name, project, title_text};
use modal_edit::{arrayToStr, keep_pos, strToArray};

const PH: char = '\u{2B1E}';

fn doc_of(lines: &[&str]) -> Document {
    Document {
        lines: lines.iter().map(|l| l.chars().collect()).collect(),
    }
}

fn line_string(doc: &Document, i: usize) -> String {
    doc.lines[i].iter().collect()
}

#[test]
fn parse_empty_text_is_one_empty_line() {
    let lines = strToArray("");
    assert_eq!(lines, vec![Vec::<char>::new()]);
}

#[test]
fn parse_splits_on_line_breaks() {
    let lines = strToArray("ab\ncd");
    assert_eq!(lines, vec![vec!['a', 'b'], vec!['c', 'd']]);
}

#[test]
fn parse_terminated_text_has_no_phantom_line() {
    assert_eq!(strToArray("ab\n"), vec![vec!['a', 'b']]);
    assert_eq!(strToArray("\n"), vec![Vec::<char>::new()]);
    assert_eq!(strToArray("ab\n\n"), vec![vec!['a', 'b'], Vec::<char>::new()]);
}

#[test]
fn serialize_appends_break_after_every_line() {
    assert_eq!(arrayToStr(vec![vec!['a', 'b'], vec!['c', 'd']]), "ab\ncd\n");
    assert_eq!(arrayToStr(vec![Vec::<char>::new()]), "\n");
}

#[test]
fn round_trip_appends_exactly_one_break_when_missing() {
    assert_eq!(arrayToStr(strToArray("ab\ncd")), "ab\ncd\n");
    assert_eq!(arrayToStr(strToArray("")), "\n");
}

#[test]
fn round_trip_is_identity_on_terminated_text() {
    assert_eq!(arrayToStr(strToArray("ab\ncd\n")), "ab\ncd\n");
    assert_eq!(arrayToStr(strToArray("one\ntwo\n\n")), "one\ntwo\n\n");
}

#[test]
fn fresh_save_reproduces_loaded_file() {
    let text = "fn main() {\n    body\n}\n";
    let mut s = Session::new(text);
    assert_eq!(s.save_text(), text);
}

#[test]
fn keep_pos_clamps_below_zero() {
    assert_eq!(keep_pos(-5), 0);
    assert_eq!(keep_pos(0), 0);
    assert_eq!(keep_pos(3), 3);
}

#[test]
fn vertical_navigation_recomputes_column_near_line_end() {
    let doc = doc_of(&["abcdef", "xy"]);
    let up = move_up(&doc, Cursor { line: 1, col: 0 });
    assert_eq!((up.line, up.col), (0, 4)); // length 6 minus 2
    let down = move_down(&doc, Cursor { line: 0, col: 5 });
    assert_eq!((down.line, down.col), (1, 0)); // length 2 minus 2
}

#[test]
fn vertical_navigation_clamps_at_document_edges() {
    let doc = doc_of(&["abc", "de"]);
    let up = move_up(&doc, Cursor { line: 0, col: 1 });
    assert_eq!(up.line, 0);
    let down = move_down(&doc, Cursor { line: 1, col: 1 });
    assert_eq!(down.line, 1);
}

#[test]
fn horizontal_navigation_clamps_to_existing_characters() {
    let doc = doc_of(&["abc"]);
    let right = move_right(&doc, Cursor { line: 0, col: 2 });
    assert_eq!(right.col, 2); // cannot pass the last character
    let left = move_left(&doc, Cursor { line: 0, col: 0 });
    assert_eq!(left.col, 0);
}

#[test]
fn navigation_on_empty_line_resolves_column_to_zero() {
    let doc = doc_of(&[""]);
    assert_eq!(move_right(&doc, Cursor { line: 0, col: 0 }).col, 0);
    assert_eq!(move_left(&doc, Cursor { line: 0, col: 0 }).col, 0);
    assert_eq!(move_up(&doc, Cursor { line: 0, col: 0 }).col, 0);
    assert_eq!(move_down(&doc, Cursor { line: 0, col: 0 }).col, 0);
}

#[test]
fn typing_into_empty_buffer() {
    // empty buffer, press `i`, type a, b, c
    let mut s = Session::new("");
    assert_eq!(s.handle_key(Key::Char('i')), Action::Stay);
    assert_eq!(s.mode, Mode::Insert);
    s.handle_key(Key::Char('a'));
    s.handle_key(Key::Char('b'));
    s.handle_key(Key::Char('c'));
    assert_eq!(s.doc.lines.len(), 1);
    assert_eq!(line_string(&s.doc, 0), "abc");
    assert_eq!(s.cursor, Cursor { line: 0, col: 3 });
    // Esc back to Normal, then two left arrows
    s.handle_key(Key::Esc);
    assert_eq!(s.mode, Mode::Normal);
    s.handle_key(Key::Left);
    s.handle_key(Key::Left);
    assert_eq!(s.cursor, Cursor { line: 0, col: 1 });
}

#[test]
fn backspace_in_insert_mode_removes_before_cursor() {
    // buffer "ab\ncd", cursor at (0, 1), Backspace in Insert mode
    let mut s = Session::new("ab\ncd");
    s.cursor = Cursor { line: 0, col: 1 };
    s.handle_key(Key::Char('i'));
    s.handle_key(Key::Backspace);
    assert_eq!(line_string(&s.doc, 0), "b");
    assert_eq!(line_string(&s.doc, 1), "cd");
    assert_eq!(s.cursor, Cursor { line: 0, col: 0 });
}

#[test]
fn backspace_at_line_start_is_a_no_op() {
    let mut s = Session::new("ab\ncd");
    s.cursor = Cursor { line: 1, col: 0 };
    s.handle_key(Key::Char('i'));
    s.handle_key(Key::Backspace);
    assert_eq!(line_string(&s.doc, 0), "ab");
    assert_eq!(line_string(&s.doc, 1), "cd");
    assert_eq!(s.cursor, Cursor { line: 1, col: 0 });
}

#[test]
fn insert_then_backspace_restores_line_and_cursor() {
    let mut s = Session::new("abcd");
    s.cursor = Cursor { line: 0, col: 2 };
    s.handle_key(Key::Char('i'));
    s.handle_key(Key::Char('z'));
    assert_eq!(line_string(&s.doc, 0), "abzcd");
    assert_eq!(s.cursor.col, 3);
    s.handle_key(Key::Backspace);
    assert_eq!(line_string(&s.doc, 0), "abcd");
    assert_eq!(s.cursor, Cursor { line: 0, col: 2 });
}

#[test]
fn enter_starts_an_empty_line_after_the_current_one() {
    let mut s = Session::new("abc\ndef");
    s.cursor = Cursor { line: 0, col: 1 };
    s.handle_key(Key::Char('i'));
    s.handle_key(Key::Enter);
    assert_eq!(s.doc.lines.len(), 3);
    assert_eq!(line_string(&s.doc, 0), "abc");
    assert_eq!(line_string(&s.doc, 1), "");
    assert_eq!(line_string(&s.doc, 2), "def");
    assert_eq!(s.cursor, Cursor { line: 0, col: 1 });
}

#[test]
fn mode_transitions() {
    let mut s = Session::new("x");
    assert_eq!(s.mode, Mode::Normal);
    s.handle_key(Key::Char('i'));
    assert_eq!(s.mode, Mode::Insert);
    s.handle_key(Key::DebugToggle);
    assert_eq!(s.mode, Mode::Debug);
    s.handle_key(Key::DebugToggle);
    assert_eq!(s.mode, Mode::Insert);
    s.handle_key(Key::Esc);
    assert_eq!(s.mode, Mode::Normal);
    s.handle_key(Key::Char('i'));
    s.handle_key(Key::DebugToggle);
    s.handle_key(Key::Esc);
    assert_eq!(s.mode, Mode::Normal);
}

#[test]
fn debug_mode_edits_exactly_like_insert() {
    let mut plain = Session::new("hello");
    plain.handle_key(Key::Char('i'));
    plain.handle_key(Key::Char('z'));
    plain.handle_key(Key::Backspace);
    plain.handle_key(Key::Char('y'));

    // toggle into Debug, edit the same way, toggle back
    let mut debugged = Session::new("hello");
    debugged.handle_key(Key::Char('i'));
    debugged.handle_key(Key::DebugToggle);
    debugged.handle_key(Key::Char('z'));
    debugged.handle_key(Key::Backspace);
    debugged.handle_key(Key::Char('y'));
    debugged.handle_key(Key::DebugToggle);

    assert_eq!(plain.doc.lines, debugged.doc.lines);
    assert_eq!(plain.cursor, debugged.cursor);
    assert_eq!(plain.mode, Mode::Insert);
    assert_eq!(debugged.mode, Mode::Insert);
}

#[test]
fn normal_mode_keys_quit_and_save() {
    let mut s = Session::new("x");
    assert_eq!(s.handle_key(Key::Char('q')), Action::Quit);
    assert_eq!(s.handle_key(Key::Char('w')), Action::Save);
    assert_eq!(s.handle_key(Key::Char('z')), Action::Stay);
    // neither quits nor saves outside Normal mode
    s.handle_key(Key::Char('i'));
    assert_eq!(s.handle_key(Key::Char('q')), Action::Stay);
}

#[test]
fn normal_mode_letter_navigation() {
    let mut s = Session::new("abcdef\nxy");
    assert_eq!(s.handle_key(Key::Char('l')), Action::Stay);
    assert_eq!(s.cursor, Cursor { line: 0, col: 1 });
    s.handle_key(Key::Char('h'));
    assert_eq!(s.cursor, Cursor { line: 0, col: 0 });
    s.handle_key(Key::Char('j'));
    assert_eq!(s.cursor, Cursor { line: 1, col: 0 });
    s.handle_key(Key::Char('k'));
    assert_eq!(s.cursor, Cursor { line: 0, col: 4 });
}

#[test]
fn save_strips_placeholder_glyphs_from_stored_lines() {
    let mut s = Session::new("x");
    s.doc = Document {
        lines: vec![vec![PH, 'a', PH, 'b'], vec![PH]],
    };
    s.cursor = Cursor { line: 0, col: 4 };
    let text = s.save_text();
    assert_eq!(text, "ab\n\n");
    assert_eq!(line_string(&s.doc, 0), "ab");
    assert_eq!(line_string(&s.doc, 1), "");
    // the cursor was re-clamped into the shortened line
    assert_eq!(s.cursor, Cursor { line: 0, col: 2 });
}

#[test]
fn projection_numbers_lines_and_highlights_the_cursor() {
    let doc = doc_of(&["ab", "cd"]);
    let rows = project(&doc, &Cursor { line: 1, col: 1 });
    assert_eq!(rows.len(), 2);
    assert_eq!(rows[0].label, format!("{} 1 ", PH));
    assert_eq!(rows[1].label, format!("{} 2 ", PH));
    let flat0: Vec<(char, bool)> = rows[0].segments.iter().map(|s| (s.ch, s.highlighted)).collect();
    assert_eq!(flat0, vec![('a', false), ('b', false)]);
    let flat1: Vec<(char, bool)> = rows[1].segments.iter().map(|s| (s.ch, s.highlighted)).collect();
    assert_eq!(flat1, vec![('c', false), ('d', true)]);
}

#[test]
fn projection_shows_placeholder_for_empty_line() {
    let doc = doc_of(&["", "x"]);
    let rows = project(&doc, &Cursor { line: 0, col: 0 });
    assert_eq!(rows[0].segments.len(), 1);
    assert_eq!(rows[0].segments[0].ch, PH);
    assert!(rows[0].segments[0].highlighted);
    // the placeholder is display-only: the document still has an empty line
    assert_eq!(doc.lines[0].len(), 0);
    let rows2 = project(&doc, &Cursor { line: 1, col: 0 });
    assert!(!rows2[0].segments[0].highlighted);
}

#[test]
fn labels_align_up_to_three_digits() {
    assert_eq!(label_text(5), format!("{} 5 ", PH));
    assert_eq!(label_text(42), format!("{}42 ", PH));
    assert_eq!(label_text(123), "123 ");
}

#[test]
fn title_summarizes_mode_path_and_position() {
    let t = title_text(Mode::Normal, "nil", Cursor { line: 0, col: 0 }, 0);
    assert_eq!(t, "<NORMAL>-nil-|1:1|-[0]");
    let t = title_text(Mode::Debug, "notes.txt", Cursor { line: 9, col: 3 }, 125);
    assert_eq!(t, "<DEBUG>-notes.txt-|10:4|-[125]");
}

#[test]
fn mode_names() {
    assert_eq!(mode_name(Mode::Normal), "NORMAL");
    assert_eq!(mode_name(Mode::Insert), "INSERT");
    assert_eq!(mode_name(Mode::Debug), "DEBUG");
}

#[test]
fn document_accessors() {
    let doc = doc_of(&["abc", ""]);
    assert_eq!(doc.line_count(), 2);
    assert_eq!(doc.line_length(0), 3);
    assert_eq!(doc.line_length(1), 0);
    assert_eq!(doc.char_at(0, 1), 'b');
    assert_eq!(doc.serialize(), "abc\n\n");
}
