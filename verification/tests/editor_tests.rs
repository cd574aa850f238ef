use vedit::buffer::Buffer;
use vedit::editor::{CursorStyle, Editor, Mode};
use vedit::key::{KeyCode, KeyEvent, KeyEventKind, KeyModifiers};
use vedit::pos::Pos;

/// Editor over a known buffer, cursor at 0,0. No terminal touched.
fn editor_with(lines: &[&str]) -> Editor {
    Editor::with_buffer(Buffer::from_lines(lines), None)
}

fn press(editor: &mut Editor, c: char) -> Option<CursorStyle> {
    key(editor, KeyCode::Char(c))
}

fn key(editor: &mut Editor, code: KeyCode) -> Option<CursorStyle> {
    let k = KeyEvent::new(code, KeyModifiers::none());
    assert!(editor.can_handle(k));
    editor.handle_key(k)
}

fn lines(editor: &Editor) -> Vec<String> {
    let b = editor.buffer();
    (0..b.len()).map(|i| b.line(i).unwrap().to_string()).collect()
}

#[test]
fn j_moves_cursor_down() {
    let mut editor = editor_with(&["aaaa", "bb", "cccc"]);
    assert_eq!(editor.cursor().row(), 0);
    press(&mut editor, 'j');
    assert_eq!(editor.cursor().row(), 1);
}

#[test]
fn k_at_top_stays_put() {
    let mut editor = editor_with(&["aaaa", "bb", "cccc"]);
    press(&mut editor, 'k');
    assert_eq!(editor.cursor().row(), 0);
}

#[test]
fn j_at_bottom_stays_put() {
    let mut editor = editor_with(&["aaaa", "bb", "cccc"]);
    press(&mut editor, 'j');
    press(&mut editor, 'j');
    press(&mut editor, 'j'); // already on the last line
    assert_eq!(editor.cursor().row(), 2);
}

#[test]
fn j_onto_shorter_line_clamps_column() {
    let mut editor = editor_with(&["aaaa", "bb", "cccc"]);
    // walk to the end-of-line slot on "aaaa" (col 4)
    for _ in 0..4 {
        press(&mut editor, 'l');
    }
    assert_eq!(editor.cursor().col(), 4);
    // down onto "bb" (len 2) must clamp the column
    press(&mut editor, 'j');
    assert_eq!(editor.cursor().row(), 1);
    assert_eq!(editor.cursor().col(), 2);
}

#[test]
fn desired_column_comes_back_after_a_short_line() {
    let mut editor = editor_with(&["aaaa", "bb", "cccc"]);
    for _ in 0..3 {
        press(&mut editor, 'l');
    }
    press(&mut editor, 'j');
    assert_eq!(editor.cursor().location(), Pos::new(1, 2));
    press(&mut editor, 'j');
    assert_eq!(editor.cursor().location(), Pos::new(2, 3));
    press(&mut editor, 'k');
    press(&mut editor, 'k');
    assert_eq!(editor.cursor().location(), Pos::new(0, 3));
}

#[test]
fn insert_mode_typing_and_escape() {
    let mut editor = editor_with(&["ab"]);
    assert_eq!(press(&mut editor, 'i'), Some(CursorStyle::Bar));
    assert_eq!(editor.mode(), Mode::Insert);
    press(&mut editor, 'x');
    press(&mut editor, 'y');
    assert_eq!(lines(&editor), vec!["xyab".to_string()]);
    assert_eq!(editor.cursor().location(), Pos::new(0, 2));
    assert_eq!(key(&mut editor, KeyCode::Esc), Some(CursorStyle::Block));
    assert_eq!(editor.mode(), Mode::Normal);
    // back in normal mode, keys are commands again
    press(&mut editor, 'l');
    assert_eq!(editor.cursor().location(), Pos::new(0, 3));
    assert_eq!(lines(&editor), vec!["xyab".to_string()]);
}

#[test]
fn insert_mode_backspace_and_delete() {
    let mut editor = editor_with(&["abc", "de"]);
    press(&mut editor, 'i');
    key(&mut editor, KeyCode::Right);
    key(&mut editor, KeyCode::Right);
    key(&mut editor, KeyCode::Backspace);
    assert_eq!(lines(&editor), vec!["ac".to_string(), "de".to_string()]);
    assert_eq!(editor.cursor().location(), Pos::new(0, 1));
    key(&mut editor, KeyCode::Delete);
    assert_eq!(lines(&editor), vec!["a".to_string(), "de".to_string()]);
    // Delete at the end-of-line slot joins the next line
    key(&mut editor, KeyCode::Delete);
    assert_eq!(lines(&editor), vec!["ade".to_string()]);
    assert_eq!(editor.cursor().location(), Pos::new(0, 1));
}

#[test]
fn backspace_at_line_start_joins_lines() {
    let mut editor = editor_with(&["ab", "cd"]);
    press(&mut editor, 'j');
    press(&mut editor, 'i');
    key(&mut editor, KeyCode::Backspace);
    assert_eq!(lines(&editor), vec!["abcd".to_string()]);
    assert_eq!(editor.cursor().location(), Pos::new(0, 2));
}

#[test]
fn backspace_at_the_very_start_is_refused() {
    let mut editor = editor_with(&["ab"]);
    press(&mut editor, 'i');
    let k = KeyEvent::new(KeyCode::Backspace, KeyModifiers::none());
    assert!(!editor.can_handle(k));
}

#[test]
fn enter_then_backspace_restores_lines() {
    let mut editor = editor_with(&["ab", "cd"]);
    press(&mut editor, 'i');
    key(&mut editor, KeyCode::Enter);
    assert_eq!(lines(&editor), vec!["ab".to_string(), "".to_string(), "cd".to_string()]);
    assert_eq!(editor.cursor().location(), Pos::new(1, 0));
    key(&mut editor, KeyCode::Backspace);
    assert_eq!(lines(&editor), vec!["ab".to_string(), "cd".to_string()]);
    assert_eq!(editor.cursor().location(), Pos::new(0, 2));
}

#[test]
fn open_below_and_above() {
    let mut editor = editor_with(&["ab", "cd"]);
    assert_eq!(press(&mut editor, 'o'), Some(CursorStyle::Bar));
    assert_eq!(lines(&editor), vec!["ab".to_string(), "".to_string(), "cd".to_string()]);
    assert_eq!(editor.cursor().location(), Pos::new(1, 0));
    key(&mut editor, KeyCode::Esc);
    press(&mut editor, 'O');
    assert_eq!(lines(&editor), vec!["ab".to_string(), "".to_string(), "".to_string(), "cd".to_string()]);
    assert_eq!(editor.cursor().location(), Pos::new(1, 0));
}

#[test]
fn ctrl_q_quits_and_releases_are_ignored() {
    let mut editor = editor_with(&["ab"]);
    let mut release = KeyEvent::new(KeyCode::Char('j'), KeyModifiers::none());
    release.kind = KeyEventKind::Release;
    assert_eq!(editor.handle_key(release), None);
    assert_eq!(editor.cursor().location(), Pos::new(0, 0));
    assert!(!editor.should_quit());
    editor.handle_key(KeyEvent::new(KeyCode::Char('q'), KeyModifiers::control()));
    assert!(editor.should_quit());
}

#[test]
fn ctrl_chords_insert_nothing() {
    let mut editor = editor_with(&["ab"]);
    press(&mut editor, 'i');
    editor.handle_key(KeyEvent::new(KeyCode::Char('w'), KeyModifiers::control()));
    assert_eq!(lines(&editor), vec!["ab".to_string()]);
}

#[test]
fn word_motions() {
    let mut editor = editor_with(&["foo bar", "baz"]);
    press(&mut editor, 'e');
    assert_eq!(editor.cursor().location(), Pos::new(0, 2));
    press(&mut editor, 'w');
    assert_eq!(editor.cursor().location(), Pos::new(0, 4));
    // `w` on a word start stays there
    press(&mut editor, 'w');
    assert_eq!(editor.cursor().location(), Pos::new(0, 4));
    press(&mut editor, 'j');
    press(&mut editor, 'b');
    assert_eq!(editor.cursor().location(), Pos::new(1, 0));
}

#[test]
fn line_and_file_motions() {
    let mut editor = editor_with(&["hello", "abc", "z"]);
    press(&mut editor, '$');
    assert_eq!(editor.cursor().location(), Pos::new(0, 5));
    press(&mut editor, '0');
    assert_eq!(editor.cursor().location(), Pos::new(0, 0));
    press(&mut editor, 'G');
    assert_eq!(editor.cursor().location(), Pos::new(2, 2));
    editor.handle_key(KeyEvent::new(KeyCode::Char('g'), KeyModifiers::none()));
    assert_eq!(editor.cursor().location(), Pos::new(2, 2));
}

#[test]
fn file_end_needs_two_lines() {
    let mut editor = editor_with(&["only"]);
    let k = KeyEvent::new(KeyCode::Char('G'), KeyModifiers::none());
    assert!(!editor.can_handle(k));
    let mut editor = editor_with(&["", "x"]);
    assert!(!editor.can_handle(k));
    let _ = &mut editor;
}

#[test]
fn operators_and_modes_change_no_text() {
    let mut editor = editor_with(&["ab cd"]);
    press(&mut editor, 'd');
    press(&mut editor, 'w');
    assert_eq!(lines(&editor), vec!["ab cd".to_string()]);
    assert_eq!(editor.cursor().location(), Pos::new(0, 0));
    press(&mut editor, 'v');
    assert_eq!(editor.mode(), Mode::Visual);
    press(&mut editor, ':');
    assert_eq!(editor.mode(), Mode::Command);
}

#[test]
fn editor_renders_once_until_resized() {
    let mut editor = editor_with(&["hello", "world"]);
    editor.resize(20, 3);
    assert!(editor.can_render());
    let frame = editor.render().unwrap();
    assert_eq!(frame.rows, vec!["hello".to_string(), "world".to_string()]);
    assert!(editor.render().is_none());
    editor.resize(20, 4);
    let frame = editor.render().unwrap();
    assert_eq!(frame.rows, vec!["hello".to_string(), "world".to_string(), "~".to_string()]);
}

#[test]
fn default_editor_is_empty_and_normal() {
    let editor = Editor::default(Some((40, 10)));
    assert!(editor.buffer().is_empty());
    assert_eq!(editor.mode(), Mode::Normal);
    assert!(!editor.should_quit());
}

#[test]
fn typing_then_backspace_restores_text_and_cursor() {
    let mut editor = editor_with(&["hello", "x"]);
    press(&mut editor, 'l');
    press(&mut editor, 'l');
    press(&mut editor, 'i');
    press(&mut editor, 'Z');
    assert_eq!(lines(&editor), vec!["heZllo".to_string(), "x".to_string()]);
    key(&mut editor, KeyCode::Backspace);
    assert_eq!(lines(&editor), vec!["hello".to_string(), "x".to_string()]);
    assert_eq!(editor.cursor().location(), Pos::new(0, 2));
}

#[test]
fn keys_that_change_the_screen_mark_it_for_redraw() {
    let mut editor = editor_with(&["ab", "cd"]);
    editor.resize(10, 4);
    assert!(editor.render().is_some());
    // an invalid key changes nothing: nothing to redraw
    editor.handle_key(KeyEvent::new(KeyCode::Char('z'), KeyModifiers::none()));
    assert!(editor.render().is_none());
    // a pending operator changes nothing on screen either
    press(&mut editor, 'd');
    assert!(editor.render().is_none());
    press(&mut editor, 'w');
    assert!(editor.render().is_none());
    // moving the cursor does
    press(&mut editor, 'j');
    let frame = editor.render().unwrap();
    assert_eq!(frame.cursor.row, 1);
    // so does typing
    press(&mut editor, 'i');
    assert!(editor.render().is_some());
    press(&mut editor, 'x');
    let frame = editor.render().unwrap();
    assert_eq!(frame.rows[1], "xcd");
    // a key that hits the top line keeps the screen as it is
    key(&mut editor, KeyCode::Esc);
    assert!(editor.render().is_some());
    press(&mut editor, 'k');
    press(&mut editor, 'k');
    assert!(editor.render().is_some());
    press(&mut editor, 'k');
    assert!(editor.render().is_none());
}

#[test]
fn editing_keeps_the_file_name() {
    let mut editor = Editor::with_buffer(Buffer::from_contents("ab\n", "f.txt".to_string()), None);
    press(&mut editor, 'O');
    press(&mut editor, 'x');
    editor.handle_key(KeyEvent::new(KeyCode::Char('w'), KeyModifiers::control()));
    assert_eq!(editor.buffer().filename(), Some("f.txt"));
    assert!(!editor.buffer().is_modified());
    assert_eq!(lines(&editor), vec!["x".to_string(), "ab".to_string()]);
}
