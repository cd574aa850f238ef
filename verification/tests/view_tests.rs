use vedit::buffer::Buffer;
use vedit::cursor::Cursor;
use vedit::pos::Pos;
use vedit::view::{Position, View};

fn cursor_at(row: usize, col: usize) -> Cursor {
    let mut c = Cursor::default();
    c.go_to(Pos::new(row, col));
    c
}

#[test]
fn new_view_falls_back_to_80_by_24() {
    let b = Buffer::from_lines(&["x"]);
    let mut v = View::new(None);
    let frame = v.render(&b, &Cursor::default()).unwrap();
    assert_eq!(frame.rows.len(), 23);
    assert_eq!(frame.rows[0], "x");
    assert_eq!(frame.rows[1], "~");
}

#[test]
fn status_line_layout() {
    let v = View::new(Some((30, 5)));
    let s = v.status_line(Some("main.rs"), true, 12, &cursor_at(2, 4));
    let left = "main.rs [+] \u{2014} 12 lines";
    let right = "3:5";
    let gap = 30 - (left.len() + right.len());
    assert_eq!(s, format!("{left}{}{right}", " ".repeat(gap)));
    let s = v.status_line(None, false, 1, &cursor_at(0, 0));
    assert!(s.starts_with("[No Name] \u{2014} 1 lines "));
    assert!(s.ends_with("1:1"));
}

#[test]
fn status_line_is_cut_to_the_width() {
    let v = View::new(Some((10, 5)));
    let s = v.status_line(Some("a"), false, 3, &cursor_at(0, 0));
    assert_eq!(s, "a \u{2014} 3 line");
    assert_eq!(s.chars().count(), 10);
    let wide = View::new(Some((0, 5)));
    assert_eq!(wide.status_line(Some("a"), false, 3, &cursor_at(0, 0)), "");
}

#[test]
fn render_scrolls_to_the_cursor() {
    let b = Buffer::from_lines(&["l0", "l1", "l2", "l3", "l4", "l5"]);
    let mut v = View::new(Some((4, 4))); // 3 text rows
    let frame = v.render(&b, &cursor_at(4, 1)).unwrap();
    assert_eq!(frame.rows, vec!["l2".to_string(), "l3".to_string(), "l4".to_string()]);
    assert_eq!(frame.cursor, Position { col: 1, row: 2 });
    // nothing is due until marked dirty
    assert!(v.render(&b, &cursor_at(0, 0)).is_none());
    v.mark_dirty();
    let frame = v.render(&b, &cursor_at(0, 0)).unwrap();
    assert_eq!(frame.rows, vec!["l0".to_string(), "l1".to_string(), "l2".to_string()]);
    assert_eq!(frame.cursor, Position { col: 0, row: 0 });
}

#[test]
fn render_scrolls_horizontally_by_chars() {
    let b = Buffer::from_lines(&["ab\u{e9}defgh", "xy"]);
    let mut v = View::new(Some((3, 3)));
    let frame = v.render(&b, &cursor_at(0, 5)).unwrap();
    assert_eq!(frame.rows, vec!["def".to_string(), "".to_string()]);
    assert_eq!(frame.cursor, Position { col: 2, row: 0 });
    v.mark_dirty();
    let frame = v.render(&b, &cursor_at(0, 2)).unwrap();
    assert_eq!(frame.rows, vec!["\u{e9}de".to_string(), "".to_string()]);
}

#[test]
fn zero_height_renders_nothing() {
    let b = Buffer::from_lines(&["x"]);
    let mut v = View::new(Some((10, 0)));
    assert!(v.can_render(&b, &Cursor::default()));
    assert!(v.render(&b, &Cursor::default()).is_none());
    v.resize(10, 2);
    let frame = v.render(&b, &Cursor::default()).unwrap();
    assert_eq!(frame.rows, vec!["x".to_string()]);
}

#[test]
fn named_buffers_show_their_file_name() {
    let b = Buffer::from_contents("x\n", "dir/notes.txt".to_string());
    let mut v = View::new(Some((40, 3)));
    let frame = v.render(&b, &Cursor::default()).unwrap();
    assert!(frame.status.starts_with("notes.txt \u{2014} 1 lines"));
}

#[test]
fn overflowing_cursor_cannot_render() {
    let b = Buffer::from_lines(&["x"]);
    let v = View::new(Some((10, 3)));
    assert!(!v.can_render(&b, &cursor_at(usize::MAX, 0)));
    assert!(v.can_render(&b, &cursor_at(5, 5)));
}

#[test]
fn unnamed_path_components_show_no_name() {
    let b = Buffer::from_contents("x\n", "..".to_string());
    let mut v = View::new(Some((40, 3)));
    let frame = v.render(&b, &Cursor::default()).unwrap();
    assert!(frame.status.starts_with("[No Name] \u{2014} 1 lines"));
    let b = Buffer::from_contents("x\n", "a//b/./c".to_string());
    let mut v = View::new(Some((40, 3)));
    let frame = v.render(&b, &Cursor::default()).unwrap();
    assert!(frame.status.starts_with("c \u{2014} 1 lines"));
}

#[test]
fn trailing_separators_and_dots_are_dropped_from_the_name() {
    for path in ["a/b/", "a/b/.", "a/b/./", "b"] {
        let buffer = Buffer::from_contents("x\n", path.to_string());
        let mut v = View::new(Some((40, 3)));
        let frame = v.render(&buffer, &Cursor::default()).unwrap();
        assert!(frame.status.starts_with("b \u{2014} 1 lines"), "{path}");
    }
}
