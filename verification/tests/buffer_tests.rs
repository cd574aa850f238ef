use vedit::buffer::Buffer;
use vedit::pos::Pos;

fn lines(b: &Buffer) -> Vec<String> {
    (0..b.len()).map(|i| b.line(i).unwrap().to_string()).collect()
}

#[test]
fn empty_buffer_has_one_empty_line() {
    let b = Buffer::empty();
    assert_eq!(b.len(), 1);
    assert!(b.is_empty());
    assert_eq!(b.line(0), Some(""));
    assert_eq!(b.line(1), None);
    assert_eq!(b.filename(), None);
    assert!(!b.is_modified());
}

#[test]
fn from_lines_with_no_lines_is_empty() {
    let b = Buffer::from_lines(&[]);
    assert!(b.is_empty());
    let b = Buffer::from_lines(&["a", "b"]);
    assert!(!b.is_empty());
    assert_eq!(lines(&b), vec!["a".to_string(), "b".to_string()]);
}

#[test]
fn contents_split_like_str_lines() {
    let b = Buffer::from_contents("one\r\ntwo\n\nthree\r", "notes.txt".to_string());
    assert_eq!(
        lines(&b),
        vec!["one".to_string(), "two".to_string(), "".to_string(), "three\r".to_string()]
    );
    assert_eq!(b.filename(), Some("notes.txt"));
    assert!(!b.is_modified());
    let b = Buffer::from_contents("a\nb\n", "f".to_string());
    assert_eq!(lines(&b), vec!["a".to_string(), "b".to_string()]);
    let b = Buffer::from_contents("", "f".to_string());
    assert_eq!(lines(&b), vec!["".to_string()]);
    let b = Buffer::from_contents("\n", "f".to_string());
    assert_eq!(lines(&b), vec!["".to_string()]);
    let text = "x\ny\rz\n";
    let b = Buffer::from_contents(text, "f".to_string());
    let expected: Vec<String> = text.lines().map(String::from).collect();
    assert_eq!(lines(&b), expected);
}

#[test]
fn char_at_has_a_newline_slot() {
    let b = Buffer::from_lines(&["ab", "ç"]);
    assert_eq!(b.char_at(Pos::new(0, 0)), Some('a'));
    assert_eq!(b.char_at(Pos::new(0, 2)), Some('\n'));
    assert_eq!(b.char_at(Pos::new(0, 3)), None);
    assert_eq!(b.char_at(Pos::new(1, 0)), Some('ç'));
    assert_eq!(b.char_at(Pos::new(1, 1)), Some('\n'));
    assert_eq!(b.char_at(Pos::new(2, 0)), None);
}

#[test]
fn line_len_counts_chars() {
    let b = Buffer::from_lines(&["héllo", ""]);
    assert_eq!(b.line_len(0), 5);
    assert_eq!(b.line_len(1), 0);
    assert_eq!(b.line_len(7), 0);
}

#[test]
fn next_and_prev_pos_walk_reading_order() {
    let b = Buffer::from_lines(&["ab", "c"]);
    assert_eq!(b.next_pos(Pos::new(0, 1)), Some(Pos::new(0, 2)));
    assert_eq!(b.next_pos(Pos::new(0, 2)), Some(Pos::new(1, 0)));
    assert_eq!(b.next_pos(Pos::new(1, 1)), None);
    assert_eq!(b.prev_pos(Pos::new(1, 0)), Some(Pos::new(0, 2)));
    assert_eq!(b.prev_pos(Pos::new(0, 1)), Some(Pos::new(0, 0)));
    assert_eq!(b.prev_pos(Pos::new(0, 0)), None);
    // next then prev returns to the start
    for p in [Pos::new(0, 0), Pos::new(0, 1), Pos::new(0, 2), Pos::new(1, 0)] {
        let q = b.next_pos(p).unwrap();
        assert_eq!(b.prev_pos(q), Some(p));
    }
}

#[test]
fn insert_and_remove_chars() {
    let mut b = Buffer::from_lines(&["aé", "x"]);
    b.insert_char_at(0, 1, 'Z');
    assert_eq!(b.line(0), Some("aZé"));
    b.insert_char_at(0, 3, '!');
    assert_eq!(b.line(0), Some("aZé!"));
    b.insert_char_at(5, 0, 'q'); // no such row
    assert_eq!(lines(&b), vec!["aZé!".to_string(), "x".to_string()]);
    b.remove_char_at(Pos::new(0, 2));
    assert_eq!(b.line(0), Some("aZ!"));
    b.remove_char_at(Pos::new(9, 0)); // no such row
    assert_eq!(b.len(), 2);
}

#[test]
fn insert_then_remove_restores() {
    let mut b = Buffer::from_lines(&["hello"]);
    b.insert_char_at(0, 2, 'X');
    b.remove_char_at(Pos::new(0, 2));
    assert_eq!(b.line(0), Some("hello"));
}

#[test]
fn new_lines_and_joins() {
    let mut b = Buffer::from_lines(&["ab", "cd"]);
    b.new_line_at(1);
    assert_eq!(lines(&b), vec!["ab".to_string(), "".to_string(), "cd".to_string()]);
    b.new_line_at(3); // past the last line: nothing
    assert_eq!(b.len(), 3);
    b.append_lines(2, 0);
    assert_eq!(lines(&b), vec!["abcd".to_string(), "".to_string()]);
    b.append_lines(0, 1);
    assert_eq!(lines(&b), vec!["abcd".to_string()]);
    b.append_lines(0, 0);
    b.append_lines(1, 0);
    assert_eq!(lines(&b), vec!["abcd".to_string()]);
}

#[test]
fn has_next_line() {
    let b = Buffer::from_lines(&["a", "b"]);
    assert!(b.has_next_line(0));
    assert!(!b.has_next_line(1));
    assert!(!b.has_next_line(usize::MAX));
}
