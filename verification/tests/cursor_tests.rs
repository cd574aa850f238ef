use vedit::buffer::Buffer;
use vedit::cursor::Cursor;
use vedit::input::MotionLocation;
use vedit::pos::Pos;
use vedit::walker::{Direction, Walker};
use vedit::words::{find_word, to_word_end, to_word_start};

#[test]
fn horizontal_moves_stop_at_the_ends() {
    let b = Buffer::from_lines(&["ab"]);
    let mut c = Cursor::default();
    c.move_left();
    assert_eq!(c.location(), Pos::new(0, 0));
    c.move_right(&b);
    c.move_right(&b);
    c.move_right(&b);
    assert_eq!(c.location(), Pos::new(0, 2));
}

#[test]
fn vertical_moves_keep_the_desired_column() {
    let b = Buffer::from_lines(&["abcdef", "x", "abcdef"]);
    let mut c = Cursor::default();
    for _ in 0..4 {
        c.move_right(&b);
    }
    c.move_down(&b);
    assert_eq!(c.location(), Pos::new(1, 1));
    c.move_down(&b);
    assert_eq!(c.location(), Pos::new(2, 4));
    c.move_down(&b);
    assert_eq!(c.location(), Pos::new(2, 4));
    c.move_up(&b);
    c.move_up(&b);
    assert_eq!(c.location(), Pos::new(0, 4));
}

#[test]
fn clamp_brings_the_cursor_back() {
    let b = Buffer::from_lines(&["abc", "d"]);
    let mut c = Cursor::default();
    c.go_to(Pos::new(7, 9));
    c.clamp(&b);
    assert_eq!(c.location(), Pos::new(1, 1));
    c.go_to(Pos::new(0, 2));
    c.clamp(&b);
    assert_eq!(c.location(), Pos::new(0, 2));
}

#[test]
fn line_start_and_end() {
    let b = Buffer::from_lines(&["abc"]);
    let mut c = Cursor::default();
    c.to_line_end(&b);
    assert_eq!(c.location(), Pos::new(0, 3));
    c.to_line_start();
    assert_eq!(c.location(), Pos::new(0, 0));
}

#[test]
fn walk_to_char_finds_the_next_occurrence() {
    let b = Buffer::from_lines(&["a,b", "c,d"]);
    let mut c = Cursor::default();
    c.walk_to_char(&b, Pos::new(0, 1), ',', false, Direction::Forward);
    assert_eq!(c.location(), Pos::new(1, 1));
    c.walk_to_char(&b, Pos::new(1, 1), ',', false, Direction::Backward);
    assert_eq!(c.location(), Pos::new(0, 1));
    c.walk_to_char(&b, Pos::new(0, 1), 'z', false, Direction::Forward);
    assert_eq!(c.location(), Pos::new(0, 1));
    // the end-of-line slot holds '\n'
    c.walk_to_char(&b, Pos::new(0, 0), '\n', false, Direction::Forward);
    assert_eq!(c.location(), Pos::new(0, 3));
    assert!(Cursor::is_target_char(&b, Pos::new(1, 3), '\n'));
    assert!(!Cursor::is_target_char(&b, Pos::new(5, 0), 'a'));
}

#[test]
fn walker_yields_every_position() {
    let b = Buffer::from_lines(&["ab", ""]);
    let mut w = Walker::default(&b, Pos::new(0, 0), Direction::Forward);
    let mut seen = Vec::new();
    while let Some(p) = w.next() {
        seen.push(p);
    }
    assert_eq!(seen, vec![Pos::new(0, 0), Pos::new(0, 1), Pos::new(0, 2), Pos::new(1, 0)]);
    let mut w = Walker::default(&b, Pos::new(1, 0), Direction::Backward);
    let mut back = Vec::new();
    while let Some(p) = w.next() {
        back.push(p);
    }
    seen.reverse();
    assert_eq!(back, seen);
}

#[test]
fn word_starts_and_ends() {
    let b = Buffer::from_lines(&["foo.bar  baz", "qux"]);
    assert_eq!(find_word(&b, Pos::new(0, 0), Direction::Forward, MotionLocation::End, false), Pos::new(0, 2));
    assert_eq!(find_word(&b, Pos::new(0, 0), Direction::Forward, MotionLocation::End, true), Pos::new(0, 6));
    assert_eq!(find_word(&b, Pos::new(0, 1), Direction::Forward, MotionLocation::Start, false), Pos::new(0, 3));
    assert_eq!(find_word(&b, Pos::new(0, 1), Direction::Forward, MotionLocation::Start, true), Pos::new(0, 9));
    assert_eq!(find_word(&b, Pos::new(0, 11), Direction::Backward, MotionLocation::Start, false), Pos::new(0, 9));
    assert_eq!(find_word(&b, Pos::new(0, 10), Direction::Forward, MotionLocation::Start, false), Pos::new(1, 0));
    // nothing ends at the very last position, nothing starts at the very first
    assert_eq!(find_word(&b, Pos::new(1, 3), Direction::Forward, MotionLocation::End, false), Pos::new(1, 3));
    assert_eq!(find_word(&b, Pos::new(0, 0), Direction::Backward, MotionLocation::Start, false), Pos::new(0, 0));
}

#[test]
fn word_moves_of_a_cursor() {
    let b = Buffer::from_lines(&["ab cd"]);
    let mut c = Cursor::default();
    to_word_end(&mut c, &b, Direction::Forward, false);
    assert_eq!(c.location(), Pos::new(0, 1));
    c.move_right(&b);
    to_word_start(&mut c, &b, Direction::Forward, false);
    assert_eq!(c.location(), Pos::new(0, 3));
    to_word_start(&mut c, &b, Direction::Backward, false);
    assert_eq!(c.location(), Pos::new(0, 3));
    c.move_left();
    to_word_start(&mut c, &b, Direction::Backward, false);
    assert_eq!(c.location(), Pos::new(0, 2));
}

#[test]
fn walk_to_char_till_stops_before_the_target() {
    let b = Buffer::from_lines(&["ab"]);
    let mut c = Cursor::default();
    // the target is the very first step: land on the start
    c.walk_to_char(&b, Pos::new(0, 0), 'b', true, Direction::Forward);
    assert_eq!(c.location(), Pos::new(0, 0));
    let b3 = Buffer::from_lines(&["abc"]);
    let mut c3 = Cursor::default();
    c3.walk_to_char(&b3, Pos::new(0, 1), 'c', true, Direction::Forward);
    assert_eq!(c3.location(), Pos::new(0, 1));
    let b = Buffer::from_lines(&["a,b,c", "d"]);
    let mut c = Cursor::default();
    c.walk_to_char(&b, Pos::new(0, 0), 'c', true, Direction::Forward);
    assert_eq!(c.location(), Pos::new(0, 3));
    c.walk_to_char(&b, Pos::new(0, 0), 'd', true, Direction::Forward);
    assert_eq!(c.location(), Pos::new(0, 5));
    c.walk_to_char(&b, Pos::new(1, 0), 'a', true, Direction::Backward);
    assert_eq!(c.location(), Pos::new(0, 1));
    // no target: stay put
    c.walk_to_char(&b, Pos::new(0, 0), 'z', true, Direction::Forward);
    assert_eq!(c.location(), Pos::new(0, 1));
}

#[test]
fn white_space_is_what_std_says() {
    for n in 0u32..0x3100 {
        let Some(ch) = char::from_u32(n) else { continue };
        let line = format!("a{ch}b");
        let b = Buffer::from_lines(&[line.as_str()]);
        let found = find_word(&b, Pos::new(0, 1), Direction::Forward, MotionLocation::Start, false);
        // a blank between two word chars: the next word starts after it
        assert_eq!(found == Pos::new(0, 2), ch.is_whitespace(), "char {n:#x}");
        // a word char joins the two into one word, which ends at `b`
        let end = find_word(&b, Pos::new(0, 0), Direction::Forward, MotionLocation::End, false);
        assert_eq!(end == Pos::new(0, 2), !ch.is_whitespace() && ch.is_alphanumeric(), "char {n:#x}");
    }
}
