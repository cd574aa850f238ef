use vedit::input::{Action, Motion, MotionKind, Operator, ParseResult, Parser, SimpleAction, Target, InsertKind};
use vedit::key::{KeyCode, KeyEvent, KeyModifiers};

fn press(p: &mut Parser, keys: &str) -> ParseResult {
    let mut result = ParseResult::Pending;
    for c in keys.chars() {
        result = p.feed(KeyEvent::new(KeyCode::Char(c), KeyModifiers::none()));
    }
    result
}

#[test]
fn bare_motion_has_count_one() {
    let mut p = Parser::new();
    assert_eq!(press(&mut p, "w"), ParseResult::Complete(Action::Move(Motion::WordFwd, 1)));
}

#[test]
fn counted_motion() {
    let mut p = Parser::new();
    assert_eq!(press(&mut p, "12j"), ParseResult::Complete(Action::Move(Motion::Down, 12)));
}

#[test]
fn zero_is_a_motion_without_a_count() {
    let mut p = Parser::new();
    assert_eq!(press(&mut p, "0"), ParseResult::Complete(Action::Move(Motion::LineStart, 1)));
}

#[test]
fn zero_is_a_digit_within_a_count() {
    let mut p = Parser::new();
    assert_eq!(press(&mut p, "10k"), ParseResult::Complete(Action::Move(Motion::Up, 10)));
}

#[test]
fn operator_alone_is_pending() {
    let mut p = Parser::new();
    assert_eq!(press(&mut p, "d"), ParseResult::Pending);
}

#[test]
fn operator_with_motion() {
    let mut p = Parser::new();
    assert_eq!(
        press(&mut p, "dw"),
        ParseResult::Complete(Action::Operate {
            op: Operator::Delete,
            target: Target::Motion(Motion::WordFwd, 1),
        })
    );
}

#[test]
fn counts_multiply() {
    let mut p = Parser::new();
    assert_eq!(
        press(&mut p, "2d3w"),
        ParseResult::Complete(Action::Operate {
            op: Operator::Delete,
            target: Target::Motion(Motion::WordFwd, 6),
        })
    );
}

#[test]
fn doubled_operator_is_linewise() {
    let mut p = Parser::new();
    assert_eq!(
        press(&mut p, "3dd"),
        ParseResult::Complete(Action::Operate {
            op: Operator::Delete,
            target: Target::CurrentLine(3),
        })
    );
}

#[test]
fn change_does_not_enter_insert_while_pending() {
    // `c` must not be dispatched as a mode change.
    let mut p = Parser::new();
    assert_eq!(press(&mut p, "c"), ParseResult::Pending);
}

#[test]
fn find_waits_for_its_target() {
    let mut p = Parser::new();
    assert_eq!(press(&mut p, "f"), ParseResult::Pending);
    assert_eq!(
        press(&mut p, "x"),
        ParseResult::Complete(Action::Move(
            Motion::Find { target: 'x', till: false, backward: false },
            1
        ))
    );
}

#[test]
fn escape_cancels_a_pending_operator() {
    let mut p = Parser::new();
    press(&mut p, "2d");
    p.feed(KeyEvent::new(KeyCode::Esc, KeyModifiers::none()));
    assert_eq!(press(&mut p, "w"), ParseResult::Complete(Action::Move(Motion::WordFwd, 1)));
}

#[test]
fn ctrl_q_quits_and_ctrl_r_redoes() {
    let mut p = Parser::new();
    press(&mut p, "3d");
    assert_eq!(
        p.feed(KeyEvent::new(KeyCode::Char('q'), KeyModifiers::control())),
        ParseResult::Complete(Action::Simple(SimpleAction::Quit))
    );
    // the pending count and operator are gone
    assert_eq!(press(&mut p, "j"), ParseResult::Complete(Action::Move(Motion::Down, 1)));
    assert_eq!(
        p.feed(KeyEvent::new(KeyCode::Char('r'), KeyModifiers::control())),
        ParseResult::Complete(Action::Simple(SimpleAction::Redo))
    );
    assert_eq!(
        p.feed(KeyEvent::new(KeyCode::Char('x'), KeyModifiers::control())),
        ParseResult::Invalid
    );
}

#[test]
fn arrows_are_motions_and_take_counts() {
    let mut p = Parser::new();
    press(&mut p, "4");
    assert_eq!(
        p.feed(KeyEvent::new(KeyCode::Left, KeyModifiers::none())),
        ParseResult::Complete(Action::Move(Motion::Left, 4))
    );
    press(&mut p, "y");
    assert_eq!(
        p.feed(KeyEvent::new(KeyCode::Down, KeyModifiers::none())),
        ParseResult::Complete(Action::Operate { op: Operator::Yank, target: Target::Motion(Motion::Down, 1) })
    );
}

#[test]
fn other_keys_are_invalid() {
    let mut p = Parser::new();
    assert_eq!(p.feed(KeyEvent::new(KeyCode::Enter, KeyModifiers::none())), ParseResult::Invalid);
    assert_eq!(press(&mut p, "z"), ParseResult::Invalid);
    // a different operator after a pending one is not a valid range
    assert_eq!(press(&mut p, "dc"), ParseResult::Invalid);
    assert_eq!(press(&mut p, "dz"), ParseResult::Invalid);
}

#[test]
fn single_key_actions() {
    let mut p = Parser::new();
    assert_eq!(press(&mut p, "i"), ParseResult::Complete(Action::EnterInsert(InsertKind::Before)));
    assert_eq!(press(&mut p, "A"), ParseResult::Complete(Action::EnterInsert(InsertKind::LineEnd)));
    assert_eq!(press(&mut p, "o"), ParseResult::Complete(Action::EnterInsert(InsertKind::OpenBelow)));
    assert_eq!(press(&mut p, "O"), ParseResult::Complete(Action::EnterInsert(InsertKind::OpenAbove)));
    assert_eq!(press(&mut p, "v"), ParseResult::Complete(Action::EnterVisual));
    assert_eq!(press(&mut p, ":"), ParseResult::Complete(Action::EnterCommandLine));
    assert_eq!(press(&mut p, "x"), ParseResult::Complete(Action::Simple(SimpleAction::DeleteChar)));
    assert_eq!(press(&mut p, "u"), ParseResult::Complete(Action::Simple(SimpleAction::Undo)));
    assert_eq!(press(&mut p, "J"), ParseResult::Complete(Action::Simple(SimpleAction::JoinLines)));
}

#[test]
fn find_variants_and_counts() {
    let mut p = Parser::new();
    assert_eq!(
        press(&mut p, "3Tz"),
        ParseResult::Complete(Action::Move(Motion::Find { target: 'z', till: true, backward: true }, 3))
    );
    assert_eq!(
        press(&mut p, "dt,"),
        ParseResult::Complete(Action::Operate {
            op: Operator::Delete,
            target: Target::Motion(Motion::Find { target: ',', till: true, backward: false }, 1),
        })
    );
    // the searched-for char may be a digit
    assert_eq!(
        press(&mut p, "F1"),
        ParseResult::Complete(Action::Move(Motion::Find { target: '1', till: false, backward: true }, 1))
    );
}

#[test]
fn huge_counts_saturate_and_overflow_is_reported() {
    let mut p = Parser::new();
    press(&mut p, "99999999999999999999999999");
    let j = KeyEvent::new(KeyCode::Char('j'), KeyModifiers::none());
    assert!(!p.count_overflows(j));
    assert_eq!(p.feed(j), ParseResult::Complete(Action::Move(Motion::Down, usize::MAX)));
    press(&mut p, "3d4");
    assert!(!p.count_overflows(j));
    press(&mut p, "2");
    let nine = KeyEvent::new(KeyCode::Char('9'), KeyModifiers::none());
    assert!(!p.count_overflows(nine));
    let mut q = Parser::new();
    press(&mut q, "99999999999d2");
    assert!(!q.count_overflows(nine));
    press(&mut q, "9999999999");
    assert!(q.count_overflows(j));
    assert!(!q.count_overflows(nine));
}

#[test]
fn motion_kinds() {
    assert_eq!(Motion::Down.kind(), MotionKind::Linewise);
    assert_eq!(Motion::FileEnd.kind(), MotionKind::Linewise);
    assert_eq!(Motion::WordEnd.kind(), MotionKind::Inclusive);
    assert_eq!(Motion::WordFwd.kind(), MotionKind::Exclusive);
    assert_eq!(Motion::LineEnd.kind(), MotionKind::Inclusive);
    assert_eq!(Motion::Find { target: 'a', till: false, backward: true }.kind(), MotionKind::Inclusive);
    assert_eq!(Motion::Find { target: 'a', till: true, backward: false }.kind(), MotionKind::Exclusive);
    assert_eq!(Motion::Left.kind(), MotionKind::Exclusive);
}
