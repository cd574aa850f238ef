use vstd::prelude::*;

use crate::key::{KeyCode, KeyEvent};

verus! {

/// Which end of a word a word motion lands on.
#[derive(Debug, Clone, Copy, PartialEq, Eq, Structural)]
pub enum MotionLocation {
    Start,
    End,
}

#[derive(Debug, Clone, Copy, PartialEq, Eq, Structural)]
pub enum Operator {
    Delete,
    Change,
    Yank,
}

#[derive(Debug, Clone, Copy, PartialEq, Eq, Structural)]
pub enum Motion {
    Left,
    Right,
    Up,
    Down,
    WordFwd,
    WordEnd,
    WordBack,
    LineStart,
    FirstNonBlank,
    LineEnd,
    FileStart,
    FileEnd,
    /// f/t/F/T — `till` stops before the target, `backward` searches left.
    Find { target: char, till: bool, backward: bool },
}

/// How an operator consumes the span a motion produces. `dw` and `de` differ
/// only in this, and `dj` takes whole lines because `Down` is linewise.
#[derive(Debug, Clone, Copy, PartialEq, Eq, Structural)]
pub enum MotionKind {
    Exclusive,
    Inclusive,
    Linewise,
}

/// The kind of each motion.
pub open spec fn kind_of(m: Motion) -> MotionKind {
    match m {
        Motion::Up | Motion::Down | Motion::FileStart | Motion::FileEnd => MotionKind::Linewise,
        Motion::WordEnd | Motion::LineEnd => MotionKind::Inclusive,
        Motion::Find { till, .. } => if till {
            MotionKind::Exclusive
        } else {
            MotionKind::Inclusive
        },
        _ => MotionKind::Exclusive,
    }
}

impl Motion {
    pub fn kind(self) -> (k: MotionKind)
        ensures
            k == kind_of(self),
    {
        match self {
            Motion::Up | Motion::Down | Motion::FileStart | Motion::FileEnd => MotionKind::Linewise,
            Motion::WordEnd | Motion::LineEnd => MotionKind::Inclusive,
            Motion::Find { till: false, .. } => MotionKind::Inclusive,
            _ => MotionKind::Exclusive,
        }
    }
}

#[derive(Debug, Clone, Copy, PartialEq, Eq, Structural)]
pub enum Target {
    Motion(Motion, usize),
    /// Doubled operator: `dd`, `yy`, `cc`.
    CurrentLine(usize),
}

#[derive(Debug, Clone, Copy, PartialEq, Eq, Structural)]
pub enum InsertKind {
    Before,
    After,
    LineStart,
    LineEnd,
    OpenBelow,
    OpenAbove,
}

#[derive(Debug, Clone, Copy, PartialEq, Eq, Structural)]
pub enum SimpleAction {
    DeleteChar,
    PasteAfter,
    PasteBefore,
    JoinLines,
    Undo,
    Redo,
    Quit,
}

#[derive(Debug, Clone, Copy, PartialEq, Eq, Structural)]
pub enum Action {
    Move(Motion, usize),
    Operate { op: Operator, target: Target },
    EnterInsert(InsertKind),
    EnterVisual,
    EnterCommandLine,
    Simple(SimpleAction),
}

#[derive(Debug, Clone, Copy, PartialEq, Eq, Structural)]
pub enum ParseResult {
    /// Grammatically incomplete — keep reading.
    Pending,
    Complete(Action),
    /// Bad sequence or <Esc>; state has been reset.
    Invalid,
}

#[derive(Debug, Clone, Copy, PartialEq, Eq, Structural)]
pub enum State {
    Start,
    /// Saw f/t/F/T, waiting for the character to search for.
    AwaitingFindChar { till: bool, backward: bool },
}

/// What the parser remembers between keys.
pub struct ParserState {
    /// Count typed before the operator (the 2 in `2d3w`).
    pub count1: Option<usize>,
    /// Count typed after the operator (the 3 in `2d3w`).
    pub count2: Option<usize>,
    pub operator: Option<Operator>,
    pub state: State,
}

/// Turns normal-mode keys into actions, one key at a time.
#[derive(Debug, Clone, Copy)]
pub struct Parser {
    count1: Option<usize>,
    count2: Option<usize>,
    operator: Option<Operator>,
    state: State,
}

impl View for Parser {
    type V = ParserState;

    closed spec fn view(&self) -> ParserState {
        ParserState { count1: self.count1, count2: self.count2, operator: self.operator, state: self.state }
    }
}

/// The state of a parser that has seen nothing yet.
pub open spec fn fresh() -> ParserState {
    ParserState { count1: None, count2: None, operator: None, state: State::Start }
}

/// The count an action gets: the count before the operator times the count
/// after it, each 1 when not typed.
pub open spec fn count_product(s: ParserState) -> int {
    let a: int = match s.count1 {
        Some(n) => n as int,
        None => 1,
    };
    let b: int = match s.count2 {
        Some(n) => n as int,
        None => 1,
    };
    a * b
}

/// The count being typed: the second one once an operator is pending.
pub open spec fn current_count_of(s: ParserState) -> Option<usize> {
    if s.operator is Some {
        s.count2
    } else {
        s.count1
    }
}

/// `10 * n + d`, saturating at `usize::MAX` at each step.
pub open spec fn push_digit_value(n: usize, d: int) -> usize {
    let m: int = if n * 10 > usize::MAX { usize::MAX as int } else { n * 10 };
    if m + d > usize::MAX {
        usize::MAX
    } else {
        (m + d) as usize
    }
}

/// The state after typing digit `d` into the current count.
pub open spec fn with_digit(s: ParserState, d: int) -> ParserState {
    let old_count: usize = match current_count_of(s) {
        Some(n) => n,
        None => 0,
    };
    let new_count = Some(push_digit_value(old_count, d));
    if s.operator is Some {
        ParserState { count2: new_count, ..s }
    } else {
        ParserState { count1: new_count, ..s }
    }
}

pub open spec fn is_digit_char(c: char) -> bool {
    '0' <= c <= '9'
}

pub open spec fn digit_value(c: char) -> int {
    c as int - '0' as int
}

/// The operator a key names.
pub open spec fn operator_of(c: char) -> Option<Operator> {
    if c == 'd' {
        Some(Operator::Delete)
    } else if c == 'c' {
        Some(Operator::Change)
    } else if c == 'y' {
        Some(Operator::Yank)
    } else {
        None
    }
}

/// The motion a key names.
pub open spec fn motion_of(c: char) -> Option<Motion> {
    if c == 'h' {
        Some(Motion::Left)
    } else if c == 'l' {
        Some(Motion::Right)
    } else if c == 'k' {
        Some(Motion::Up)
    } else if c == 'j' {
        Some(Motion::Down)
    } else if c == 'w' {
        Some(Motion::WordFwd)
    } else if c == 'e' {
        Some(Motion::WordEnd)
    } else if c == 'b' {
        Some(Motion::WordBack)
    } else if c == '0' {
        Some(Motion::LineStart)
    } else if c == '^' {
        Some(Motion::FirstNonBlank)
    } else if c == '$' {
        Some(Motion::LineEnd)
    } else if c == 'G' {
        Some(Motion::FileEnd)
    } else {
        None
    }
}

/// The action a single key completes on its own.
pub open spec fn single_key_action(c: char) -> Option<Action> {
    if c == 'i' {
        Some(Action::EnterInsert(InsertKind::Before))
    } else if c == 'a' {
        Some(Action::EnterInsert(InsertKind::After))
    } else if c == 'I' {
        Some(Action::EnterInsert(InsertKind::LineStart))
    } else if c == 'A' {
        Some(Action::EnterInsert(InsertKind::LineEnd))
    } else if c == 'o' {
        Some(Action::EnterInsert(InsertKind::OpenBelow))
    } else if c == 'O' {
        Some(Action::EnterInsert(InsertKind::OpenAbove))
    } else if c == 'v' {
        Some(Action::EnterVisual)
    } else if c == ':' {
        Some(Action::EnterCommandLine)
    } else if c == 'x' {
        Some(Action::Simple(SimpleAction::DeleteChar))
    } else if c == 'p' {
        Some(Action::Simple(SimpleAction::PasteAfter))
    } else if c == 'P' {
        Some(Action::Simple(SimpleAction::PasteBefore))
    } else if c == 'J' {
        Some(Action::Simple(SimpleAction::JoinLines))
    } else if c == 'u' {
        Some(Action::Simple(SimpleAction::Undo))
    } else {
        None
    }
}

/// A motion completes a pending operator, or else moves; the counts are used
/// up either way.
pub open spec fn motion_step(s: ParserState, m: Motion) -> (ParserState, ParseResult) {
    let count = count_product(s) as usize;
    (
        fresh(),
        match s.operator {
            Some(op) => ParseResult::Complete(Action::Operate { op, target: Target::Motion(m, count) }),
            None => ParseResult::Complete(Action::Move(m, count)),
        },
    )
}

/// What typing the plain char `c` does.
pub open spec fn char_step(s: ParserState, c: char) -> (ParserState, ParseResult) {
    if let State::AwaitingFindChar { till, backward } = s.state {
        motion_step(s, Motion::Find { target: c, till, backward })
    } else if is_digit_char(c) && !(c == '0' && current_count_of(s) is None) {
        (with_digit(s, digit_value(c)), ParseResult::Pending)
    } else if s.operator is Some && operator_of(c) == s.operator {
        (
            fresh(),
            ParseResult::Complete(
                Action::Operate {
                    op: s.operator->0,
                    target: Target::CurrentLine(count_product(s) as usize),
                },
            ),
        )
    } else if motion_of(c) is Some {
        motion_step(s, motion_of(c)->0)
    } else if c == 'f' || c == 't' || c == 'F' || c == 'T' {
        (
            ParserState {
                state: State::AwaitingFindChar { till: c == 't' || c == 'T', backward: c == 'F' || c == 'T' },
                ..s
            },
            ParseResult::Pending,
        )
    } else if s.operator is Some {
        (fresh(), ParseResult::Invalid)
    } else if operator_of(c) is Some {
        (ParserState { operator: operator_of(c), ..s }, ParseResult::Pending)
    } else {
        match single_key_action(c) {
            Some(a) => (fresh(), ParseResult::Complete(a)),
            None => (fresh(), ParseResult::Invalid),
        }
    }
}

/// What feeding `key` does: the next state and the result.
pub open spec fn parse_step(s: ParserState, key: KeyEvent) -> (ParserState, ParseResult) {
    if key.modifiers.control {
        (
            fresh(),
            match key.code {
                KeyCode::Char('q') => ParseResult::Complete(Action::Simple(SimpleAction::Quit)),
                KeyCode::Char('r') => ParseResult::Complete(Action::Simple(SimpleAction::Redo)),
                _ => ParseResult::Invalid,
            },
        )
    } else {
        match key.code {
            KeyCode::Char(c) => char_step(s, c),
            KeyCode::Esc => (fresh(), ParseResult::Invalid),
            KeyCode::Left => motion_step(s, Motion::Left),
            KeyCode::Right => motion_step(s, Motion::Right),
            KeyCode::Up => motion_step(s, Motion::Up),
            KeyCode::Down => motion_step(s, Motion::Down),
            _ => (fresh(), ParseResult::Invalid),
        }
    }
}

/// Feeding `key` multiplies the two counts together.
pub open spec fn uses_count(s: ParserState, key: KeyEvent) -> bool {
    !key.modifiers.control && match key.code {
        KeyCode::Left | KeyCode::Right | KeyCode::Up | KeyCode::Down => true,
        KeyCode::Char(c) => {
            ||| s.state is AwaitingFindChar
            ||| !(is_digit_char(c) && !(c == '0' && current_count_of(s) is None)) && ((s.operator is Some
                && operator_of(c) == s.operator) || motion_of(c) is Some)
        },
        _ => false,
    }
}

/// Feeding `key` stays within `usize`: when it multiplies the counts, their
/// product fits.
pub open spec fn feed_fits(s: ParserState, key: KeyEvent) -> bool {
    uses_count(s, key) ==> count_product(s) <= usize::MAX
}

fn operator_for(c: char) -> (r: Option<Operator>)
    ensures
        r == operator_of(c),
{
    match c {
        'd' => Some(Operator::Delete),
        'c' => Some(Operator::Change),
        'y' => Some(Operator::Yank),
        _ => None,
    }
}

fn motion_for(c: char) -> (r: Option<Motion>)
    ensures
        r == motion_of(c),
{
    match c {
        'h' => Some(Motion::Left),
        'l' => Some(Motion::Right),
        'k' => Some(Motion::Up),
        'j' => Some(Motion::Down),
        'w' => Some(Motion::WordFwd),
        'e' => Some(Motion::WordEnd),
        'b' => Some(Motion::WordBack),
        '0' => Some(Motion::LineStart),
        '^' => Some(Motion::FirstNonBlank),
        '$' => Some(Motion::LineEnd),
        'G' => Some(Motion::FileEnd),
        _ => None,
    }
}

fn action_for(c: char) -> (r: Option<Action>)
    ensures
        r == single_key_action(c),
{
    match c {
        'i' => Some(Action::EnterInsert(InsertKind::Before)),
        'a' => Some(Action::EnterInsert(InsertKind::After)),
        'I' => Some(Action::EnterInsert(InsertKind::LineStart)),
        'A' => Some(Action::EnterInsert(InsertKind::LineEnd)),
        'o' => Some(Action::EnterInsert(InsertKind::OpenBelow)),
        'O' => Some(Action::EnterInsert(InsertKind::OpenAbove)),
        'v' => Some(Action::EnterVisual),
        ':' => Some(Action::EnterCommandLine),
        'x' => Some(Action::Simple(SimpleAction::DeleteChar)),
        'p' => Some(Action::Simple(SimpleAction::PasteAfter)),
        'P' => Some(Action::Simple(SimpleAction::PasteBefore)),
        'J' => Some(Action::Simple(SimpleAction::JoinLines)),
        'u' => Some(Action::Simple(SimpleAction::Undo)),
        _ => None,
    }
}

impl Parser {
    pub fn new() -> (p: Self)
        ensures
            p@ == fresh(),
    {
        Parser { count1: None, count2: None, operator: None, state: State::Start }
    }

    /// Whether feeding `key` would overflow the count arithmetic.
    pub fn count_overflows(&self, key: KeyEvent) -> (r: bool)
        ensures
            r == !feed_fits(self@, key),
    {
        let a = match self.count1 {
            Some(n) => n,
            None => 1,
        };
        let b = match self.count2 {
            Some(n) => n,
            None => 1,
        };
        let fits = a.checked_mul(b).is_some();
        !fits && self.uses_count(key)
    }

    /// Whether feeding `key` multiplies the counts.
    fn uses_count(&self, key: KeyEvent) -> (r: bool)
        ensures
            r == uses_count(self@, key),
    {
        if key.modifiers.control {
            return false;
        }
        match key.code {
            KeyCode::Left | KeyCode::Right | KeyCode::Up | KeyCode::Down => true,
            KeyCode::Char(c) => {
                if let State::AwaitingFindChar { .. } = self.state {
                    return true;
                }
                let digit = '0' <= c && c <= '9' && !(c == '0' && self.current_count().is_none());
                if digit {
                    return false;
                }
                let doubled = match (self.operator, operator_for(c)) {
                    (Some(pending), Some(op)) => pending == op,
                    _ => false,
                };
                doubled || motion_for(c).is_some()
            },
            _ => false,
        }
    }

    /// Takes one key; says whether a command is still being typed, is
    /// complete, or is not a command.
    pub fn feed(&mut self, key: KeyEvent) -> (r: ParseResult)
        requires
            feed_fits(old(self)@, key),
        ensures
            (final(self)@, r) == parse_step(old(self)@, key),
    {
        // Ctrl-chords never participate in the grammar.
        if key.modifiers.control {
            self.reset();
            return match key.code {
                KeyCode::Char('q') => ParseResult::Complete(Action::Simple(SimpleAction::Quit)),
                KeyCode::Char('r') => ParseResult::Complete(Action::Simple(SimpleAction::Redo)),
                _ => ParseResult::Invalid,
            };
        }
        let c = match key.code {
            KeyCode::Char(c) => c,
            KeyCode::Esc => {
                self.reset();
                return ParseResult::Invalid;
            },
            KeyCode::Left => return self.motion(Motion::Left),
            KeyCode::Right => return self.motion(Motion::Right),
            KeyCode::Up => return self.motion(Motion::Up),
            KeyCode::Down => return self.motion(Motion::Down),
            _ => {
                self.reset();
                return ParseResult::Invalid;
            },
        };

        if let State::AwaitingFindChar { till, backward } = self.state {
            self.state = State::Start;
            return self.motion(Motion::Find { target: c, till, backward });
        }
        // `0` is a motion when no count is being typed, and a digit when one is.

        if '0' <= c && c <= '9' && !(c == '0' && self.current_count().is_none()) {
            self.push_digit(c);
            return ParseResult::Pending;
        }
        // A repeated operator means "current line, linewise".

        if let (Some(pending), Some(op)) = (self.operator, operator_for(c)) {
            if pending == op {
                let count = self.effective_count();
                self.reset();
                return ParseResult::Complete(
                    Action::Operate { op: pending, target: Target::CurrentLine(count) },
                );
            }
        }
        if let Some(m) = motion_for(c) {
            return self.motion(m);
        }
        if c == 'f' || c == 't' || c == 'F' || c == 'T' {
            self.state = State::AwaitingFindChar { till: c == 't' || c == 'T', backward: c == 'F' || c == 'T' };
            return ParseResult::Pending;
        }
        if self.operator.is_some() {
            // An operator is pending and this key is not a valid range.
            self.reset();
            return ParseResult::Invalid;
        }
        if let Some(op) = operator_for(c) {
            self.operator = Some(op);
            return ParseResult::Pending;
        }
        let action = match action_for(c) {
            Some(a) => a,
            None => {
                self.reset();
                return ParseResult::Invalid;
            },
        };
        self.reset();
        ParseResult::Complete(action)
    }

    /// Resolve a motion: it either completes a pending operator or moves the cursor.
    fn motion(&mut self, m: Motion) -> (r: ParseResult)
        requires
            count_product(old(self)@) <= usize::MAX,
        ensures
            (final(self)@, r) == motion_step(old(self)@, m),
    {
        let count = self.effective_count();
        let op = self.operator;
        self.reset();
        match op {
            Some(op) => ParseResult::Complete(Action::Operate { op, target: Target::Motion(m, count) }),
            None => ParseResult::Complete(Action::Move(m, count)),
        }
    }

    /// Counts multiply: `2d3w` acts on 6 words, not 2 or 3.
    fn effective_count(&self) -> (n: usize)
        requires
            count_product(self@) <= usize::MAX,
        ensures
            n == count_product(self@),
    {
        let a = match self.count1 {
            Some(n) => n,
            None => 1,
        };
        let b = match self.count2 {
            Some(n) => n,
            None => 1,
        };
        a * b
    }

    /// Digits land in the second slot once an operator has been seen.
    fn current_count(&self) -> (r: Option<usize>)
        ensures
            r == current_count_of(self@),
    {
        if self.operator.is_some() {
            self.count2
        } else {
            self.count1
        }
    }

    fn push_digit(&mut self, c: char)
        requires
            is_digit_char(c),
        ensures
            final(self)@ == with_digit(old(self)@, digit_value(c)),
    {
        let d = (c as u32 - '0' as u32) as usize;
        let old_count = match self.current_count() {
            Some(n) => n,
            None => 0,
        };
        let m = match old_count.checked_mul(10) {
            Some(v) => v,
            None => usize::MAX,
        };
        let n = m.saturating_add(d);
        if self.operator.is_some() {
            self.count2 = Some(n);
        } else {
            self.count1 = Some(n);
        }
    }

    fn reset(&mut self)
        ensures
            final(self)@ == fresh(),
    {
        self.count1 = None;
        self.count2 = None;
        self.operator = None;
        self.state = State::Start;
    }
}

/// Every key that does not leave a command pending (a complete command, or an
/// invalid sequence) leaves the parser as a fresh one.
pub proof fn lemma_reset_after_result(s: ParserState, key: KeyEvent)
    ensures
        parse_step(s, key).1 != ParseResult::Pending ==> parse_step(s, key).0 == fresh(),
{
}

/// Counts multiply: a completed motion, operator-with-motion or doubled
/// operator carries the count typed before the operator times the count typed
/// after it (each 1 when absent).
pub proof fn lemma_counts_multiply(s: ParserState, key: KeyEvent)
    requires
        feed_fits(s, key),
    ensures
        match parse_step(s, key).1 {
            ParseResult::Complete(Action::Move(_, n)) => n == count_product(s),
            ParseResult::Complete(Action::Operate { target: Target::Motion(_, n), .. }) => n == count_product(s),
            ParseResult::Complete(Action::Operate { target: Target::CurrentLine(n), .. }) => n == count_product(s),
            _ => true,
        },
{
}

/// <Esc> cancels whatever is being typed.
pub proof fn lemma_escape_cancels(s: ParserState, key: KeyEvent)
    requires
        key.code == KeyCode::Esc,
    ensures
        parse_step(s, key) == (fresh(), ParseResult::Invalid),
{
}

/// Ctrl-chords never take part in the grammar: they reset the parser and are
/// either quit, redo, or invalid.
pub proof fn lemma_ctrl_chords(s: ParserState, key: KeyEvent)
    requires
        key.modifiers.control,
    ensures
        parse_step(s, key).0 == fresh(),
        parse_step(s, key).1 == ParseResult::Complete(Action::Simple(SimpleAction::Quit))
            || parse_step(s, key).1 == ParseResult::Complete(Action::Simple(SimpleAction::Redo))
            || parse_step(s, key).1 == ParseResult::Invalid,
{
}

/// `0` is a motion when no count is being typed, and a digit when one is.
pub proof fn lemma_zero(s: ParserState, key: KeyEvent)
    requires
        !key.modifiers.control,
        key.code == KeyCode::Char('0'),
        s.state == State::Start,
    ensures
        current_count_of(s) is None ==> parse_step(s, key) == motion_step(s, Motion::LineStart),
        current_count_of(s) matches Some(n) ==> parse_step(s, key) == (
            with_digit(s, 0),
            ParseResult::Pending,
        ) && current_count_of(with_digit(s, 0)) == Some(push_digit_value(n, 0)),
{
}

/// A repeated operator means "current line, linewise".
pub proof fn lemma_doubled_operator(s: ParserState, key: KeyEvent, c: char)
    requires
        !key.modifiers.control,
        key.code == KeyCode::Char(c),
        s.state == State::Start,
        s.operator is Some,
        operator_of(c) == s.operator,
    ensures
        parse_step(s, key) == (
            fresh(),
            ParseResult::Complete(
                Action::Operate {
                    op: s.operator->0,
                    target: Target::CurrentLine(count_product(s) as usize),
                },
            ),
        ),
{
}

/// An operator is never dispatched on its own: typed with nothing pending it
/// waits for its range.
pub proof fn lemma_operator_waits(s: ParserState, key: KeyEvent, c: char)
    requires
        !key.modifiers.control,
        key.code == KeyCode::Char(c),
        s.state == State::Start,
        s.operator is None,
        operator_of(c) is Some,
    ensures
        parse_step(s, key) == (ParserState { operator: operator_of(c), ..s }, ParseResult::Pending),
{
}

/// The action a completed motion gives: it moves, or it is the range of the
/// pending operator; either way it carries the product of the counts.
pub open spec fn completed(s: ParserState, m: Motion) -> ParseResult {
    let n = count_product(s) as usize;
    match s.operator {
        Some(op) => ParseResult::Complete(Action::Operate { op, target: Target::Motion(m, n) }),
        None => ParseResult::Complete(Action::Move(m, n)),
    }
}

/// The keys that complete a command on their own, with nothing pending: `i`
/// `a` `I` `A` insert before, after, at line start, at line end; `o` `O` open
/// a line below, above; `v` visual; `:` command line; `x` delete a char; `p`
/// paste after, `P` paste before; `J` join lines; `u` undo.
pub proof fn lemma_single_key_commands(s: ParserState, key: KeyEvent, c: char)
    requires
        !key.modifiers.control,
        key.code == KeyCode::Char(c),
        s.state == State::Start,
        s.operator is None,
    ensures
        c == 'i' ==> parse_step(s, key) == (fresh(), ParseResult::Complete(Action::EnterInsert(InsertKind::Before))),
        c == 'a' ==> parse_step(s, key) == (fresh(), ParseResult::Complete(Action::EnterInsert(InsertKind::After))),
        c == 'I' ==> parse_step(s, key) == (fresh(), ParseResult::Complete(Action::EnterInsert(InsertKind::LineStart))),
        c == 'A' ==> parse_step(s, key) == (fresh(), ParseResult::Complete(Action::EnterInsert(InsertKind::LineEnd))),
        c == 'o' ==> parse_step(s, key) == (fresh(), ParseResult::Complete(Action::EnterInsert(InsertKind::OpenBelow))),
        c == 'O' ==> parse_step(s, key) == (fresh(), ParseResult::Complete(Action::EnterInsert(InsertKind::OpenAbove))),
        c == 'v' ==> parse_step(s, key) == (fresh(), ParseResult::Complete(Action::EnterVisual)),
        c == ':' ==> parse_step(s, key) == (fresh(), ParseResult::Complete(Action::EnterCommandLine)),
        c == 'x' ==> parse_step(s, key) == (fresh(), ParseResult::Complete(Action::Simple(SimpleAction::DeleteChar))),
        c == 'p' ==> parse_step(s, key) == (fresh(), ParseResult::Complete(Action::Simple(SimpleAction::PasteAfter))),
        c == 'P' ==> parse_step(s, key) == (fresh(), ParseResult::Complete(Action::Simple(SimpleAction::PasteBefore))),
        c == 'J' ==> parse_step(s, key) == (fresh(), ParseResult::Complete(Action::Simple(SimpleAction::JoinLines))),
        c == 'u' ==> parse_step(s, key) == (fresh(), ParseResult::Complete(Action::Simple(SimpleAction::Undo))),
{
}

/// The motion keys: `h` `l` `k` `j` left, right, up, down; `w` next word
/// start, `e` word end, `b` previous word start; `^` first non-blank; `$` line
/// end; `G` file end. Each completes a move, or the pending operator's range.
pub proof fn lemma_motion_keys(s: ParserState, key: KeyEvent, c: char)
    requires
        !key.modifiers.control,
        key.code == KeyCode::Char(c),
        s.state == State::Start,
        s.operator is None || operator_of(c) != s.operator,
    ensures
        c == 'h' ==> parse_step(s, key) == (fresh(), completed(s, Motion::Left)),
        c == 'l' ==> parse_step(s, key) == (fresh(), completed(s, Motion::Right)),
        c == 'k' ==> parse_step(s, key) == (fresh(), completed(s, Motion::Up)),
        c == 'j' ==> parse_step(s, key) == (fresh(), completed(s, Motion::Down)),
        c == 'w' ==> parse_step(s, key) == (fresh(), completed(s, Motion::WordFwd)),
        c == 'e' ==> parse_step(s, key) == (fresh(), completed(s, Motion::WordEnd)),
        c == 'b' ==> parse_step(s, key) == (fresh(), completed(s, Motion::WordBack)),
        c == '^' ==> parse_step(s, key) == (fresh(), completed(s, Motion::FirstNonBlank)),
        c == '$' ==> parse_step(s, key) == (fresh(), completed(s, Motion::LineEnd)),
        c == 'G' ==> parse_step(s, key) == (fresh(), completed(s, Motion::FileEnd)),
        c == '0' && current_count_of(s) is None ==> parse_step(s, key) == (fresh(), completed(s, Motion::LineStart)),
{
}

/// The operator keys: `d` delete, `c` change, `y` yank; each waits for its range.
pub proof fn lemma_operator_keys(s: ParserState, key: KeyEvent, c: char)
    requires
        !key.modifiers.control,
        key.code == KeyCode::Char(c),
        s.state == State::Start,
        s.operator is None,
    ensures
        c == 'd' ==> parse_step(s, key) == (ParserState { operator: Some(Operator::Delete), ..s }, ParseResult::Pending),
        c == 'c' ==> parse_step(s, key) == (ParserState { operator: Some(Operator::Change), ..s }, ParseResult::Pending),
        c == 'y' ==> parse_step(s, key) == (ParserState { operator: Some(Operator::Yank), ..s }, ParseResult::Pending),
{
}

/// `f` finds forward, `t` stops before the target going forward, `F` finds
/// backward, `T` stops before it going backward; the next key is the target.
pub proof fn lemma_find_keys(s: ParserState, key: KeyEvent, c: char, target: KeyEvent, t: char)
    requires
        !key.modifiers.control,
        key.code == KeyCode::Char(c),
        s.state == State::Start,
        !target.modifiers.control,
        target.code == KeyCode::Char(t),
    ensures
        c == 'f' ==> parse_step(s, key).1 == ParseResult::Pending && parse_step(parse_step(s, key).0, target)
            == (fresh(), completed(s, Motion::Find { target: t, till: false, backward: false })),
        c == 't' ==> parse_step(s, key).1 == ParseResult::Pending && parse_step(parse_step(s, key).0, target)
            == (fresh(), completed(s, Motion::Find { target: t, till: true, backward: false })),
        c == 'F' ==> parse_step(s, key).1 == ParseResult::Pending && parse_step(parse_step(s, key).0, target)
            == (fresh(), completed(s, Motion::Find { target: t, till: false, backward: true })),
        c == 'T' ==> parse_step(s, key).1 == ParseResult::Pending && parse_step(parse_step(s, key).0, target)
            == (fresh(), completed(s, Motion::Find { target: t, till: true, backward: true })),
{
}

/// A digit key appends its digit to the count being typed, in base ten: the
/// count becomes ten times what it was plus the digit (when that fits).
pub proof fn lemma_digits_build_counts(s: ParserState, key: KeyEvent, c: char, d: nat)
    requires
        !key.modifiers.control,
        key.code == KeyCode::Char(c),
        s.state == State::Start,
        '0' <= c <= '9',
        c as int == '0' as int + d,
        c != '0' || current_count_of(s) is Some,
    ensures
        parse_step(s, key).1 == ParseResult::Pending,
        parse_step(s, key).0.operator == s.operator,
        ({
            let before: int = match current_count_of(s) {
                Some(n) => n as int,
                None => 0,
            };
            before * 10 + d <= usize::MAX ==> current_count_of(parse_step(s, key).0) == Some(
                (before * 10 + d) as usize,
            )
        }),
{
}

/// The kind of each motion: vertical and whole-file motions are linewise;
/// word end, line end and a find onto its target are inclusive; the rest,
/// a till find among them, are exclusive.
pub proof fn lemma_motion_kinds(target: char, till: bool, backward: bool)
    ensures
        kind_of(Motion::Up) == MotionKind::Linewise,
        kind_of(Motion::Down) == MotionKind::Linewise,
        kind_of(Motion::FileStart) == MotionKind::Linewise,
        kind_of(Motion::FileEnd) == MotionKind::Linewise,
        kind_of(Motion::WordEnd) == MotionKind::Inclusive,
        kind_of(Motion::LineEnd) == MotionKind::Inclusive,
        kind_of(Motion::Find { target, till: false, backward }) == MotionKind::Inclusive,
        kind_of(Motion::Find { target, till: true, backward }) == MotionKind::Exclusive,
        kind_of(Motion::Left) == MotionKind::Exclusive,
        kind_of(Motion::Right) == MotionKind::Exclusive,
        kind_of(Motion::WordFwd) == MotionKind::Exclusive,
        kind_of(Motion::WordBack) == MotionKind::Exclusive,
        kind_of(Motion::LineStart) == MotionKind::Exclusive,
        kind_of(Motion::FirstNonBlank) == MotionKind::Exclusive,
{
}

} // verus!
