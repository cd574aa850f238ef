use vstd::prelude::*;

use crate::buffer::{
    lines_fit,
    is_valid_pos, lemma_insert_then_remove, lemma_open_then_join,
    line_len_of, with_char_inserted, with_char_removed, with_line_opened, with_lines_joined, Buffer,
};
use crate::cursor::{down_of, left_of, right_of, up_of, Cursor};
use crate::input::{
    parse_step, feed_fits, Action, InsertKind, Motion, MotionLocation, Operator, ParseResult, Parser,
    ParserState, SimpleAction, Target,
};
use crate::key::{KeyCode, KeyEvent, KeyEventKind};
use crate::pos::Pos;
use crate::view::{render_fits, rendered, Frame, View};
use vstd::view::View as _;
use crate::walker::Direction;
use crate::words::{lemma_word_target_order, pos_le, can_test_boundary, boundary_test_defined, lemma_search_defined_from_start, word_target};

verus! {

#[derive(Debug, Clone, Copy, PartialEq, Eq, Structural)]
pub enum Mode {
    Normal,
    Insert,
    Visual,
    Command,
}

/// The terminal cursor shape a key asks for: a block in normal mode, a bar
/// while inserting.
#[derive(Debug, Clone, Copy, PartialEq, Eq, Structural)]
pub enum CursorStyle {
    Block,
    Bar,
}

/// The editor: a buffer, a cursor in it, the view onto it, the normal-mode
/// parser, and the current mode.
pub struct Editor {
    buffer: Buffer,
    cursor: Cursor,
    view: View,
    parser: Parser,
    should_quit: bool,
    mode: Mode,
}

/// Ctrl-q: quits from any mode.
pub open spec fn is_quit_chord(key: KeyEvent) -> bool {
    key.code == KeyCode::Char('q') && key.modifiers.control
}

/// Joining line `from` onto line `to` stays within `usize`.
pub open spec fn join_fits(lines: Seq<Seq<char>>, from: int, to: int) -> bool {
    0 <= from < lines.len() && 0 <= to < lines.len() ==> lines[to].len() + lines[from].len() <= usize::MAX
}

/// Opening a line before line `row` stays within `usize`.
pub open spec fn open_fits(lines: Seq<Seq<char>>, row: int) -> bool {
    0 <= row < lines.len() ==> lines.len() < usize::MAX
}

/// The key can be handled in insert mode at `pos`: no count overflows, no
/// char is removed or inserted outside its line.
pub open spec fn insert_key_defined(lines: Seq<Seq<char>>, pos: Pos, key: KeyEvent) -> bool {
    match key.code {
        KeyCode::Backspace => if pos.col == 0 {
            pos.row > 0 && join_fits(lines, pos.row as int, pos.row - 1)
        } else {
            pos.row < lines.len() ==> pos.col - 1 < lines[pos.row as int].len()
        },
        KeyCode::Delete => if pos.col == line_len_of(lines, pos.row as int) {
            pos.row < usize::MAX && join_fits(lines, pos.row + 1, pos.row as int)
        } else {
            pos.row < lines.len() ==> pos.col < lines[pos.row as int].len()
        },
        KeyCode::Enter => pos.row < usize::MAX && open_fits(lines, pos.row + 1),
        KeyCode::Down => pos.row < usize::MAX,
        KeyCode::Char(_) => !key.modifiers.control ==> (pos.row < lines.len() ==> pos.col
            <= lines[pos.row as int].len() && lines[pos.row as int].len() < usize::MAX),
        _ => true,
    }
}

/// The motion can be carried out from `pos`.
pub open spec fn motion_defined(lines: Seq<Seq<char>>, pos: Pos, m: Motion) -> bool {
    match m {
        Motion::Down => pos.row < usize::MAX,
        Motion::WordFwd | Motion::WordBack => boundary_test_defined(lines, pos, MotionLocation::Start),
        Motion::WordEnd => boundary_test_defined(lines, pos, MotionLocation::End),
        Motion::FileEnd => lines.len() >= 2 && lines[lines.len() - 2].len() >= 1,
        _ => true,
    }
}

/// The action can be carried out with the cursor at `pos`.
pub open spec fn action_defined(lines: Seq<Seq<char>>, pos: Pos, a: Action) -> bool {
    match a {
        Action::Move(m, _) => motion_defined(lines, pos, m),
        Action::EnterInsert(InsertKind::OpenBelow) => pos.row < usize::MAX && open_fits(lines, pos.row + 1),
        Action::EnterInsert(InsertKind::OpenAbove) => open_fits(lines, pos.row as int),
        _ => true,
    }
}

/// The word motion that each word key makes.
pub open spec fn word_motion(m: Motion) -> (Direction, MotionLocation) {
    match m {
        Motion::WordBack => (Direction::Backward, MotionLocation::Start),
        Motion::WordEnd => (Direction::Forward, MotionLocation::End),
        _ => (Direction::Forward, MotionLocation::Start),
    }
}

/// The cursor `after` is where motion `m` takes the cursor `before`.
pub open spec fn moved(lines: Seq<Seq<char>>, before: Cursor, after: Cursor, m: Motion) -> bool {
    match m {
        Motion::Left => after.at() == left_of(before.at()) && after.desired() == after.at().col,
        Motion::Right => after.at() == right_of(lines, before.at()) && after.desired() == after.at().col,
        Motion::Up => after.at() == up_of(lines, before.at(), before.desired()) && after.desired()
            == before.desired(),
        Motion::Down => after.at() == down_of(lines, before.at(), before.desired()) && after.desired()
            == before.desired(),
        Motion::WordFwd | Motion::WordEnd | Motion::WordBack => word_target(
            lines,
            before.at(),
            word_motion(m).0,
            word_motion(m).1,
            false,
            after.at(),
        ) && after.desired() == before.desired(),
        Motion::LineStart => after.at() == (Pos { row: before.at().row, col: 0 }) && after.desired()
            == before.desired(),
        Motion::LineEnd => after.at() == (Pos {
            row: before.at().row,
            col: line_len_of(lines, before.at().row as int) as usize,
        }) && after.desired() == before.desired(),
        Motion::FileEnd => after.at() == (Pos {
            row: (lines.len() - 1) as usize,
            col: (lines[lines.len() - 2].len() - 1) as usize,
        }) && after.desired() == before.desired(),
        Motion::FileStart => after.at() == (Pos { row: 0, col: 0 }) && after.desired() == before.desired(),
        Motion::FirstNonBlank | Motion::Find { .. } => after.at() == before.at() && after.desired()
            == before.desired(),
    }
}

/// The buffer's file name and modified flag are kept.
pub open spec fn same_file(before: Editor, after: Editor) -> bool {
    &&& after.buffer_of().file_name_of() == before.buffer_of().file_name_of()
    &&& after.buffer_of().modified_flag() == before.buffer_of().modified_flag()
}

/// The cursor did not move.
pub open spec fn unmoved(before: Cursor, after: Cursor) -> bool {
    after.at() == before.at() && after.desired() == before.desired()
}

impl Editor {
    pub closed spec fn lines(&self) -> Seq<Seq<char>> {
        self.buffer@
    }

    pub closed spec fn buffer_of(&self) -> Buffer {
        self.buffer
    }

    pub closed spec fn cursor_of(&self) -> Cursor {
        self.cursor
    }

    pub closed spec fn view_of(&self) -> View {
        self.view
    }

    pub closed spec fn parser_state(&self) -> ParserState {
        self.parser@
    }

    pub closed spec fn mode_of(&self) -> Mode {
        self.mode
    }

    pub closed spec fn quitting(&self) -> bool {
        self.should_quit
    }

    /// The editor's invariant: its buffer's.
    pub open spec fn wf(&self) -> bool {
        self.buffer_of().wf() && self.buffer_of()@ == self.lines()
    }

    /// Handling `key` is defined: no count overflows, no index leaves its
    /// line, no subtraction goes below zero, no count outgrows a `usize`.
    pub open spec fn key_defined(&self, key: KeyEvent) -> bool {
        let pos = self.cursor_of().at();
        if is_quit_chord(key) || key.kind == KeyEventKind::Release {
            true
        } else if self.mode_of() == Mode::Insert {
            insert_key_defined(self.lines(), pos, key)
        } else {
            &&& feed_fits(self.parser_state(), key)
            &&& parse_step(self.parser_state(), key).1 matches ParseResult::Complete(a) ==> action_defined(
                self.lines(),
                pos,
                a,
            )
        }
    }
}

/// What a key does in insert mode: to the lines, the cursor, the mode, and
/// the cursor shape it asks for.
pub open spec fn insert_key_effect(before: Editor, after: Editor, key: KeyEvent, r: Option<CursorStyle>) -> bool {
    let lines = before.lines();
    let c = before.cursor_of();
    let pos = c.at();
    let c2 = after.cursor_of();
    let unchanged = after.lines() == lines && unmoved(c, c2) && after.mode_of() == before.mode_of() && r is None;
    match key.code {
        KeyCode::Esc => after.mode_of() == Mode::Normal && after.lines() == lines && unmoved(c, c2) && r
            == Some(CursorStyle::Block),
        KeyCode::Backspace => after.mode_of() == before.mode_of() && r is None && if pos.col == 0 {
            &&& after.lines() == with_lines_joined(lines, pos.row as int, pos.row - 1)
            &&& c2.at() == (Pos { row: (pos.row - 1) as usize, col: line_len_of(lines, pos.row - 1) as usize })
            &&& c2.desired() == c.desired()
        } else {
            &&& after.lines() == with_char_removed(lines, Pos { row: pos.row, col: (pos.col - 1) as usize })
            &&& moved(lines, c, c2, Motion::Left)
        },
        KeyCode::Delete => after.mode_of() == before.mode_of() && r is None && if pos.col == line_len_of(
            lines,
            pos.row as int,
        ) {
            &&& after.lines() == with_lines_joined(lines, pos.row + 1, pos.row as int)
            &&& c2.at() == (Pos { row: pos.row, col: line_len_of(lines, pos.row as int) as usize })
            &&& c2.desired() == c.desired()
        } else {
            after.lines() == with_char_removed(lines, pos) && unmoved(c, c2)
        },
        KeyCode::Enter => {
            &&& after.lines() == with_line_opened(lines, pos.row + 1)
            &&& c2.at() == (Pos { row: (pos.row + 1) as usize, col: 0 })
            &&& c2.desired() == c.desired()
            &&& after.mode_of() == before.mode_of()
            &&& r is None
        },
        KeyCode::Left => after.lines() == lines && moved(lines, c, c2, Motion::Left) && after.mode_of()
            == before.mode_of() && r is None,
        KeyCode::Right => after.lines() == lines && moved(lines, c, c2, Motion::Right) && after.mode_of()
            == before.mode_of() && r is None,
        KeyCode::Up => after.lines() == lines && moved(lines, c, c2, Motion::Up) && after.mode_of()
            == before.mode_of() && r is None,
        KeyCode::Down => after.lines() == lines && moved(lines, c, c2, Motion::Down) && after.mode_of()
            == before.mode_of() && r is None,
        KeyCode::Char(ch) => if !key.modifiers.control {
            let new_lines = with_char_inserted(lines, pos.row as int, pos.col as int, ch);
            &&& after.lines() == new_lines
            &&& moved(new_lines, c, c2, Motion::Right)
            &&& after.mode_of() == before.mode_of()
            &&& r is None
        } else {
            unchanged
        },
        _ => unchanged,
    }
}

/// What a completed normal-mode action does.
pub open spec fn apply_effect(before: Editor, after: Editor, a: Action, r: Option<CursorStyle>) -> bool {
    let lines = before.lines();
    let c = before.cursor_of();
    let pos = c.at();
    let c2 = after.cursor_of();
    match a {
        Action::Move(m, _) => after.lines() == lines && moved(lines, c, c2, m) && after.mode_of()
            == before.mode_of() && r is None,
        Action::EnterInsert(kind) => {
            &&& after.mode_of() == Mode::Insert
            &&& r == Some(CursorStyle::Bar)
            &&& match kind {
                InsertKind::OpenBelow => after.lines() == with_line_opened(lines, pos.row + 1) && c2.at() == (Pos {
                    row: (pos.row + 1) as usize,
                    col: 0,
                }) && c2.desired() == c.desired(),
                InsertKind::OpenAbove => after.lines() == with_line_opened(lines, pos.row as int) && c2.at() == (
                Pos { row: pos.row, col: 0 }) && c2.desired() == c.desired(),
                _ => after.lines() == lines && unmoved(c, c2),
            }
        },
        Action::EnterVisual => after.mode_of() == Mode::Visual && after.lines() == lines && unmoved(c, c2)
            && r is None,
        Action::EnterCommandLine => after.mode_of() == Mode::Command && after.lines() == lines && unmoved(
            c,
            c2,
        ) && r is None,
        Action::Operate { .. } | Action::Simple(_) => after.mode_of() == before.mode_of() && after.lines()
            == lines && unmoved(c, c2) && r is None,
    }
}

impl Editor {
    /// An editor over an empty buffer, in normal mode, for a terminal of
    /// `terminal_size` (`(columns, rows)`, when known).
    pub fn default(terminal_size: Option<(u16, u16)>) -> (e: Self)
        ensures
            e.wf(),
            e.lines() == seq![Seq::<char>::empty()],
            e.buffer_of().file_name_of() is None,
            e.cursor_of().at() == (Pos { row: 0, col: 0 }),
            e.cursor_of().desired() == 0,
            e.parser_state() == crate::input::fresh(),
            e.mode_of() == Mode::Normal,
            !e.quitting(),
            e.view_of().dirty(),
    {
        Editor::with_buffer(Buffer::empty(), terminal_size)
    }

    /// An editor over `buffer`, otherwise as `default`.
    pub fn with_buffer(buffer: Buffer, terminal_size: Option<(u16, u16)>) -> (e: Self)
        requires
            buffer.wf(),
        ensures
            e.wf(),
            e.buffer_of() == buffer,
            e.lines() == buffer@,
            e.cursor_of().at() == (Pos { row: 0, col: 0 }),
            e.cursor_of().desired() == 0,
            e.parser_state() == crate::input::fresh(),
            e.mode_of() == Mode::Normal,
            !e.quitting(),
            e.view_of().dirty(),
    {
        Editor {
            buffer,
            cursor: Cursor::default(),
            view: View::new(terminal_size),
            parser: Parser::new(),
            should_quit: false,
            mode: Mode::Normal,
        }
    }

    pub fn buffer(&self) -> (b: &Buffer)
        ensures
            *b == self.buffer_of(),
    {
        &self.buffer
    }

    pub fn cursor(&self) -> (c: &Cursor)
        ensures
            *c == self.cursor_of(),
    {
        &self.cursor
    }

    pub fn mode(&self) -> (m: Mode)
        ensures
            m == self.mode_of(),
    {
        self.mode
    }

    pub fn should_quit(&self) -> (q: bool)
        ensures
            q == self.quitting(),
    {
        self.should_quit
    }

    /// The terminal changed size.
    pub fn resize(&mut self, width: u16, height: u16)
        requires
            old(self).wf(),
        ensures
            final(self).wf(),
            final(self).view_of().size_of() == (crate::view::Size { width: width as usize, height: height as usize }),
            final(self).view_of().offset_of() == old(self).view_of().offset_of(),
            final(self).view_of().dirty(),
            final(self).lines() == old(self).lines(),
            final(self).buffer_of() == old(self).buffer_of(),
            final(self).cursor_of() == old(self).cursor_of(),
            final(self).parser_state() == old(self).parser_state(),
            final(self).mode_of() == old(self).mode_of(),
            final(self).quitting() == old(self).quitting(),
    {
        self.view.resize(width, height);
    }

    /// Whether `render` stays within `usize` now.
    pub fn can_render(&self) -> (r: bool)
        ensures
            r == (self.view_of().dirty() && self.view_of().size_of().height > 0 ==> render_fits(
                self.view_of().offset_of(),
                self.view_of().size_of(),
                self.cursor_of().at(),
                self.lines().len(),
            )),
    {
        self.view.can_render(&self.buffer, &self.cursor)
    }

    /// What to draw, when a redraw is due.
    pub fn render(&mut self) -> (r: Option<Frame>)
        requires
            old(self).wf(),
            old(self).view_of().dirty() && old(self).view_of().size_of().height > 0 ==> render_fits(
                old(self).view_of().offset_of(),
                old(self).view_of().size_of(),
                old(self).cursor_of().at(),
                old(self).lines().len(),
            ),
        ensures
            final(self).wf(),
            rendered(old(self).view_of(), final(self).view_of(), old(self).buffer_of(), old(self).cursor_of().at(), r),
            final(self).lines() == old(self).lines(),
            final(self).buffer_of() == old(self).buffer_of(),
            final(self).cursor_of() == old(self).cursor_of(),
            final(self).parser_state() == old(self).parser_state(),
            final(self).mode_of() == old(self).mode_of(),
            final(self).quitting() == old(self).quitting(),
    {
        self.view.render(&self.buffer, &self.cursor)
    }
}

impl Editor {
    /// Handles one key event; returns the terminal cursor shape it asks for.
    pub fn handle_key(&mut self, key: KeyEvent) -> (r: Option<CursorStyle>)
        requires
            old(self).wf(),
            old(self).key_defined(key),
        ensures
            final(self).wf(),
            final(self).view_of().size_of() == old(self).view_of().size_of(),
            final(self).view_of().offset_of() == old(self).view_of().offset_of(),
            final(self).view_of().dirty() == (old(self).view_of().dirty() || final(self).lines() != old(
                self,
            ).lines() || final(self).cursor_of().at() != old(self).cursor_of().at() || final(self).mode_of()
                != old(self).mode_of()),
            same_file(*old(self), *final(self)),
            is_quit_chord(key) ==> {
                &&& final(self).quitting()
                &&& final(self).lines() == old(self).lines()
                &&& unmoved(old(self).cursor_of(), final(self).cursor_of())
                &&& final(self).mode_of() == old(self).mode_of()
                &&& final(self).parser_state() == old(self).parser_state()
                &&& r is None
            },
            !is_quit_chord(key) && key.kind == KeyEventKind::Release ==> {
                &&& final(self).quitting() == old(self).quitting()
                &&& final(self).lines() == old(self).lines()
                &&& unmoved(old(self).cursor_of(), final(self).cursor_of())
                &&& final(self).mode_of() == old(self).mode_of()
                &&& final(self).parser_state() == old(self).parser_state()
                &&& r is None
            },
            !is_quit_chord(key) && key.kind != KeyEventKind::Release && old(self).mode_of() == Mode::Insert
                ==> {
                &&& insert_key_effect(*old(self), *final(self), key, r)
                &&& final(self).parser_state() == old(self).parser_state()
                &&& final(self).quitting() == old(self).quitting()
            },
            !is_quit_chord(key) && key.kind != KeyEventKind::Release && old(self).mode_of() != Mode::Insert
                ==> {
                &&& final(self).parser_state() == parse_step(old(self).parser_state(), key).0
                &&& final(self).quitting() == old(self).quitting()
                &&& match parse_step(old(self).parser_state(), key).1 {
                    ParseResult::Complete(a) => apply_effect(*old(self), *final(self), a, r),
                    _ => final(self).lines() == old(self).lines() && unmoved(
                        old(self).cursor_of(),
                        final(self).cursor_of(),
                    ) && final(self).mode_of() == old(self).mode_of() && r is None,
                }
            },
    {
        // temporary exit for now
        if key.code == KeyCode::Char('q') && key.modifiers.control {
            self.should_quit = true;
            return None;
        }
        // ignore key up events

        if key.kind == KeyEventKind::Release {
            return None;
        }
        let cursor_before = self.cursor.location();
        let mode_before = self.mode;
        let (style, edited) = if self.mode == Mode::Insert {
            self.insert_key(key)
        } else {
            match self.parser.feed(key) {
                ParseResult::Complete(action) => self.apply(action),
                ParseResult::Pending => (None, false),
                ParseResult::Invalid => (None, false),  // later: bell, or clear a pending-command display
            }
        };
        // Anything that changes what's on screen marks the view for a redraw.
        if edited || self.cursor.location() != cursor_before || self.mode != mode_before {
            self.view.mark_dirty();
        }
        style
    }

    /// Handles a key in insert mode; also says whether the lines changed.
    fn insert_key(&mut self, key: KeyEvent) -> (r: (Option<CursorStyle>, bool))
        requires
            old(self).wf(),
            insert_key_defined(old(self).lines(), old(self).cursor_of().at(), key),
        ensures
            final(self).wf(),
            final(self).view_of() == old(self).view_of(),
            insert_key_effect(*old(self), *final(self), key, r.0),
            r.1 == (final(self).lines() != old(self).lines()),
            same_file(*old(self), *final(self)),
            final(self).parser_state() == old(self).parser_state(),
            final(self).quitting() == old(self).quitting(),
    {
        let pos = self.cursor.location();
        let n = self.buffer.len();
        let ghost lines = self.buffer@;
        match key.code {
            KeyCode::Esc => {
                self.mode = Mode::Normal;
                (Some(CursorStyle::Block), false)
            },
            KeyCode::Backspace => {
                if pos.col == 0 {
                    let end_of_target_line = self.buffer.line_len(pos.row - 1);
                    self.buffer.append_lines(pos.row, pos.row - 1);
                    self.cursor.go_to(Pos::new(pos.row - 1, end_of_target_line));
                    assert(pos.row < n ==> self.buffer@.len() == lines.len() - 1);
                    (None, pos.row < n)
                } else {
                    self.buffer.remove_char_at(Pos::new(pos.row, pos.col - 1));
                    // move the cursor back one position
                    self.cursor.move_left();
                    assert(pos.row < n ==> self.buffer@[pos.row as int].len() == lines[pos.row as int].len() - 1);
                    (None, pos.row < n)
                }
            },
            // when on pos col: 0 you shouldn't delete the entire line.
            KeyCode::Delete => {
                if pos.col == self.buffer.line_len(pos.row) {
                    let end_of_target_line = self.buffer.line_len(pos.row);
                    self.buffer.append_lines(pos.row + 1, pos.row);
                    self.cursor.go_to(Pos::new(pos.row, end_of_target_line));
                    assert(pos.row + 1 < n ==> self.buffer@.len() == lines.len() - 1);
                    (None, pos.row + 1 < n)
                } else {
                    self.buffer.remove_char_at(Pos::new(pos.row, pos.col));
                    assert(pos.row < n ==> self.buffer@[pos.row as int].len() == lines[pos.row as int].len() - 1);
                    (None, pos.row < n)
                }
            },
            KeyCode::Enter => {
                self.new_line_below(pos.row);
                assert(pos.row + 1 < n ==> self.buffer@.len() == lines.len() + 1);
                (None, pos.row + 1 < n)
            },
            KeyCode::Left => {
                self.cursor.move_left();
                (None, false)
            },
            KeyCode::Right => {
                self.cursor.move_right(&self.buffer);
                (None, false)
            },
            KeyCode::Up => {
                self.cursor.move_up(&self.buffer);
                (None, false)
            },
            KeyCode::Down => {
                self.cursor.move_down(&self.buffer);
                (None, false)
            },
            // Ctrl-chords arrive as plain `Char`s; typing one must not insert its letter.
            KeyCode::Char(c) => {
                if !key.modifiers.control {
                    self.buffer.insert_char_at(pos.row, pos.col, c);
                    self.cursor.move_right(&self.buffer);
                    assert(pos.row < n ==> self.buffer@[pos.row as int].len() == lines[pos.row as int].len() + 1);
                    (None, pos.row < n)
                } else {
                    (None, false)
                }
            },
            _ => (None, false),
        }
    }

    /// Carries out a completed normal-mode action; also says whether the lines
    /// changed.
    fn apply(&mut self, action: Action) -> (r: (Option<CursorStyle>, bool))
        requires
            old(self).wf(),
            action_defined(old(self).lines(), old(self).cursor_of().at(), action),
        ensures
            final(self).wf(),
            final(self).view_of() == old(self).view_of(),
            apply_effect(*old(self), *final(self), action, r.0),
            r.1 == (final(self).lines() != old(self).lines()),
            same_file(*old(self), *final(self)),
            final(self).parser_state() == old(self).parser_state(),
            final(self).quitting() == old(self).quitting(),
    {
        match action {
            Action::Move(motion, count) => {
                self.handle_movement(motion, count);
                (None, false)
            },
            Action::Operate { op, target } => {
                self.handle_operation(op, target);
                (None, false)
            },
            Action::EnterInsert(kind) => self.enter_insert(kind),
            Action::EnterVisual => {
                self.mode = Mode::Visual;
                (None, false)
            },
            Action::EnterCommandLine => {
                self.mode = Mode::Command;
                (None, false)
            },
            Action::Simple(s) => {
                self.handle_simple(s);
                (None, false)
            },
        }
    }

    fn handle_movement(&mut self, motion: Motion, _count: usize)
        requires
            old(self).wf(),
            motion_defined(old(self).lines(), old(self).cursor_of().at(), motion),
        ensures
            final(self).wf(),
            final(self).view_of() == old(self).view_of(),
            final(self).lines() == old(self).lines(),
            final(self).buffer_of() == old(self).buffer_of(),
            moved(old(self).lines(), old(self).cursor_of(), final(self).cursor_of(), motion),
            final(self).mode_of() == old(self).mode_of(),
            final(self).parser_state() == old(self).parser_state(),
            final(self).quitting() == old(self).quitting(),
    {
        proof {
            let (dir, location) = word_motion(motion);
            if boundary_test_defined(self.buffer@, self.cursor.at(), location) {
                lemma_search_defined_from_start(self.buffer@, self.cursor.at(), dir, location, false);
            }
        }
        match motion {
            Motion::Left => self.cursor.move_left(),
            Motion::Right => self.cursor.move_right(&self.buffer),
            Motion::Up => self.cursor.move_up(&self.buffer),
            Motion::Down => self.cursor.move_down(&self.buffer),
            Motion::WordFwd => self.cursor.to_word(&self.buffer, Direction::Forward, MotionLocation::Start, false),
            Motion::WordEnd => self.cursor.to_word(&self.buffer, Direction::Forward, MotionLocation::End, false),
            Motion::WordBack => self.cursor.to_word(&self.buffer, Direction::Backward, MotionLocation::Start, false),
            Motion::LineStart => self.cursor.to_line_start(),
            Motion::LineEnd => self.cursor.to_line_end(&self.buffer),
            // not implemented yet
            Motion::FirstNonBlank => {},
            Motion::FileEnd => {
                let last_line = self.buffer.line(self.buffer.len() - 2);
                if let Some(last_line) = last_line {
                    self.cursor.go_to(Pos::new(self.buffer.len() - 1, last_line.unicode_len() - 1))
                }
            },
            Motion::FileStart => self.cursor.go_to(Pos::new(0, 0)),
            Motion::Find { .. } => {},
        }
    }

    fn handle_operation(&mut self, _op: Operator, _target: Target)
        ensures
            *final(self) == *old(self),
    {
    }

    fn enter_insert(&mut self, kind: InsertKind) -> (r: (Option<CursorStyle>, bool))
        requires
            old(self).wf(),
            action_defined(old(self).lines(), old(self).cursor_of().at(), Action::EnterInsert(kind)),
        ensures
            final(self).wf(),
            final(self).view_of() == old(self).view_of(),
            apply_effect(*old(self), *final(self), Action::EnterInsert(kind), r.0),
            r.1 == (final(self).lines() != old(self).lines()),
            same_file(*old(self), *final(self)),
            final(self).parser_state() == old(self).parser_state(),
            final(self).quitting() == old(self).quitting(),
    {
        let pos = self.cursor.location();
        let n = self.buffer.len();
        let ghost lines = self.buffer@;
        self.mode = Mode::Insert;
        let edited = match kind {
            InsertKind::Before => false,
            InsertKind::After => false,
            InsertKind::LineStart => false,
            InsertKind::LineEnd => false,
            InsertKind::OpenBelow => {
                self.new_line_below(pos.row);
                assert(pos.row + 1 < n ==> self.buffer@.len() == lines.len() + 1);
                pos.row + 1 < n
            },
            InsertKind::OpenAbove => {
                self.new_line_above(pos.row);
                assert(pos.row < n ==> self.buffer@.len() == lines.len() + 1);
                pos.row < n
            },
        };
        (Some(CursorStyle::Bar), edited)
    }

    fn handle_simple(&mut self, _s: SimpleAction)
        ensures
            *final(self) == *old(self),
    {
    }

    fn go_to_new_line_at(&mut self, row: usize)
        requires
            old(self).wf(),
            open_fits(old(self).lines(), row as int),
        ensures
            final(self).wf(),
            final(self).view_of() == old(self).view_of(),
            final(self).lines() == with_line_opened(old(self).lines(), row as int),
            final(self).cursor_of().at() == (Pos { row, col: 0 }),
            final(self).cursor_of().desired() == old(self).cursor_of().desired(),
            final(self).mode_of() == old(self).mode_of(),
            final(self).parser_state() == old(self).parser_state(),
            same_file(*old(self), *final(self)),
            final(self).quitting() == old(self).quitting(),
    {
        self.buffer.new_line_at(row);
        self.cursor.go_to(Pos::new(row, 0));
    }

    fn new_line_above(&mut self, row: usize)
        requires
            old(self).wf(),
            open_fits(old(self).lines(), row as int),
        ensures
            final(self).wf(),
            final(self).view_of() == old(self).view_of(),
            final(self).lines() == with_line_opened(old(self).lines(), row as int),
            final(self).cursor_of().at() == (Pos { row, col: 0 }),
            final(self).cursor_of().desired() == old(self).cursor_of().desired(),
            final(self).mode_of() == old(self).mode_of(),
            final(self).parser_state() == old(self).parser_state(),
            same_file(*old(self), *final(self)),
            final(self).quitting() == old(self).quitting(),
    {
        self.go_to_new_line_at(row);
    }

    fn new_line_below(&mut self, row: usize)
        requires
            old(self).wf(),
            row < usize::MAX,
            open_fits(old(self).lines(), row + 1),
        ensures
            final(self).wf(),
            final(self).view_of() == old(self).view_of(),
            final(self).lines() == with_line_opened(old(self).lines(), row + 1),
            final(self).cursor_of().at() == (Pos { row: (row + 1) as usize, col: 0 }),
            final(self).cursor_of().desired() == old(self).cursor_of().desired(),
            final(self).mode_of() == old(self).mode_of(),
            final(self).parser_state() == old(self).parser_state(),
            same_file(*old(self), *final(self)),
            final(self).quitting() == old(self).quitting(),
    {
        self.go_to_new_line_at(row + 1);
    }
}

impl Editor {
    /// Whether `handle_key(key)` is defined now (see `key_defined`); a caller
    /// outside verified code checks this first.
    pub fn can_handle(&self, key: KeyEvent) -> (r: bool)
        requires
            self.wf(),
        ensures
            r == self.key_defined(key),
    {
        if (key.code == KeyCode::Char('q') && key.modifiers.control) || key.kind == KeyEventKind::Release {
            return true;
        }
        let pos = self.cursor.location();
        if self.mode == Mode::Insert {
            return self.insert_key_ok(pos, key);
        }
        if self.parser.count_overflows(key) {
            return false;
        }
        let mut p = self.parser;
        match p.feed(key) {
            ParseResult::Complete(a) => self.action_ok(pos, a),
            _ => true,
        }
    }

    fn join_ok(&self, from: usize, to: usize) -> (r: bool)
        requires
            self.wf(),
        ensures
            r == join_fits(self.lines(), from as int, to as int),
    {
        let n = self.buffer.len();
        if from < n && to < n {
            self.buffer.line_len(to).checked_add(self.buffer.line_len(from)).is_some()
        } else {
            true
        }
    }

    fn open_ok(&self, row: usize) -> (r: bool)
        requires
            self.wf(),
        ensures
            r == open_fits(self.lines(), row as int),
    {
        let n = self.buffer.len();
        !(row < n) || n < usize::MAX
    }

    fn insert_key_ok(&self, pos: Pos, key: KeyEvent) -> (r: bool)
        requires
            self.wf(),
        ensures
            r == insert_key_defined(self.lines(), pos, key),
    {
        let n = self.buffer.len();
        match key.code {
            KeyCode::Backspace => if pos.col == 0 {
                pos.row > 0 && self.join_ok(pos.row, pos.row - 1)
            } else {
                !(pos.row < n) || pos.col - 1 < self.buffer.line_len(pos.row)
            },
            KeyCode::Delete => if pos.col == self.buffer.line_len(pos.row) {
                pos.row < usize::MAX && self.join_ok(pos.row + 1, pos.row)
            } else {
                !(pos.row < n) || pos.col < self.buffer.line_len(pos.row)
            },
            KeyCode::Enter => pos.row < usize::MAX && self.open_ok(pos.row + 1),
            KeyCode::Down => pos.row < usize::MAX,
            KeyCode::Char(_) => {
                if key.modifiers.control || !(pos.row < n) {
                    true
                } else {
                    let len = self.buffer.line_len(pos.row);
                    pos.col <= len && len < usize::MAX
                }
            },
            _ => true,
        }
    }

    fn motion_ok(&self, pos: Pos, m: Motion) -> (r: bool)
        requires
            self.wf(),
        ensures
            r == motion_defined(self.lines(), pos, m),
    {
        match m {
            Motion::Down => pos.row < usize::MAX,
            Motion::WordFwd | Motion::WordBack => can_test_boundary(&self.buffer, pos, MotionLocation::Start),
            Motion::WordEnd => can_test_boundary(&self.buffer, pos, MotionLocation::End),
            Motion::FileEnd => {
                let n = self.buffer.len();
                n >= 2 && self.buffer.line_len(n - 2) >= 1
            },
            _ => true,
        }
    }

    fn action_ok(&self, pos: Pos, a: Action) -> (r: bool)
        requires
            self.wf(),
        ensures
            r == action_defined(self.lines(), pos, a),
    {
        match a {
            Action::Move(m, _) => self.motion_ok(pos, m),
            Action::EnterInsert(InsertKind::OpenBelow) => pos.row < usize::MAX && self.open_ok(pos.row + 1),
            Action::EnterInsert(InsertKind::OpenAbove) => self.open_ok(pos.row),
            _ => true,
        }
    }
}

/// In insert mode, typing a char and then Backspace gives back the lines and
/// the cursor position.
pub proof fn lemma_type_then_backspace(
    e0: Editor,
    e1: Editor,
    e2: Editor,
    k1: KeyEvent,
    k2: KeyEvent,
    r1: Option<CursorStyle>,
    r2: Option<CursorStyle>,
    c: char,
)
    requires
        e0.wf(),
        is_valid_pos(e0.lines(), e0.cursor_of().at()),
        k1.code == KeyCode::Char(c),
        !k1.modifiers.control,
        k2.code == KeyCode::Backspace,
        insert_key_defined(e0.lines(), e0.cursor_of().at(), k1),
        insert_key_effect(e0, e1, k1, r1),
        insert_key_effect(e1, e2, k2, r2),
    ensures
        e2.lines() == e0.lines(),
        e2.cursor_of().at() == e0.cursor_of().at(),
{
    let pos = e0.cursor_of().at();
    let typed = with_char_inserted(e0.lines(), pos.row as int, pos.col as int, c);
    assert(typed[pos.row as int].len() == e0.lines()[pos.row as int].len() + 1);
    assert(e1.cursor_of().at() == Pos { row: pos.row, col: (pos.col + 1) as usize });
    lemma_insert_then_remove(e0.lines(), pos.row, pos.col, c);
}

/// In insert mode, Enter and then Backspace gives back the lines.
pub proof fn lemma_enter_then_backspace(
    e0: Editor,
    e1: Editor,
    e2: Editor,
    k1: KeyEvent,
    k2: KeyEvent,
    r1: Option<CursorStyle>,
    r2: Option<CursorStyle>,
)
    requires
        e0.wf(),
        e0.cursor_of().at().row < usize::MAX,
        k1.code == KeyCode::Enter,
        k2.code == KeyCode::Backspace,
        insert_key_effect(e0, e1, k1, r1),
        insert_key_effect(e1, e2, k2, r2),
    ensures
        e2.lines() == e0.lines(),
{
    lemma_open_then_join(e0.lines(), e0.cursor_of().at().row as int);
}

/// The word motions: `w` goes to the first word start walking forward, `e`
/// to the first word end walking forward, `b` to the first word start walking
/// backward (the cursor's own position counting); so `w` and `e` never move
/// the cursor back and `b` never moves it forward.
pub proof fn lemma_word_motions(lines: Seq<Seq<char>>, before: Cursor, after: Cursor)
    requires
        lines_fit(lines),
    ensures
        moved(lines, before, after, Motion::WordFwd) ==> word_target(
            lines,
            before.at(),
            Direction::Forward,
            MotionLocation::Start,
            false,
            after.at(),
        ) && pos_le(before.at(), after.at()),
        moved(lines, before, after, Motion::WordEnd) ==> word_target(
            lines,
            before.at(),
            Direction::Forward,
            MotionLocation::End,
            false,
            after.at(),
        ) && pos_le(before.at(), after.at()),
        moved(lines, before, after, Motion::WordBack) ==> word_target(
            lines,
            before.at(),
            Direction::Backward,
            MotionLocation::Start,
            false,
            after.at(),
        ) && pos_le(after.at(), before.at()),
{
    if moved(lines, before, after, Motion::WordFwd) {
        lemma_word_target_order(lines, before.at(), Direction::Forward, MotionLocation::Start, false, after.at());
    }
    if moved(lines, before, after, Motion::WordEnd) {
        lemma_word_target_order(lines, before.at(), Direction::Forward, MotionLocation::End, false, after.at());
    }
    if moved(lines, before, after, Motion::WordBack) {
        lemma_word_target_order(lines, before.at(), Direction::Backward, MotionLocation::Start, false, after.at());
    }
}

} // verus!
