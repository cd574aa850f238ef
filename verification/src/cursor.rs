use vstd::prelude::*;

use crate::buffer::{char_at_of, is_valid_pos, line_len_of, lines_fit, Buffer};
use crate::input::MotionLocation;
use crate::pos::Pos;
use vstd::math::min;
use crate::walker::{
    cols_left, lemma_step_progress, lemma_walk_stays_off, rows_left, walk_from, Direction, Walker,
};
use crate::words::{boundary_search_defined, find_word, word_target, CharClass};

verus! {

/// Cursor position in *buffer* coordinates, never screen coordinates.
///
/// `View` converts to screen coordinates at draw time using its scroll offset;
/// nothing converts back. If the cursor stored screen coordinates, scrolling
/// would silently change which character you are editing.
#[derive(Debug, Clone, Copy, PartialEq, Eq)]
pub struct Cursor {
    pos: Pos,
    class: Option<CharClass>,
    /// The col we want on vertical moves; honored when the line allows it.
    desired_col: usize,
}

/// One column left of `pos`, stopping at column 0.
pub open spec fn left_of(pos: Pos) -> Pos {
    Pos { row: pos.row, col: if pos.col > 0 { (pos.col - 1) as usize } else { 0 } }
}

/// One column right of `pos`, stopping at the end-of-line slot.
pub open spec fn right_of(lines: Seq<Seq<char>>, pos: Pos) -> Pos {
    Pos {
        row: pos.row,
        col: if pos.col < line_len_of(lines, pos.row as int) { (pos.col + 1) as usize } else { pos.col },
    }
}

/// Column `desired` of line `row`, or its end-of-line slot when shorter.
pub open spec fn at_desired(lines: Seq<Seq<char>>, row: usize, desired: usize) -> Pos {
    Pos { row, col: min(desired as int, line_len_of(lines, row as int) as int) as usize }
}

/// One line up from `pos`, stopping at the first line, at the desired column.
pub open spec fn up_of(lines: Seq<Seq<char>>, pos: Pos, desired: usize) -> Pos {
    at_desired(lines, if pos.row > 0 { (pos.row - 1) as usize } else { 0 }, desired)
}

/// One line down from `pos`, stopping at the last line, at the desired column.
pub open spec fn down_of(lines: Seq<Seq<char>>, pos: Pos, desired: usize) -> Pos {
    at_desired(lines, if pos.row + 1 < lines.len() { (pos.row + 1) as usize } else { pos.row }, desired)
}

/// `pos` moved into the buffer: the row to the last line at most, the column
/// to the end-of-line slot at most.
pub open spec fn clamped(lines: Seq<Seq<char>>, pos: Pos) -> Pos {
    let row: usize = if lines.len() == 0 {
        0
    } else {
        min(pos.row as int, lines.len() - 1) as usize
    };
    Pos { row, col: min(pos.col as int, line_len_of(lines, row as int) as int) as usize }
}

/// Step `j` (counted from 1) of the walk from `from` exists and does not hold `c`.
pub open spec fn passes_char(lines: Seq<Seq<char>>, from: Pos, dir: Direction, c: char, j: nat) -> bool {
    match walk_from(lines, from, dir, j) {
        Some(q) => char_at_of(lines, q) != Some(c),
        None => false,
    }
}

/// Step `k >= 1` of the walk from `from` is `p`, the first position after
/// `from` that holds `c`.
pub open spec fn is_first_char(lines: Seq<Seq<char>>, from: Pos, dir: Direction, c: char, k: nat, p: Pos) -> bool {
    &&& k >= 1
    &&& walk_from(lines, from, dir, k) == Some(p)
    &&& char_at_of(lines, p) == Some(c)
    &&& forall|j: nat| 1 <= j < k ==> #[trigger] passes_char(lines, from, dir, c, j)
}

/// No position after `from` on the walk holds `c`.
pub open spec fn no_char_after(lines: Seq<Seq<char>>, from: Pos, dir: Direction, c: char) -> bool {
    forall|k: nat|
        k >= 1 ==> match #[trigger] walk_from(lines, from, dir, k) {
            Some(q) => char_at_of(lines, q) != Some(c),
            None => true,
        }
}

/// Where a char search from `from` leaves a cursor that stood at `before`:
/// on the first position after `from` that holds `c`, or with `till` on the
/// position the walk passed just before it (`from` itself when the target is
/// the very first step); staying put when no position holds `c`.
pub open spec fn lands_on_char(
    lines: Seq<Seq<char>>,
    from: Pos,
    dir: Direction,
    c: char,
    till: bool,
    before: Pos,
    after: Pos,
) -> bool {
    ||| exists|k: nat, q: Pos|
        #[trigger] is_first_char(lines, from, dir, c, k, q) && if !till {
            after == q
        } else {
            walk_from(lines, from, dir, (k - 1) as nat) == Some(after)
        }
    ||| no_char_after(lines, from, dir, c) && after == before
}

impl Default for Cursor {
    fn default() -> (c: Cursor)
        ensures
            c.at() == (Pos { row: 0, col: 0 }),
            c.desired() == 0,
    {
        Cursor { pos: Pos { row: 0, col: 0 }, class: None, desired_col: 0 }
    }
}

impl Cursor {
    /// Where the cursor is.
    pub closed spec fn at(&self) -> Pos {
        self.pos
    }

    /// The column that vertical moves try to return to.
    pub closed spec fn desired(&self) -> usize {
        self.desired_col
    }

    pub fn location(&self) -> (p: Pos)
        ensures
            p == self.at(),
    {
        self.pos
    }

    pub fn row(&self) -> (r: usize)
        ensures
            r == self.at().row,
    {
        self.pos.row
    }

    pub fn col(&self) -> (c: usize)
        ensures
            c == self.at().col,
    {
        self.pos.col
    }

    /// One column left, stopping at column 0; remembered as the desired column.
    pub fn move_left(&mut self)
        ensures
            final(self).at() == left_of(old(self).at()),
            final(self).desired() == final(self).at().col,
    {
        self.pos.col = self.pos.col.saturating_sub(1);
        self.desired_col = self.pos.col;
    }

    /// One column right, stopping at the end-of-line slot; remembered as the
    /// desired column.
    pub fn move_right(&mut self, buffer: &Buffer)
        ensures
            final(self).at() == right_of(buffer@, old(self).at()),
            final(self).desired() == final(self).at().col,
    {
        if self.pos.col < buffer.line_len(self.pos.row) {
            self.pos.col = self.pos.col + 1;
        }
        self.desired_col = self.pos.col;
    }

    /// One line up, stopping at the first line; the column returns to the
    /// desired column as far as the line allows.
    pub fn move_up(&mut self, buffer: &Buffer)
        ensures
            final(self).at() == up_of(buffer@, old(self).at(), old(self).desired()),
            final(self).desired() == old(self).desired(),
    {
        self.pos.row = self.pos.row.saturating_sub(1);
        self.restore_col(buffer);
    }

    /// One line down, stopping at the last line; the column returns to the
    /// desired column as far as the line allows.
    pub fn move_down(&mut self, buffer: &Buffer)
        requires
            old(self).at().row < usize::MAX,
        ensures
            final(self).at() == down_of(buffer@, old(self).at(), old(self).desired()),
            final(self).desired() == old(self).desired(),
    {
        if self.pos.row + 1 < buffer.len() {
            self.pos.row = self.pos.row + 1;
        }
        self.restore_col(buffer);
    }

    /// Puts the cursor at `pos`; the desired column is kept.
    pub fn go_to(&mut self, pos: Pos)
        ensures
            final(self).at() == pos,
            final(self).desired() == old(self).desired(),
    {
        self.pos = pos;
    }

    /// Honor desired_col on the current line, clamping to what the line allows.
    fn restore_col(&mut self, buffer: &Buffer)
        ensures
            final(self).at().row == old(self).at().row,
            final(self).at().col == min(
                old(self).desired() as int,
                line_len_of(buffer@, old(self).at().row as int) as int,
            ),
            final(self).desired() == old(self).desired(),
    {
        let len = buffer.line_len(self.pos.row);
        self.pos.col = if self.desired_col < len {
            self.desired_col
        } else {
            len
        };
    }

    /// Keep `row` within the buffer.
    fn clamp_row(&mut self, buffer: &Buffer)
        ensures
            final(self).at().row == if buffer@.len() == 0 {
                0
            } else if old(self).at().row > buffer@.len() - 1 {
                buffer@.len() - 1
            } else {
                old(self).at().row as int
            },
            final(self).at().col == old(self).at().col,
            final(self).desired() == old(self).desired(),
    {
        let last = buffer.len().saturating_sub(1);
        if self.pos.row > last {
            self.pos.row = last;
        }
    }

    /// Keep `col` within the current line. Called after vertical movement,
    /// since the new line may be shorter than the old one.
    fn clamp_col(&mut self, buffer: &Buffer)
        ensures
            final(self).at().row == old(self).at().row,
            final(self).at().col == min(
                old(self).at().col as int,
                line_len_of(buffer@, old(self).at().row as int) as int,
            ),
            final(self).desired() == old(self).desired(),
    {
        let cap = buffer.line_len(self.pos.row);
        if self.pos.col > cap {
            self.pos.col = cap;
        }
    }

    /// Re-clamp both axes — for after the buffer changes under the cursor.
    pub fn clamp(&mut self, buffer: &Buffer)
        ensures
            final(self).at() == clamped(buffer@, old(self).at()),
            final(self).desired() == old(self).desired(),
    {
        self.clamp_row(buffer);
        self.clamp_col(buffer);
    }

    /// Moves to where a word motion from the cursor lands.
    pub fn to_word(&mut self, buffer: &Buffer, direction: Direction, location: MotionLocation, big: bool)
        requires
            buffer.wf(),
            boundary_search_defined(buffer@, old(self).at(), direction, location, big),
        ensures
            word_target(buffer@, old(self).at(), direction, location, big, final(self).at()),
            final(self).desired() == old(self).desired(),
    {
        self.go_to(find_word(buffer, self.pos, direction, location, big));
    }

    /// Moves to column 0 of the current line.
    pub fn to_line_start(&mut self)
        ensures
            final(self).at() == (Pos { row: old(self).at().row, col: 0 }),
            final(self).desired() == old(self).desired(),
    {
        self.go_to(Pos::new(self.pos.row, 0));
    }

    /// Moves to the end-of-line slot of the current line.
    pub fn to_line_end(&mut self, buffer: &Buffer)
        ensures
            final(self).at() == (Pos {
                row: old(self).at().row,
                col: line_len_of(buffer@, old(self).at().row as int) as usize,
            }),
            final(self).desired() == old(self).desired(),
    {
        let line_len = buffer.line_len(self.pos.row);
        self.go_to(Pos::new(self.pos.row, line_len));
    }

    /// Moves to the first position after `from`, walking in `direction`, that
    /// holds `c` — or, with `till`, stops just before it; stays put when there
    /// is none.
    pub fn walk_to_char(&mut self, buffer: &Buffer, from: Pos, c: char, till: bool, direction: Direction)
        requires
            buffer.wf(),
        ensures
            lands_on_char(buffer@, from, direction, c, till, old(self).at(), final(self).at()),
            final(self).desired() == old(self).desired(),
    {
        let mut w = Walker::default(buffer, from, direction);
        let _ = w.next();
        let ghost mut k: nat = 1;
        let mut prev = from;
        assert(walk_from(buffer@, from, direction, 0) == Some(from));
        loop
            invariant
                w.lines() == buffer@,
                w.dir() == direction,
                lines_fit(buffer@),
                k >= 1,
                walk_from(buffer@, from, direction, (k - 1) as nat) == Some(prev),
                w.upcoming() == walk_from(buffer@, from, direction, k),
                forall|j: nat| 1 <= j < k ==> #[trigger] passes_char(buffer@, from, direction, c, j),
                self.at() == old(self).at(),
                self.desired() == old(self).desired(),
            decreases
                (if w.upcoming() is Some { 1int } else { 0int }),
                match w.upcoming() {
                    Some(p) => rows_left(buffer@, p, direction),
                    None => 0,
                },
                match w.upcoming() {
                    Some(p) => cols_left(buffer@, p, direction),
                    None => 0,
                },
        {
            match w.next() {
                None => {
                    proof {
                        assert forall|m: nat| m >= 1 implies match #[trigger] walk_from(
                            buffer@,
                            from,
                            direction,
                            m,
                        ) {
                            Some(q) => char_at_of(buffer@, q) != Some(c),
                            None => true,
                        } by {
                            if m < k {
                                assert(passes_char(buffer@, from, direction, c, m));
                            } else {
                                lemma_walk_stays_off(buffer@, from, direction, k, m);
                            }
                        }
                    }
                    return ;
                },
                Some(p) => {
                    proof {
                        lemma_step_progress(buffer@, p, direction);
                    }
                    if Self::is_target_char(buffer, p, c) {
                        assert(is_first_char(buffer@, from, direction, c, k, p));
                        if till {
                            self.go_to(prev);
                        } else {
                            self.go_to(p);
                        }
                        return ;
                    }
                    proof {
                        assert(passes_char(buffer@, from, direction, c, k));
                        k = k + 1;
                    }
                    prev = p;
                },
            }
        }
    }

    /// Whether the char at `pos` is `target_char`.
    pub fn is_target_char(buffer: &Buffer, pos: Pos, target_char: char) -> (r: bool)
        ensures
            r == (char_at_of(buffer@, pos) == Some(target_char)),
    {
        match buffer.char_at(pos) {
            Some(c) => target_char == c,
            None => false,
        }
    }
}

/// Horizontal and vertical moves keep a cursor that is in the buffer in the
/// buffer.
pub proof fn lemma_moves_stay_valid(lines: Seq<Seq<char>>, pos: Pos, desired: usize)
    requires
        lines_fit(lines),
        is_valid_pos(lines, pos),
    ensures
        is_valid_pos(lines, left_of(pos)),
        is_valid_pos(lines, right_of(lines, pos)),
        is_valid_pos(lines, up_of(lines, pos, desired)),
        is_valid_pos(lines, down_of(lines, pos, desired)),
{
}

/// The desired column is honoured: after a horizontal move (which sets the
/// desired column to the cursor's), going down a line and back up returns to
/// the same place, however short the line in between.
pub proof fn lemma_down_up_returns(lines: Seq<Seq<char>>, pos: Pos)
    requires
        lines_fit(lines),
        is_valid_pos(lines, pos),
        pos.row + 1 < lines.len(),
    ensures
        up_of(lines, down_of(lines, pos, pos.col), pos.col) == pos,
{
}

/// Going up a line and back down returns to the same place, likewise.
pub proof fn lemma_up_down_returns(lines: Seq<Seq<char>>, pos: Pos)
    requires
        lines_fit(lines),
        is_valid_pos(lines, pos),
        pos.row > 0,
    ensures
        down_of(lines, up_of(lines, pos, pos.col), pos.col) == pos,
{
}

/// Clamping puts any position into the buffer, and leaves a position that is
/// already in the buffer where it is.
pub proof fn lemma_clamp(lines: Seq<Seq<char>>, pos: Pos)
    requires
        lines_fit(lines),
        lines.len() >= 1,
    ensures
        is_valid_pos(lines, clamped(lines, pos)),
        is_valid_pos(lines, pos) ==> clamped(lines, pos) == pos,
        clamped(lines, clamped(lines, pos)) == clamped(lines, pos),
{
}

} // verus!
