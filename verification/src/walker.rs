use vstd::prelude::*;

use crate::buffer::{is_valid_pos, lines_fit, line_len_of, next_pos_of, prev_pos_of, Buffer};
use crate::pos::Pos;

verus! {

/// Which way a walk goes through the buffer.
#[derive(Debug, Clone, Copy, PartialEq, Eq, Structural)]
pub enum Direction {
    Forward,
    Backward,
}

/// One step from `pos` in direction `dir`.
pub open spec fn step_of(lines: Seq<Seq<char>>, pos: Pos, dir: Direction) -> Option<Pos> {
    match dir {
        Direction::Forward => next_pos_of(lines, pos),
        Direction::Backward => prev_pos_of(lines, pos),
    }
}

/// Where a walk that starts at `start` stands after `k` steps; `None` once it
/// has stepped off the buffer.
pub open spec fn walk_from(lines: Seq<Seq<char>>, start: Pos, dir: Direction, k: nat) -> Option<Pos>
    decreases k,
{
    if k == 0 {
        Some(start)
    } else {
        match walk_from(lines, start, dir, (k - 1) as nat) {
            Some(p) => step_of(lines, p, dir),
            None => None,
        }
    }
}

/// Major part of the distance a walk has left: the rows to go.
pub open spec fn rows_left(lines: Seq<Seq<char>>, pos: Pos, dir: Direction) -> int {
    match dir {
        Direction::Forward => lines.len() - pos.row,
        Direction::Backward => pos.row as int,
    }
}

/// Minor part of the distance a walk has left: the columns to go on this row.
pub open spec fn cols_left(lines: Seq<Seq<char>>, pos: Pos, dir: Direction) -> int {
    match dir {
        Direction::Forward => line_len_of(lines, pos.row as int) - pos.col,
        Direction::Backward => pos.col as int,
    }
}

/// Every step brings a walk closer to the end of the buffer (or start).
pub proof fn lemma_step_progress(lines: Seq<Seq<char>>, pos: Pos, dir: Direction)
    requires
        lines_fit(lines),
    ensures
        step_of(lines, pos, dir) matches Some(q) ==> {
            ||| 0 <= rows_left(lines, q, dir) < rows_left(lines, pos, dir)
            ||| rows_left(lines, q, dir) == rows_left(lines, pos, dir) && 0 <= cols_left(lines, q, dir)
                < cols_left(lines, pos, dir)
        },
{
}

/// Once a walk has stepped off the buffer it stays off.
pub proof fn lemma_walk_stays_off(lines: Seq<Seq<char>>, start: Pos, dir: Direction, j: nat, k: nat)
    requires
        j <= k,
        walk_from(lines, start, dir, j) is None,
    ensures
        walk_from(lines, start, dir, k) is None,
    decreases k - j,
{
    if j < k {
        lemma_walk_stays_off(lines, start, dir, j, (k - 1) as nat);
    }
}

/// Yields the positions of a buffer one at a time, starting at a given one,
/// forward or backward, until it steps off either end.
pub struct Walker<'a> {
    buffer: &'a Buffer,
    pos: Option<Pos>,
    direction: Direction,
}

impl<'a> Walker<'a> {
    /// The position `next` yields next, if any.
    pub closed spec fn upcoming(&self) -> Option<Pos> {
        self.pos
    }

    /// The lines being walked.
    pub closed spec fn lines(&self) -> Seq<Seq<char>> {
        self.buffer@
    }

    /// The direction of the walk.
    pub closed spec fn dir(&self) -> Direction {
        self.direction
    }

    /// A walk over `buffer` that starts at `pos`.
    pub fn default(buffer: &'a Buffer, pos: Pos, direction: Direction) -> (w: Self)
        requires
            buffer.wf(),
        ensures
            lines_fit(w.lines()),
            w.upcoming() == Some(pos),
            w.lines() == buffer@,
            w.dir() == direction,
    {
        Walker { buffer, pos: Some(pos), direction }
    }

    /// Yields the current position and steps past it; `None` once off the buffer.
    pub fn next(&mut self) -> (r: Option<Pos>)
        ensures
            r == old(self).upcoming(),
            final(self).upcoming() == match old(self).upcoming() {
                Some(p) => step_of(old(self).lines(), p, old(self).dir()),
                None => None,
            },
            final(self).lines() == old(self).lines(),
            final(self).dir() == old(self).dir(),
    {
        let here = match self.pos {
            Some(p) => p,
            None => return None,
        };
        self.pos = match self.direction {
            Direction::Forward => self.buffer.next_pos(here),
            Direction::Backward => self.buffer.prev_pos(here),
        };
        Some(here)
    }
}

/// Stepping from a valid position gives a valid position.
pub proof fn lemma_step_valid(lines: Seq<Seq<char>>, pos: Pos, dir: Direction)
    requires
        is_valid_pos(lines, pos),
    ensures
        step_of(lines, pos, dir) matches Some(q) ==> is_valid_pos(lines, q),
{
}

/// A walk that starts at a valid position only visits valid positions.
pub proof fn lemma_walk_valid(lines: Seq<Seq<char>>, start: Pos, dir: Direction, k: nat)
    requires
        is_valid_pos(lines, start),
    ensures
        walk_from(lines, start, dir, k) matches Some(q) ==> is_valid_pos(lines, q),
    decreases k,
{
    if k > 0 {
        lemma_walk_valid(lines, start, dir, (k - 1) as nat);
        if let Some(p) = walk_from(lines, start, dir, (k - 1) as nat) {
            lemma_step_valid(lines, p, dir);
        }
    }
}

} // verus!
