use vstd::prelude::*;

use crate::buffer::{char_at_of, is_valid_pos, lines_fit, next_pos_of, prev_pos_of, Buffer};
use crate::input::MotionLocation;
use crate::cursor::Cursor;
use crate::pos::Pos;
use crate::walker::{lemma_step_valid, lemma_step_progress, lemma_walk_stays_off, lemma_walk_valid, walk_from, cols_left, rows_left, Direction, Walker};

verus! {

/// The kind of a character, for deciding where words begin and end.
#[derive(Debug, Clone, Copy, PartialEq, Eq, Structural)]
pub enum CharClass {
    WhiteSpace,
    Word,
    Punctuation,
}

/// The chars with the Unicode White_Space property, which `char::is_whitespace`
/// accepts: the ASCII controls tab to carriage return, space, next line,
/// no-break space, ogham space mark, the spaces from en quad to hair space, the
/// line and paragraph separators, narrow no-break space, medium mathematical
/// space and ideographic space.
pub open spec fn is_whitespace_char(c: char) -> bool {
    let n = c as u32;
    ||| 0x09 <= n <= 0x0d
    ||| n == 0x20
    ||| n == 0x85
    ||| n == 0xa0
    ||| n == 0x1680
    ||| 0x2000 <= n <= 0x200a
    ||| n == 0x2028
    ||| n == 0x2029
    ||| n == 0x202f
    ||| n == 0x205f
    ||| n == 0x3000
}

/// What `char::is_alphanumeric` returns for `c` (alphabetic or numeric in Unicode).
pub uninterp spec fn is_alphanumeric_char(c: char) -> bool;

/// Whether `c` is white space (what `char::is_whitespace` answers).
fn char_is_whitespace(c: char) -> (r: bool)
    ensures
        r == is_whitespace_char(c),
{
    let n = c as u32;
    (0x09 <= n && n <= 0x0d) || n == 0x20 || n == 0x85 || n == 0xa0 || n == 0x1680 || (0x2000 <= n && n
        <= 0x200a) || n == 0x2028 || n == 0x2029 || n == 0x202f || n == 0x205f || n == 0x3000
}

/// Calls `char::is_alphanumeric`; the result is named, not described.
#[verifier::external_body]
fn char_is_alphanumeric(c: char) -> (r: bool)
    ensures
        r == is_alphanumeric_char(c),
{
    c.is_alphanumeric()
}

/// The class of `c`; with `big`, every non-blank char counts as a word char.
pub open spec fn class_of(c: char, big: bool) -> CharClass {
    if is_whitespace_char(c) {
        CharClass::WhiteSpace
    } else if is_alphanumeric_char(c) || big {
        CharClass::Word
    } else {
        CharClass::Punctuation
    }
}

/// The class of the char at `pos`, if there is one.
pub open spec fn class_at(lines: Seq<Seq<char>>, pos: Pos, big: bool) -> Option<CharClass> {
    match char_at_of(lines, pos) {
        Some(c) => Some(class_of(c, big)),
        None => None,
    }
}

/// A word starts at `pos`: its char is not blank and the char before it is
/// of another class. Nothing starts at the very first position.
pub open spec fn is_word_start_at(lines: Seq<Seq<char>>, pos: Pos, big: bool) -> bool {
    let class = class_at(lines, pos, big);
    if class == Some(CharClass::WhiteSpace) {
        false
    } else {
        match prev_pos_of(lines, pos) {
            Some(p) => class_at(lines, p, big) != class,
            None => false,
        }
    }
}

/// A word ends at `pos`: its char is not blank and the char after it is of
/// another class. Nothing ends at the very last position.
pub open spec fn is_word_end_at(lines: Seq<Seq<char>>, pos: Pos, big: bool) -> bool {
    let class = class_at(lines, pos, big);
    if class == Some(CharClass::WhiteSpace) {
        false
    } else {
        match next_pos_of(lines, pos) {
            Some(p) => class_at(lines, p, big) != class,
            None => false,
        }
    }
}

/// The word boundary that a motion to `location` looks for.
pub open spec fn is_boundary_at(lines: Seq<Seq<char>>, pos: Pos, location: MotionLocation, big: bool) -> bool {
    match location {
        MotionLocation::Start => is_word_start_at(lines, pos, big),
        MotionLocation::End => is_word_end_at(lines, pos, big),
    }
}

/// Testing for a boundary at `pos` reads a char next to it; that char must exist
/// whenever the neighbouring position does.
pub open spec fn boundary_test_defined(lines: Seq<Seq<char>>, pos: Pos, location: MotionLocation) -> bool {
    let class = class_at(lines, pos, false);
    class != Some(CharClass::WhiteSpace) ==> match location {
        MotionLocation::Start => prev_pos_of(lines, pos) matches Some(p) ==> char_at_of(lines, p) is Some,
        MotionLocation::End => next_pos_of(lines, pos) matches Some(p) ==> char_at_of(lines, p) is Some,
    }
}

/// Step `j` of the walk exists and is not a boundary.
pub open spec fn passes_over(
    lines: Seq<Seq<char>>,
    start: Pos,
    dir: Direction,
    location: MotionLocation,
    big: bool,
    j: nat,
) -> bool {
    match walk_from(lines, start, dir, j) {
        Some(r) => !is_boundary_at(lines, r, location, big),
        None => false,
    }
}

/// Step `k` of the walk is `p`, the first boundary the walk meets.
pub open spec fn is_first_boundary(
    lines: Seq<Seq<char>>,
    start: Pos,
    dir: Direction,
    location: MotionLocation,
    big: bool,
    k: nat,
    p: Pos,
) -> bool {
    &&& walk_from(lines, start, dir, k) == Some(p)
    &&& is_boundary_at(lines, p, location, big)
    &&& forall|j: nat| j < k ==> #[trigger] passes_over(lines, start, dir, location, big, j)
}

/// No position of the walk is a boundary.
pub open spec fn no_boundary(
    lines: Seq<Seq<char>>,
    start: Pos,
    dir: Direction,
    location: MotionLocation,
    big: bool,
) -> bool {
    forall|k: nat|
        match #[trigger] walk_from(lines, start, dir, k) {
            Some(q) => !is_boundary_at(lines, q, location, big),
            None => true,
        }
}

/// Every position the search tests, up to and including the first boundary,
/// can be tested.
pub open spec fn boundary_search_defined(
    lines: Seq<Seq<char>>,
    start: Pos,
    dir: Direction,
    location: MotionLocation,
    big: bool,
) -> bool {
    forall|k: nat|
        (forall|j: nat| j < k ==> #[trigger] passes_over(lines, start, dir, location, big, j))
            ==> match #[trigger] walk_from(lines, start, dir, k) {
            Some(q) => boundary_test_defined(lines, q, location),
            None => true,
        }
}

/// Classifies `c`.
fn classify(c: char, big: bool) -> (r: CharClass)
    ensures
        r == class_of(c, big),
{
    if char_is_whitespace(c) {
        CharClass::WhiteSpace
    } else if char_is_alphanumeric(c) || big {
        CharClass::Word
    } else {
        CharClass::Punctuation
    }
}

/// The class of the char at `pos`.
fn class_at_exec(buffer: &Buffer, pos: Pos, big: bool) -> (r: Option<CharClass>)
    ensures
        r == class_at(buffer@, pos, big),
{
    match buffer.char_at(pos) {
        Some(c) => Some(classify(c, big)),
        None => None,
    }
}

/// Whether a word starts at `pos`.
fn is_word_start(pos: Pos, buffer: &Buffer, big: bool) -> (r: bool)
    requires
        boundary_test_defined(buffer@, pos, MotionLocation::Start),
    ensures
        r == is_word_start_at(buffer@, pos, big),
{
    let class = class_at_exec(buffer, pos, big);
    if class == Some(CharClass::WhiteSpace) {
        return false;
    }
    match buffer.prev_pos(pos) {
        Some(p) => {
            let before = buffer.char_at(p);
            match before {
                Some(c) => Some(classify(c, big)) != class,
                None => false,
            }
        },
        None => false,
    }
}

/// Whether a word ends at `pos`.
fn is_word_end(pos: Pos, buffer: &Buffer, big: bool) -> (r: bool)
    requires
        boundary_test_defined(buffer@, pos, MotionLocation::End),
    ensures
        r == is_word_end_at(buffer@, pos, big),
{
    let class = class_at_exec(buffer, pos, big);
    if class == Some(CharClass::WhiteSpace) {
        return false;
    }
    match buffer.next_pos(pos) {
        Some(p) => {
            let after = buffer.char_at(p);
            match after {
                Some(c) => Some(classify(c, big)) != class,
                None => false,
            }
        },
        None => false,
    }
}

/// Walks from `start` (included) and returns the first word boundary met.
fn find_boundary(
    buffer: &Buffer,
    start: Pos,
    direction: Direction,
    location: MotionLocation,
    big: bool,
) -> (r: Option<Pos>)
    requires
        buffer.wf(),
        boundary_search_defined(buffer@, start, direction, location, big),
    ensures
        match r {
            Some(p) => exists|k: nat| is_first_boundary(buffer@, start, direction, location, big, k, p),
            None => no_boundary(buffer@, start, direction, location, big),
        },
{
    let mut w = Walker::default(buffer, start, direction);
    let ghost mut k: nat = 0;
    loop
        invariant
            w.lines() == buffer@,
            w.dir() == direction,
            lines_fit(buffer@),
            w.upcoming() == walk_from(buffer@, start, direction, k),
            forall|j: nat| j < k ==> #[trigger] passes_over(buffer@, start, direction, location, big, j),
            boundary_search_defined(buffer@, start, direction, location, big),
        decreases
            (if w.upcoming() is Some { 1int } else { 0int }),
            match w.upcoming() {
                Some(p) => rows_left(buffer@, p, direction),
                None => 0,
            },
            match w.upcoming() {
                Some(p) => cols_left(buffer@, p, direction),
                None => 0,
            },
    {
        let here = w.next();
        match here {
            None => {
                proof {
                    assert forall|m: nat|
                        match #[trigger] walk_from(buffer@, start, direction, m) {
                            Some(q) => !is_boundary_at(buffer@, q, location, big),
                            None => true,
                        } by {
                        if m < k {
                            assert(passes_over(buffer@, start, direction, location, big, m));
                        } else {
                            lemma_walk_stays_off(buffer@, start, direction, k, m);
                        }
                    }
                }
                return None;
            },
            Some(p) => {
                proof {
                    assert(walk_from(buffer@, start, direction, k) == Some(p));
                    lemma_step_progress(buffer@, p, direction);
                }
                let found = match location {
                    MotionLocation::Start => is_word_start(p, buffer, big),
                    MotionLocation::End => is_word_end(p, buffer, big),
                };
                if found {
                    assert(is_first_boundary(buffer@, start, direction, location, big, k, p));
                    return Some(p);
                }
                proof {
                    assert(passes_over(buffer@, start, direction, location, big, k));
                    k = k + 1;
                }
            },
        }
    }
}

/// Where a word motion from `pos` lands: the first boundary of the walk
/// (`pos` itself included), or `pos` when there is none.
pub open spec fn word_target(lines: Seq<Seq<char>>, pos: Pos, direction: Direction, location: MotionLocation, big: bool, r: Pos) -> bool {
    ||| exists|k: nat| is_first_boundary(lines, pos, direction, location, big, k, r)
    ||| no_boundary(lines, pos, direction, location, big) && r == pos
}

/// The position a word motion from `pos` lands on.
pub fn find_word(buffer: &Buffer, pos: Pos, direction: Direction, location: MotionLocation, big: bool) -> (r: Pos)
    requires
        buffer.wf(),
        boundary_search_defined(buffer@, pos, direction, location, big),
    ensures
        word_target(buffer@, pos, direction, location, big, r),
{
    match find_boundary(buffer, pos, direction, location, big) {
        Some(p) => p,
        None => pos,
    }
}

/// Testing for a word end is always possible: the position after any
/// position, when there is one, holds a char.
pub proof fn lemma_end_test_defined(lines: Seq<Seq<char>>, pos: Pos)
    requires
        lines_fit(lines),
    ensures
        boundary_test_defined(lines, pos, MotionLocation::End),
{
}

/// Testing for either boundary at a valid position is possible.
pub proof fn lemma_valid_test_defined(lines: Seq<Seq<char>>, pos: Pos, location: MotionLocation)
    requires
        lines_fit(lines),
        is_valid_pos(lines, pos),
    ensures
        boundary_test_defined(lines, pos, location),
{
    lemma_step_valid(lines, pos, Direction::Backward);
}

/// A word search can test every position it reaches as soon as it can test its
/// starting position: from a valid start it only meets valid positions, and
/// from an invalid start that can be tested it stops at once.
pub proof fn lemma_search_defined_from_start(
    lines: Seq<Seq<char>>,
    start: Pos,
    dir: Direction,
    location: MotionLocation,
    big: bool,
)
    requires
        lines_fit(lines),
        lines.len() >= 1,
        boundary_test_defined(lines, start, location),
    ensures
        boundary_search_defined(lines, start, dir, location, big),
{
    assert forall|k: nat|
        (forall|j: nat| j < k ==> #[trigger] passes_over(lines, start, dir, location, big, j)) implies match #[trigger] walk_from(
            lines,
            start,
            dir,
            k,
        ) {
            Some(q) => boundary_test_defined(lines, q, location),
            None => true,
        } by {
        if let Some(q) = walk_from(lines, start, dir, k) {
            if location == MotionLocation::End {
                lemma_end_test_defined(lines, q);
            } else if is_valid_pos(lines, start) {
                lemma_walk_valid(lines, start, dir, k);
                lemma_valid_test_defined(lines, q, location);
            } else if k > 0 {
                assert(passes_over(lines, start, dir, location, big, 0));
                assert(walk_from(lines, start, dir, 0) == Some(start));
                assert(is_word_start_at(lines, start, big));
            } else {
                assert(walk_from(lines, start, dir, 0) == Some(start));
            }
        }
    }
}

/// Whether testing for a word boundary at `pos` is possible.
pub fn can_test_boundary(buffer: &Buffer, pos: Pos, location: MotionLocation) -> (r: bool)
    ensures
        r == boundary_test_defined(buffer@, pos, location),
{
    if class_at_exec(buffer, pos, false) == Some(CharClass::WhiteSpace) {
        return true;
    }
    let neighbour = match location {
        MotionLocation::Start => buffer.prev_pos(pos),
        MotionLocation::End => buffer.next_pos(pos),
    };
    match neighbour {
        Some(p) => buffer.char_at(p).is_some(),
        None => true,
    }
}

/// Moves the cursor to the next word end (the cursor's own position included);
/// it stays put when there is none.
pub fn to_word_end(cursor: &mut Cursor, buffer: &Buffer, direction: Direction, is_big: bool)
    requires
        buffer.wf(),
        boundary_search_defined(buffer@, old(cursor).at(), direction, MotionLocation::End, is_big),
    ensures
        word_target(buffer@, old(cursor).at(), direction, MotionLocation::End, is_big, final(cursor).at()),
        final(cursor).desired() == old(cursor).desired(),
{
    let word_end_pos = find_boundary(buffer, cursor.location(), direction, MotionLocation::End, is_big);
    if let Some(pos) = word_end_pos {
        cursor.go_to(pos)
    }
}

/// Moves the cursor to the next word start (the cursor's own position
/// included); it stays put when there is none.
pub fn to_word_start(cursor: &mut Cursor, buffer: &Buffer, direction: Direction, is_big: bool)
    requires
        buffer.wf(),
        boundary_search_defined(buffer@, old(cursor).at(), direction, MotionLocation::Start, is_big),
    ensures
        word_target(buffer@, old(cursor).at(), direction, MotionLocation::Start, is_big, final(cursor).at()),
        final(cursor).desired() == old(cursor).desired(),
{
    let word_start_pos = find_boundary(buffer, cursor.location(), direction, MotionLocation::Start, is_big);
    if let Some(pos) = word_start_pos {
        cursor.go_to(pos)
    }
}

/// The classes: a blank char is white space, whatever `big` says; a
/// non-blank alphanumeric char is a word char; any other char is punctuation,
/// or a word char when `big` (then words are separated by blanks alone).
pub proof fn lemma_classes(c: char, big: bool)
    ensures
        (class_of(c, big) == CharClass::WhiteSpace) <==> is_whitespace_char(c),
        !is_whitespace_char(c) && is_alphanumeric_char(c) ==> class_of(c, big) == CharClass::Word,
        !is_whitespace_char(c) && !is_alphanumeric_char(c) && big ==> class_of(c, big) == CharClass::Word,
        !is_whitespace_char(c) && !is_alphanumeric_char(c) && !big ==> class_of(c, big)
            == CharClass::Punctuation,
{
}

/// Where words start: at a valid position whose char is not blank and whose
/// previous char is of another class — a word char after punctuation or a
/// blank, punctuation after a word char or a blank. Nothing starts at the
/// very first position.
pub proof fn lemma_word_start_rule(lines: Seq<Seq<char>>, pos: Pos, big: bool)
    requires
        lines_fit(lines),
        is_valid_pos(lines, pos),
    ensures
        prev_pos_of(lines, pos) is None ==> !is_word_start_at(lines, pos, big),
        prev_pos_of(lines, pos) matches Some(p) ==> {
            let c = char_at_of(lines, pos)->0;
            let d = char_at_of(lines, p)->0;
            is_word_start_at(lines, pos, big) <==> (!is_whitespace_char(c) && class_of(d, big) != class_of(
                c,
                big,
            ))
        },
{
    lemma_step_valid(lines, pos, Direction::Backward);
}

/// Where words end: at a valid position whose char is not blank and whose next
/// char is of another class. Nothing ends at the very last position.
pub proof fn lemma_word_end_rule(lines: Seq<Seq<char>>, pos: Pos, big: bool)
    requires
        lines_fit(lines),
        is_valid_pos(lines, pos),
    ensures
        next_pos_of(lines, pos) is None ==> !is_word_end_at(lines, pos, big),
        next_pos_of(lines, pos) matches Some(p) ==> {
            let c = char_at_of(lines, pos)->0;
            let d = char_at_of(lines, p)->0;
            is_word_end_at(lines, pos, big) <==> (!is_whitespace_char(c) && class_of(d, big) != class_of(
                c,
                big,
            ))
        },
{
    lemma_step_valid(lines, pos, Direction::Forward);
}

/// `a` comes no later than `b` in reading order.
pub open spec fn pos_le(a: Pos, b: Pos) -> bool {
    a.row < b.row || (a.row == b.row && a.col <= b.col)
}

/// A forward walk only reaches positions at or after its start, a backward
/// walk only positions at or before it.
pub proof fn lemma_walk_order(lines: Seq<Seq<char>>, start: Pos, dir: Direction, k: nat)
    requires
        lines_fit(lines),
    ensures
        walk_from(lines, start, dir, k) matches Some(q) ==> match dir {
            Direction::Forward => pos_le(start, q),
            Direction::Backward => pos_le(q, start),
        },
    decreases k,
{
    if k > 0 {
        lemma_walk_order(lines, start, dir, (k - 1) as nat);
    }
}

/// A word motion forward never lands before where it started, and one backward
/// never lands after it.
pub proof fn lemma_word_target_order(
    lines: Seq<Seq<char>>,
    pos: Pos,
    dir: Direction,
    location: MotionLocation,
    big: bool,
    r: Pos,
)
    requires
        lines_fit(lines),
        word_target(lines, pos, dir, location, big, r),
    ensures
        dir == Direction::Forward ==> pos_le(pos, r),
        dir == Direction::Backward ==> pos_le(r, pos),
{
    if exists|k: nat| is_first_boundary(lines, pos, dir, location, big, k, r) {
        let k = choose|k: nat| is_first_boundary(lines, pos, dir, location, big, k, r);
        lemma_walk_order(lines, pos, dir, k);
    }
}

} // verus!
