use vstd::prelude::*;
use vstd::string::*;

use crate::pos::Pos;

verus! {

/// The text being edited: a list of lines, each without its line terminator.
///
/// Every position `(row, col)` with `row < len()` and `col <= line_len(row)` is
/// a valid position; `col == line_len(row)` is the end-of-line slot, which
/// stands in for the stripped newline.
pub struct Buffer {
    lines: Vec<String>,
    filename: Option<String>,
    modified: bool,
}

/// Every count of the buffer (lines, chars of a line) fits in a `usize`.
pub open spec fn lines_fit(lines: Seq<Seq<char>>) -> bool {
    &&& lines.len() <= usize::MAX
    &&& forall|i: int| 0 <= i < lines.len() ==> #[trigger] lines[i].len() <= usize::MAX
}

/// Length of line `row`, or 0 for a row that does not exist.
pub open spec fn line_len_of(lines: Seq<Seq<char>>, row: int) -> nat {
    if 0 <= row < lines.len() {
        lines[row].len()
    } else {
        0
    }
}

/// `pos` names a character of some line or the end-of-line slot after it.
pub open spec fn is_valid_pos(lines: Seq<Seq<char>>, pos: Pos) -> bool {
    &&& pos.row < lines.len()
    &&& pos.col <= lines[pos.row as int].len()
}

/// The character shown at `pos`: the line's char, `'\n'` at the end-of-line
/// slot, `None` past it or on a row that does not exist.
pub open spec fn char_at_of(lines: Seq<Seq<char>>, pos: Pos) -> Option<char> {
    if pos.row >= lines.len() {
        None
    } else if pos.col < lines[pos.row as int].len() {
        Some(lines[pos.row as int][pos.col as int])
    } else if pos.col == lines[pos.row as int].len() {
        Some('\n')
    } else {
        None
    }
}

/// The position one step further in reading order.
pub open spec fn next_pos_of(lines: Seq<Seq<char>>, pos: Pos) -> Option<Pos> {
    if pos.col < line_len_of(lines, pos.row as int) {
        Some(Pos { row: pos.row, col: (pos.col + 1) as usize })
    } else if pos.row + 1 < lines.len() {
        Some(Pos { row: (pos.row + 1) as usize, col: 0 })
    } else {
        None
    }
}

/// The position one step back in reading order.
pub open spec fn prev_pos_of(lines: Seq<Seq<char>>, pos: Pos) -> Option<Pos> {
    if pos.col > 0 {
        Some(Pos { row: pos.row, col: (pos.col - 1) as usize })
    } else if pos.row > 0 {
        Some(Pos { row: (pos.row - 1) as usize, col: line_len_of(lines, pos.row - 1) as usize })
    } else {
        None
    }
}

/// `lines` with `c` inserted before char `col` of line `row` (unchanged when
/// the line does not exist).
pub open spec fn with_char_inserted(lines: Seq<Seq<char>>, row: int, col: int, c: char) -> Seq<Seq<char>> {
    if 0 <= row < lines.len() {
        lines.update(row, lines[row].insert(col, c))
    } else {
        lines
    }
}

/// `lines` with char `pos.col` of line `pos.row` removed (unchanged when the
/// line does not exist).
pub open spec fn with_char_removed(lines: Seq<Seq<char>>, pos: Pos) -> Seq<Seq<char>> {
    if pos.row < lines.len() {
        lines.update(pos.row as int, lines[pos.row as int].remove(pos.col as int))
    } else {
        lines
    }
}

/// `lines` with an empty line inserted before line `row` (unchanged when the
/// line does not exist).
pub open spec fn with_line_opened(lines: Seq<Seq<char>>, row: int) -> Seq<Seq<char>> {
    if 0 <= row < lines.len() {
        lines.insert(row, Seq::<char>::empty())
    } else {
        lines
    }
}

/// `lines` with line `from` appended to line `to` and then removed (unchanged
/// unless both lines exist and differ).
pub open spec fn with_lines_joined(lines: Seq<Seq<char>>, from: int, to: int) -> Seq<Seq<char>> {
    if 0 <= from < lines.len() && 0 <= to < lines.len() && from != to {
        lines.update(to, lines[to] + lines[from]).remove(from)
    } else {
        lines
    }
}

/// The lines that `str::lines` yields for `text`: split at `'\n'`, a `'\r'`
/// directly before a `'\n'` dropped with it, and no empty last line after a
/// final terminator; a last line without terminator keeps a trailing `'\r'`.
pub open spec fn split_lines(text: Seq<char>) -> Seq<Seq<char>>
    decreases text.len(),
{
    if text.len() == 0 {
        Seq::empty()
    } else {
        let k = first_newline(text);
        proof {
            lemma_first_newline_bounds(text);
        }
        if k < text.len() {
            seq![strip_cr(text.take(k))] + split_lines(text.skip(k + 1))
        } else {
            seq![text]
        }
    }
}

/// Index of the first `'\n'` in `s`, or `s.len()` when there is none.
pub open spec fn first_newline(s: Seq<char>) -> int
    decreases s.len(),
{
    if s.len() == 0 {
        0
    } else if s[0] == '\n' {
        0
    } else {
        1 + first_newline(s.skip(1))
    }
}

/// `first_newline` lies within `0..=s.len()`, and names a `'\n'` when below `s.len()`.
pub proof fn lemma_first_newline_bounds(s: Seq<char>)
    ensures
        0 <= first_newline(s) <= s.len(),
        first_newline(s) < s.len() ==> s[first_newline(s)] == '\n',
        forall|i: int| 0 <= i < first_newline(s) ==> s[i] != '\n',
    decreases s.len(),
{
    if s.len() > 0 && s[0] != '\n' {
        lemma_first_newline_bounds(s.skip(1));
        assert forall|i: int| 0 <= i < first_newline(s) implies s[i] != '\n' by {
            if i > 0 {
                assert(s[i] == s.skip(1)[i - 1]);
            }
        }
    }
}

/// `s` without one trailing `'\r'`.
pub open spec fn strip_cr(s: Seq<char>) -> Seq<char> {
    if s.len() > 0 && s.last() == '\r' {
        s.drop_last()
    } else {
        s
    }
}

/// The lines a buffer starts with for file contents `text`: its lines, or a
/// single empty line when there are none.
pub open spec fn initial_lines(text: Seq<char>) -> Seq<Seq<char>> {
    if split_lines(text).len() == 0 {
        seq![Seq::<char>::empty()]
    } else {
        split_lines(text)
    }
}

/// Calls `String::push`: appends `c` to `s`.
#[verifier::external_body]
pub(crate) fn push_char(s: &mut String, c: char)
    ensures
        final(s)@ == old(s)@.push(c),
{
    s.push(c);
}

impl View for Buffer {
    type V = Seq<Seq<char>>;

    closed spec fn view(&self) -> Seq<Seq<char>> {
        self.lines@.map_values(|l: String| l@)
    }
}

impl Buffer {
    /// The file name the buffer was loaded from, if any.
    pub closed spec fn file_name_of(&self) -> Option<Seq<char>> {
        match self.filename {
            Some(f) => Some(f@),
            None => None,
        }
    }

    /// The buffer's invariant: it always holds at least one line, and its
    /// counts fit in a `usize`.
    pub open spec fn wf(&self) -> bool {
        &&& self@.len() >= 1
        &&& lines_fit(self@)
    }

    /// Whether the buffer has unsaved changes.
    pub closed spec fn modified_flag(&self) -> bool {
        self.modified
    }

    /// A buffer holding a single empty line.
    pub fn empty() -> (b: Self)
        ensures
            b@ == seq![Seq::<char>::empty()],
            b.wf(),
            b.file_name_of() is None,
            !b.modified_flag(),
    {
        let mut lines: Vec<String> = Vec::new();
        lines.push(String::new());
        let b = Buffer { lines, filename: None, modified: false };
        assert(b@ =~= seq![Seq::<char>::empty()]);
        b
    }

    /// The number of lines.
    pub fn len(&self) -> (n: usize)
        ensures
            n == self@.len(),
    {
        self.lines.len()
    }

    /// The text of line `idx`, if it exists.
    pub fn line(&self, idx: usize) -> (r: Option<&str>)
        ensures
            match r {
                Some(s) => idx < self@.len() && s@ == self@[idx as int],
                None => idx >= self@.len(),
            },
    {
        if idx < self.lines.len() {
            Some(self.lines[idx].as_str())
        } else {
            None
        }
    }

    /// The number of chars in line `idx`, or 0 if the line does not exist.
    pub fn line_len(&self, idx: usize) -> (n: usize)
        ensures
            n == line_len_of(self@, idx as int),
    {
        if idx < self.lines.len() {
            self.lines[idx].as_str().unicode_len()
        } else {
            0
        }
    }

    /// True when the buffer is a single empty line.
    pub fn is_empty(&self) -> (r: bool)
        ensures
            r == (self@.len() == 1 && self@[0].len() == 0),
    {
        self.lines.len() == 1 && self.lines[0].as_str().is_empty()
    }

    pub fn filename(&self) -> (r: Option<&str>)
        ensures
            match r {
                Some(s) => self.file_name_of() == Some(s@),
                None => self.file_name_of() is None,
            },
    {
        match &self.filename {
            Some(f) => Some(f.as_str()),
            None => None,
        }
    }

    pub fn is_modified(&self) -> (r: bool)
        ensures
            r == self.modified_flag(),
    {
        self.modified
    }

    /// Whether a line follows line `row`.
    pub fn has_next_line(&self, row: usize) -> (r: bool)
        ensures
            r == (row + 1 < self@.len()),
    {
        let n = self.lines.len();
        n > 0 && row < n - 1
    }
}


impl Buffer {
    /// A buffer over known lines, with no file; a single empty line when
    /// `lines` is empty.
    pub fn from_lines(lines: &[&str]) -> (b: Self)
        ensures
            lines@.len() == 0 ==> b@ == seq![Seq::<char>::empty()],
            lines@.len() > 0 ==> b@ == lines@.map_values(|l: &str| l@),
            b.wf(),
            b.file_name_of() is None,
            !b.modified_flag(),
    {
        if lines.len() == 0 {
            return Buffer::empty();
        }
        let mut v: Vec<String> = Vec::new();
        let mut i: usize = 0;
        while i < lines.len()
            invariant
                i <= lines@.len(),
                v@.len() == i,
                forall|j: int| 0 <= j < i ==> #[trigger] v@[j]@ == lines@[j]@,
                forall|j: int| 0 <= j < i ==> #[trigger] v@[j]@.len() <= usize::MAX,
            decreases lines@.len() - i,
        {
            let l: &str = lines[i];
            // A `&str`'s char count fits in a `usize`; counting is the only
            // source of that bound for the buffer's invariant.
            let _chars_in_line = l.unicode_len();
            let s = l.to_owned();
            assert(s@ == lines@[i as int]@);
            v.push(s);
            i = i + 1;
        }
        let b = Buffer { lines: v, filename: None, modified: false };
        assert(b@ =~= lines@.map_values(|l: &str| l@));
        assert(lines_fit(b@));
        b
    }

    /// The char at `pos`, with `'\n'` at the end-of-line slot.
    pub fn char_at(&self, pos: Pos) -> (r: Option<char>)
        ensures
            r == char_at_of(self@, pos),
    {
        match self.line(pos.row) {
            None => None,
            Some(line) => {
                let len = line.unicode_len();
                if pos.col < len {
                    Some(line.get_char(pos.col))
                } else if pos.col == len {
                    Some('\n')
                } else {
                    None
                }
            },
        }
    }

    /// One step forward in reading order; `None` at the last line's end-of-line slot.
    pub fn next_pos(&self, pos: Pos) -> (r: Option<Pos>)
        ensures
            r == next_pos_of(self@, pos),
    {
        if pos.col < self.line_len(pos.row) {
            Some(Pos { row: pos.row, col: pos.col + 1 })
        } else if self.has_next_line(pos.row) {
            let n = self.lines.len();
            assert(self@.len() == n);
            Some(Pos { row: pos.row + 1, col: 0 })
        } else {
            None
        }
    }

    /// One step back in reading order; `None` at the start of the buffer.
    pub fn prev_pos(&self, pos: Pos) -> (r: Option<Pos>)
        ensures
            r == prev_pos_of(self@, pos),
    {
        if pos.col > 0 {
            Some(Pos { row: pos.row, col: pos.col - 1 })
        } else if pos.row > 0 {
            Some(Pos { row: pos.row - 1, col: self.line_len(pos.row - 1) })
        } else {
            None
        }
    }

    /// Inserts `c` before char `col` of line `row`; a row that does not exist
    /// is left alone.
    pub fn insert_char_at(&mut self, row: usize, col: usize, c: char)
        requires
            old(self).wf(),
            row < old(self)@.len() ==> col <= old(self)@[row as int].len(),
            row < old(self)@.len() ==> old(self)@[row as int].len() < usize::MAX,
        ensures
            final(self).wf(),
            final(self)@ == with_char_inserted(old(self)@, row as int, col as int, c),
            final(self).file_name_of() == old(self).file_name_of(),
            final(self).modified_flag() == old(self).modified_flag(),
    {
        if row < self.lines.len() {
            let new_line = {
                let line = self.lines[row].as_str();
                let n = line.unicode_len();
                let mut s = line.substring_char(0, col).to_owned();
                push_char(&mut s, c);
                s.append(line.substring_char(col, n));
                assert(s@ =~= line@.insert(col as int, c));
                s
            };
            self.lines.set(row, new_line);
            assert(self@ =~= old(self)@.update(row as int, old(self)@[row as int].insert(col as int, c)));
        }
    }

    /// Removes char `pos.col` of line `pos.row`; a row that does not exist is
    /// left alone.
    pub fn remove_char_at(&mut self, pos: Pos)
        requires
            old(self).wf(),
            pos.row < old(self)@.len() ==> pos.col < old(self)@[pos.row as int].len(),
        ensures
            final(self).wf(),
            final(self)@ == with_char_removed(old(self)@, pos),
            final(self).file_name_of() == old(self).file_name_of(),
            final(self).modified_flag() == old(self).modified_flag(),
    {
        if pos.row < self.lines.len() {
            let new_line = {
                let line = self.lines[pos.row].as_str();
                let n = line.unicode_len();
                let mut s = line.substring_char(0, pos.col).to_owned();
                s.append(line.substring_char(pos.col + 1, n));
                assert(s@ =~= line@.remove(pos.col as int));
                s
            };
            self.lines.set(pos.row, new_line);
            assert(self@ =~= old(self)@.update(pos.row as int, old(self)@[pos.row as int].remove(pos.col as int)));
        }
    }

    /// Inserts an empty line before line `row`, when that line exists.
    pub fn new_line_at(&mut self, row: usize)
        requires
            old(self).wf(),
            row < old(self)@.len() ==> old(self)@.len() < usize::MAX,
        ensures
            final(self).wf(),
            final(self)@ == with_line_opened(old(self)@, row as int),
            final(self).file_name_of() == old(self).file_name_of(),
            final(self).modified_flag() == old(self).modified_flag(),
    {
        if self.len() > row {
            self.lines.insert(row, String::new());
            assert(self@ =~= old(self)@.insert(row as int, Seq::<char>::empty()));
        }
    }

    /// Appends line `from` to the end of line `to` and removes line `from`,
    /// when both lines exist and differ.
    pub fn append_lines(&mut self, from: usize, to: usize)
        requires
            old(self).wf(),
            from < old(self)@.len() && to < old(self)@.len() ==> old(self)@[to as int].len()
                + old(self)@[from as int].len() <= usize::MAX,
        ensures
            final(self).wf(),
            final(self)@ == with_lines_joined(old(self)@, from as int, to as int),
            final(self).file_name_of() == old(self).file_name_of(),
            final(self).modified_flag() == old(self).modified_flag(),
    {
        if from < self.lines.len() && to < self.lines.len() && from != to {
            let tail = self.lines.remove(from);
            let t = if from < to { to - 1 } else { to };
            let mut cur = String::new();
            self.lines.set_and_swap(t, &mut cur);
            cur.append(tail.as_str());
            self.lines.set(t, cur);
            assert(self@ =~= old(self)@.update(to as int, old(self)@[to as int] + old(self)@[from as int]).remove(from as int));
        }
    }
}


/// The chars of `text`, in order.
fn chars_of(text: &str) -> (v: Vec<char>)
    ensures
        v@ == text@,
{
    broadcast use vstd::string::group_string_axioms;

    let mut v: Vec<char> = Vec::new();
    for c in it: text.chars()
        invariant
            v@ == it.seq().take(it.index() as int),
    {
        v.push(c);
        assert(v@ =~= it.seq().take(it.index() + 1));
    }
    assert(v@ =~= text@);
    v
}

/// The char sequences of a list of strings.
pub open spec fn string_views(v: Seq<String>) -> Seq<Seq<char>> {
    v.map_values(|l: String| l@)
}

/// The first `'\n'` of `s` is at `k` when `k` holds one (or is the end) and
/// nothing before it does.
proof fn lemma_first_newline_is(s: Seq<char>, k: int)
    requires
        0 <= k <= s.len(),
        k < s.len() ==> s[k] == '\n',
        forall|j: int| 0 <= j < k ==> s[j] != '\n',
    ensures
        first_newline(s) == k,
{
    lemma_first_newline_bounds(s);
    let f = first_newline(s);
    if f < k {
        assert(s[f] == '\n');
    } else if f > k {
        assert(s[k] != '\n');
    }
}

/// A `String` holding `v[lo..hi]`.
fn string_from_chars(v: &Vec<char>, lo: usize, hi: usize) -> (s: String)
    requires
        lo <= hi <= v@.len(),
    ensures
        s@ == v@.subrange(lo as int, hi as int),
{
    let mut s = String::new();
    let mut i = lo;
    while i < hi
        invariant
            lo <= i <= hi <= v@.len(),
            s@ == v@.subrange(lo as int, i as int),
        decreases hi - i,
    {
        push_char(&mut s, v[i]);
        i = i + 1;
        assert(s@ =~= v@.subrange(lo as int, i as int));
    }
    s
}

/// The line `chars[start..end]`, without a `'\r'` at its end.
fn line_without_cr(chars: &Vec<char>, start: usize, end: usize) -> (s: String)
    requires
        start <= end <= chars@.len(),
    ensures
        s@ == strip_cr(chars@.subrange(start as int, end as int)),
{
    if end > start && chars[end - 1] == '\r' {
        let s = string_from_chars(chars, start, end - 1);
        assert(s@ =~= strip_cr(chars@.subrange(start as int, end as int)));
        s
    } else {
        string_from_chars(chars, start, end)
    }
}

/// Splits `chars` into lines as `str::lines` does.
fn split_into_lines(chars: &Vec<char>) -> (lines: Vec<String>)
    ensures
        string_views(lines@) == split_lines(chars@),
        forall|i: int| 0 <= i < lines@.len() ==> #[trigger] lines@[i]@.len() <= chars@.len(),
{
    let mut lines: Vec<String> = Vec::new();
    let mut start: usize = 0;
    let mut i: usize = 0;
    assert(chars@.skip(0) =~= chars@);
    while i < chars.len()
        invariant
            start <= i <= chars@.len(),
            forall|j: int| start <= j < i ==> chars@[j] != '\n',
            string_views(lines@) + split_lines(chars@.skip(start as int)) == split_lines(chars@),
            forall|j: int| 0 <= j < lines@.len() ==> #[trigger] lines@[j]@.len() <= chars@.len(),
        decreases chars@.len() - i,
    {
        if chars[i] == '\n' {
            let line = line_without_cr(chars, start, i);
            proof {
                let rest = chars@.skip(start as int);
                let k = i - start;
                assert forall|j: int| 0 <= j < k implies rest[j] != '\n' by {
                    assert(rest[j] == chars@[start + j]);
                }
                lemma_first_newline_is(rest, k as int);
                assert(rest.take(k as int) =~= chars@.subrange(start as int, i as int));
                assert(rest.skip(k + 1) =~= chars@.skip(i + 1));
                assert(split_lines(rest) == seq![strip_cr(rest.take(k as int))] + split_lines(rest.skip(k + 1)));
                assert(string_views(lines@.push(line)) =~= string_views(lines@).push(line@));
            }
            lines.push(line);
            start = i + 1;
        }
        i = i + 1;
    }
    if start < chars.len() {
        let line = string_from_chars(chars, start, chars.len());
        proof {
            let rest = chars@.skip(start as int);
            assert forall|j: int| 0 <= j < rest.len() implies rest[j] != '\n' by {
                assert(rest[j] == chars@[start + j]);
            }
            lemma_first_newline_is(rest, rest.len() as int);
            assert(rest =~= chars@.subrange(start as int, chars@.len() as int));
            assert(split_lines(rest) == seq![rest]);
            assert(string_views(lines@.push(line)) =~= string_views(lines@).push(line@));
        }
        lines.push(line);
    } else {
        assert(chars@.skip(start as int) =~= Seq::<char>::empty());
        assert(string_views(lines@) =~= string_views(lines@) + Seq::<Seq<char>>::empty());
    }
    lines
}

impl Buffer {
    /// The buffer for file contents `contents` read from `filename`: its lines
    /// as `str::lines` splits them, or one empty line when there are none.
    pub fn from_contents(contents: &str, filename: String) -> (b: Self)
        ensures
            b@ == initial_lines(contents@),
            b.wf(),
            b.file_name_of() == Some(filename@),
            !b.modified_flag(),
    {
        let chars = chars_of(contents);
        let total = chars.len();
        let mut lines = split_into_lines(&chars);
        if lines.len() == 0 {
            lines.push(String::new());
        }
        let b = Buffer { lines, filename: Some(filename), modified: false };
        assert(b@ =~= initial_lines(contents@));
        assert(forall|i: int| 0 <= i < b@.len() ==> #[trigger] b@[i].len() <= total);
        assert(lines_fit(b@));
        b
    }
}
/// Stepping forward and then back returns to the start, and so does stepping
/// back and then forward: `next_pos` and `prev_pos` undo each other on the
/// valid positions.
pub proof fn lemma_next_prev_inverse(lines: Seq<Seq<char>>, p: Pos)
    requires
        lines_fit(lines),
        is_valid_pos(lines, p),
    ensures
        next_pos_of(lines, p) matches Some(q) ==> is_valid_pos(lines, q) && prev_pos_of(lines, q) == Some(p),
        prev_pos_of(lines, p) matches Some(q) ==> is_valid_pos(lines, q) && next_pos_of(lines, q) == Some(p),
{
}

/// Every valid position holds a char: the line's own, or `'\n'` exactly at
/// the end-of-line slot.
pub proof fn lemma_valid_pos_has_char(lines: Seq<Seq<char>>, p: Pos)
    requires
        is_valid_pos(lines, p),
    ensures
        char_at_of(lines, p) is Some,
        (char_at_of(lines, p) == Some('\n')) <== (p.col == lines[p.row as int].len()),
{
}

/// Removing the char just inserted gives back the lines.
pub proof fn lemma_insert_then_remove(lines: Seq<Seq<char>>, row: usize, col: usize, c: char)
    requires
        row < lines.len() ==> col <= lines[row as int].len(),
    ensures
        with_char_removed(with_char_inserted(lines, row as int, col as int, c), Pos { row, col }) == lines,
{
    if row < lines.len() {
        assert(lines[row as int].insert(col as int, c).remove(col as int) =~= lines[row as int]);
        assert(with_char_removed(with_char_inserted(lines, row as int, col as int, c), Pos { row, col }) =~= lines);
    }
}

/// Joining an opened empty line back onto the line above it gives back the lines.
pub proof fn lemma_open_then_join(lines: Seq<Seq<char>>, row: int)
    requires
        0 <= row,
    ensures
        with_lines_joined(with_line_opened(lines, row + 1), row + 1, row) == lines,
{
    if row + 1 < lines.len() {
        let opened = with_line_opened(lines, row + 1);
        assert(opened[row] + opened[row + 1] =~= lines[row]);
        assert(with_lines_joined(opened, row + 1, row) =~= lines);
    }
}

/// A buffer made from file contents has at least one line, and its lines hold
/// no `'\n'`.
pub proof fn lemma_initial_lines(text: Seq<char>)
    ensures
        initial_lines(text).len() >= 1,
        forall|i: int, j: int|
            0 <= i < initial_lines(text).len() && 0 <= j < initial_lines(text)[i].len() ==> #[trigger] initial_lines(text)[i][j]
                != '\n',
{
    lemma_split_no_newline(text);
}

/// The lines `split_lines` yields hold no `'\n'`.
proof fn lemma_split_no_newline(text: Seq<char>)
    ensures
        forall|i: int, j: int|
            0 <= i < split_lines(text).len() && 0 <= j < split_lines(text)[i].len() ==> #[trigger] split_lines(text)[i][j]
                != '\n',
    decreases text.len(),
{
    if text.len() > 0 {
        let k = first_newline(text);
        lemma_first_newline_bounds(text);
        if k < text.len() {
            lemma_split_no_newline(text.skip(k + 1));
            let head = strip_cr(text.take(k));
            assert forall|j: int| 0 <= j < head.len() implies head[j] != '\n' by {
                assert(head[j] == text[j]);
            }
            assert forall|i: int, j: int|
                0 <= i < split_lines(text).len() && 0 <= j < split_lines(text)[i].len() implies #[trigger] split_lines(text)[i][j]
                    != '\n' by {
                if i > 0 {
                    assert(split_lines(text)[i] == split_lines(text.skip(k + 1))[i - 1]);
                }
            }
        }
    }
}

} // verus!
