use vstd::prelude::*;
use vstd::string::*;
use vstd::utf8::encode_utf8;
use vstd::view::View as _;

use crate::buffer::{push_char, Buffer};
use crate::cursor::Cursor;
use crate::pos::Pos;

verus! {

#[derive(Debug, Default, Clone, Copy, PartialEq, Eq, Structural)]
pub struct Size {
    pub width: usize,
    pub height: usize,
}

#[derive(Debug, Default, Clone, Copy, PartialEq, Eq, Structural)]
pub struct Position {
    pub col: usize,
    pub row: usize,
}

/// What one redraw puts on screen: the text rows, the status bar below them,
/// and where the terminal cursor goes.
pub struct Frame {
    pub rows: Vec<String>,
    pub status: String,
    pub cursor: Position,
}

/// The window onto the buffer: the terminal's size and the scroll position.
pub struct View {
    size: Size,
    /// Top-left buffer cell currently visible — i.e. the scroll position.
    offset: Position,
    needs_redraw: bool,
}

/// Rows available for buffer text — the last row is the status bar.
pub open spec fn text_height_of(size: Size) -> int {
    if size.height > 0 {
        size.height - 1
    } else {
        0
    }
}

/// The scroll position that keeps the cell `(row, col)` on screen, moving
/// `offset` as little as possible.
pub open spec fn scrolled(offset: Position, size: Size, row: usize, col: usize) -> Position {
    let h = text_height_of(size);
    let new_row: int = if row < offset.row {
        row as int
    } else if h > 0 && row >= offset.row + h {
        row - h + 1
    } else {
        offset.row as int
    };
    let new_col: int = if col < offset.col {
        col as int
    } else if size.width > 0 && col >= offset.col + size.width {
        col - size.width + 1
    } else {
        offset.col as int
    };
    Position { col: new_col as usize, row: new_row as usize }
}

/// Scrolling to `(row, col)` stays within `usize`.
pub open spec fn scroll_fits(offset: Position, size: Size, row: usize, col: usize) -> bool {
    &&& row >= offset.row && text_height_of(size) > 0 ==> offset.row + text_height_of(size) <= usize::MAX
    &&& col >= offset.col && size.width > 0 ==> offset.col + size.width <= usize::MAX
}

/// The part of `line` visible from column `from`, `width` chars wide.
pub open spec fn visible_part(line: Seq<char>, from: int, width: int) -> Seq<char> {
    let n = line.len() as int;
    let start = if from < n { from } else { n };
    let end = if from + width < n { from + width } else { n };
    line.subrange(start, end)
}

/// The decimal digits of `n`.
pub open spec fn decimal(n: nat) -> Seq<char>
    decreases n,
{
    if n < 10 {
        seq![digit_char(n)]
    } else {
        decimal(n / 10).push(digit_char(n % 10))
    }
}

/// The char for digit `d`.
pub open spec fn digit_char(d: nat) -> char {
    ('0' as u32 + d) as char
}

/// `n` spaces.
pub open spec fn spaces(n: nat) -> Seq<char> {
    Seq::new(n, |i: int| ' ')
}

/// The length in bytes of the UTF-8 encoding of `s`, as `str::len` reports it.
pub open spec fn byte_len(s: Seq<char>) -> int {
    (encode_utf8(s).len() as usize) as int
}

/// The left part of the status bar: file name, modified mark, line count.
pub open spec fn status_left(name: Option<Seq<char>>, modified: bool, lines: nat) -> Seq<char> {
    let shown = match name {
        Some(n) => n,
        None => "[No Name]"@,
    };
    let mark = if modified {
        " [+]"@
    } else {
        Seq::<char>::empty()
    };
    shown + mark + " \u{2014} "@ + decimal(lines) + " lines"@
}

/// The right part of the status bar: the 1-based cursor position.
pub open spec fn status_right(row: nat, col: nat) -> Seq<char> {
    decimal(row + 1) + ":"@ + decimal(col + 1)
}

/// The status bar: left and right parts with at least one space between them,
/// filling `width` bytes when they fit, cut to `width` chars.
pub open spec fn status_text(
    name: Option<Seq<char>>,
    modified: bool,
    lines: nat,
    row: nat,
    col: nat,
    width: nat,
) -> Seq<char> {
    let left = status_left(name, modified, lines);
    let right = status_right(row, col);
    let used = byte_len(left) + byte_len(right);
    let gap: nat = if width > used + 1 {
        (width - used) as nat
    } else {
        1
    };
    let full = left + spaces(gap) + right;
    full.take(if (width as int) < full.len() { width as int } else { full.len() as int })
}

/// The text shown on screen row `r`: a slice of buffer line `offset.row + r`,
/// or `~` below the end of the buffer.
pub open spec fn frame_row(lines: Seq<Seq<char>>, offset: Position, size: Size, r: int) -> Seq<char> {
    if offset.row + r < lines.len() {
        visible_part(lines[offset.row + r], offset.col as int, size.width as int)
    } else {
        "~"@
    }
}

/// Drawing a frame of a buffer of `line_count` lines for the cursor at `pos`
/// stays within `usize`: scrolling, the index of every screen row, the slice
/// of every line shown, and the 1-based position in the status bar.
pub open spec fn render_fits(offset: Position, size: Size, pos: Pos, line_count: nat) -> bool {
    let scrolled_to = scrolled(offset, size, pos.row, pos.col);
    let h = text_height_of(size);
    &&& scroll_fits(offset, size, pos.row, pos.col)
    &&& h > 0 ==> scrolled_to.row + h - 1 <= usize::MAX
    &&& h > 0 && scrolled_to.row < line_count ==> scrolled_to.col + size.width <= usize::MAX
    &&& pos.row < usize::MAX
    &&& pos.col < usize::MAX
}

/// What `render` does: when a redraw is due (and there is a row to draw on)
/// it scrolls the cursor into view, returns the rows, the status bar and the
/// cursor's screen cell, and clears the redraw flag; otherwise it returns
/// `None` and changes nothing.
pub open spec fn rendered(before: View, after: View, buffer: Buffer, pos: Pos, r: Option<Frame>) -> bool {
    let size = before.size_of();
    &&& after.size_of() == size
    &&& !before.dirty() || size.height == 0 ==> r is None && after.offset_of() == before.offset_of()
        && after.dirty() == before.dirty()
    &&& before.dirty() && size.height > 0 ==> {
        let off = scrolled(before.offset_of(), size, pos.row, pos.col);
        &&& after.offset_of() == off
        &&& !after.dirty()
        &&& r matches Some(frame) && {
            &&& frame.rows@.len() == text_height_of(size)
            &&& forall|i: int|
                0 <= i < frame.rows@.len() ==> #[trigger] frame.rows@[i]@ == frame_row(buffer@, off, size, i)
            &&& frame.cursor == (Position {
                col: (pos.col - off.col) as usize,
                row: (pos.row - off.row) as usize,
            })
            &&& match buffer.file_name_of() {
                None => frame.status@ == status_text(
                    None,
                    buffer.modified_flag(),
                    buffer@.len(),
                    pos.row as nat,
                    pos.col as nat,
                    size.width as nat,
                ),
                Some(path) => exists|name: Option<Seq<char>>|
                    #[trigger] file_name_fits(path, name) && frame.status@ == status_text(
                        name,
                        buffer.modified_flag(),
                        buffer@.len(),
                        pos.row as nat,
                        pos.col as nat,
                        size.width as nat,
                    ),
            }
        }
    }
}

/// The chars after the last `'/'` of `p` (all of `p` when it has none).
pub open spec fn last_component(p: Seq<char>) -> Seq<char>
    decreases p.len(),
{
    if p.len() == 0 || p.last() == '/' {
        Seq::empty()
    } else {
        last_component(p.drop_last()).push(p.last())
    }
}

/// `p` is a path with `'/'` separators only, no drive or server prefix, whose
/// last component is an ordinary name (not empty, not `.`, not `..`).
pub open spec fn is_plain_path(p: Seq<char>) -> bool {
    &&& !(p.len() >= 2 && p[0] == '/' && p[1] == '/')
    &&& forall|i: int| 0 <= i < p.len() ==> p[i] != '\\' && p[i] != ':'
    &&& last_component(p).len() > 0
    &&& last_component(p) != seq!['.']
    &&& last_component(p) != seq!['.', '.']
}

/// `p` without trailing separators and trailing `.` components, which path
/// normalization drops (`a/b/` and `a/b/.` both end in the component `b`).
pub open spec fn trim_tail(p: Seq<char>) -> Seq<char>
    decreases p.len(),
{
    if p.len() > 0 && p.last() == '/' {
        trim_tail(p.drop_last())
    } else if p.len() >= 2 && p.last() == '.' && p[p.len() - 2] == '/' {
        trim_tail(p.drop_last())
    } else {
        p
    }
}

/// What holds of the file name of `path` on every platform: a name is never
/// empty, and when `path` without its trailing separators and `.` components
/// is plain, its name is the last component that is left.
pub open spec fn file_name_fits(path: Seq<char>, name: Option<Seq<char>>) -> bool {
    &&& name matches Some(n) ==> n.len() > 0
    &&& is_plain_path(trim_tail(path)) ==> name == Some(last_component(trim_tail(path)))
}

/// Calls `Path::file_name` on `path` (converting the name back to a `String`,
/// which loses nothing since `path` is UTF-8): the final component, if it is a
/// normal one. How a path splits into components depends on the platform's
/// path syntax; what is stated is what holds on every platform — the name is
/// never empty, and for a path written with `'/'` alone, without prefix,
/// whose last component (after dropping trailing separators and `.`
/// components) is an ordinary name, it is that component (repeated separators
/// and `.` components being normalized away).
#[verifier::external_body]
fn path_file_name(path: &str) -> (r: Option<String>)
    ensures
        file_name_fits(
            path@,
            match r {
                Some(n) => Some(n@),
                None => None,
            },
        ),
{
    std::path::Path::new(path).file_name().map(|n| n.to_string_lossy().into_owned())
}

/// Appends the decimal digits of `n`.
fn push_decimal(s: &mut String, n: usize)
    ensures
        final(s)@ == old(s)@ + decimal(n as nat),
    decreases n,
{
    if n >= 10 {
        push_decimal(s, n / 10);
    }
    let d = (n % 10) as u8;
    let c = (48u8 + d) as char;
    assert(c == digit_char((n % 10) as nat));
    push_char(s, c);
    assert(final(s)@ =~= old(s)@ + decimal(n as nat));
}

impl View {
    pub closed spec fn size_of(&self) -> Size {
        self.size
    }

    pub closed spec fn offset_of(&self) -> Position {
        self.offset
    }

    /// Whether the next `render` redraws.
    pub closed spec fn dirty(&self) -> bool {
        self.needs_redraw
    }

    /// A view of the terminal's size, `(columns, rows)`, or 80x24 when it is
    /// not known; scrolled to the top, and due for a redraw.
    pub fn new(terminal_size: Option<(u16, u16)>) -> (v: Self)
        ensures
            v.size_of() == (match terminal_size {
                Some((w, h)) => Size { width: w as usize, height: h as usize },
                None => Size { width: 80, height: 24 },
            }),
            v.offset_of() == (Position { col: 0, row: 0 }),
            v.dirty(),
    {
        let (width, height) = match terminal_size {
            Some(s) => s,
            None => (80, 24),
        };
        View {
            size: Size { width: width as usize, height: height as usize },
            offset: Position { col: 0, row: 0 },
            needs_redraw: true,
        }
    }

    pub fn resize(&mut self, width: u16, height: u16)
        ensures
            final(self).size_of() == (Size { width: width as usize, height: height as usize }),
            final(self).offset_of() == old(self).offset_of(),
            final(self).dirty(),
    {
        self.size = Size { width: width as usize, height: height as usize };
        self.needs_redraw = true;
    }

    /// Anything that changes what's on screen calls this; `render` is a no-op
    /// otherwise, so idle keys don't cause a repaint.
    pub fn mark_dirty(&mut self)
        ensures
            final(self).size_of() == old(self).size_of(),
            final(self).offset_of() == old(self).offset_of(),
            final(self).dirty(),
    {
        self.needs_redraw = true;
    }

    /// Rows available for buffer text — the last row is the status bar.
    fn text_height(&self) -> (h: usize)
        ensures
            h == text_height_of(self.size_of()),
    {
        self.size.height.saturating_sub(1)
    }

    /// Adjust `offset` so the cursor stays on screen. Four cases: off the top,
    /// off the bottom, off the left, off the right.
    fn scroll_into_view(&mut self, cursor: &Cursor)
        requires
            scroll_fits(old(self).offset_of(), old(self).size_of(), cursor.at().row, cursor.at().col),
        ensures
            final(self).offset_of() == scrolled(
                old(self).offset_of(),
                old(self).size_of(),
                cursor.at().row,
                cursor.at().col,
            ),
            final(self).size_of() == old(self).size_of(),
            final(self).dirty() == old(self).dirty(),
    {
        let row = cursor.row();
        let col = cursor.col();
        let height = self.text_height();

        if row < self.offset.row {
            self.offset.row = row;
        } else if height > 0 && row >= self.offset.row + height {
            self.offset.row = row - height + 1;
        }
        if col < self.offset.col {
            self.offset.col = col;
        } else if self.size.width > 0 && col >= self.offset.col + self.size.width {
            self.offset.col = col - self.size.width + 1;
        }
    }

    /// Buffer coordinates -> screen coordinates.
    fn to_screen(&self, cursor: &Cursor) -> (p: Position)
        ensures
            p.col == if cursor.at().col >= self.offset_of().col {
                cursor.at().col - self.offset_of().col
            } else {
                0
            },
            p.row == if cursor.at().row >= self.offset_of().row {
                cursor.at().row - self.offset_of().row
            } else {
                0
            },
    {
        Position {
            col: cursor.col().saturating_sub(self.offset.col),
            row: cursor.row().saturating_sub(self.offset.row),
        }
    }

    /// The horizontal window into a line, for when it is scrolled or overlong.
    /// Sliced on character boundaries.
    fn visible_slice<'a>(&self, line: &'a str) -> (r: &'a str)
        requires
            self.offset_of().col + self.size_of().width <= usize::MAX,
        ensures
            r@ == visible_part(line@, self.offset_of().col as int, self.size_of().width as int),
    {
        let n = line.unicode_len();
        let start = if self.offset.col < n {
            self.offset.col
        } else {
            n
        };
        let end = if self.offset.col + self.size.width < n {
            self.offset.col + self.size.width
        } else {
            n
        };
        line.substring_char(start, end)
    }

    /// The first `width` chars of `s`.
    fn truncate<'a>(&self, s: &'a str) -> (r: &'a str)
        ensures
            r@ == s@.take(
                if (self.size_of().width as int) < s@.len() {
                    self.size_of().width as int
                } else {
                    s@.len() as int
                },
            ),
    {
        let n = s.unicode_len();
        let end = if self.size.width < n {
            self.size.width
        } else {
            n
        };
        let r = s.substring_char(0, end);
        assert(r@ =~= s@.take(end as int));
        r
    }
}

impl View {
    /// The status bar for a buffer shown under `name` with `lines` lines and
    /// the cursor at `cursor`.
    pub fn status_line(&self, name: Option<&str>, modified: bool, lines: usize, cursor: &Cursor) -> (r: String)
        requires
            cursor.at().row < usize::MAX,
            cursor.at().col < usize::MAX,
        ensures
            r@ == status_text(
                match name {
                    Some(n) => Some(n@),
                    None => None,
                },
                modified,
                lines as nat,
                cursor.at().row as nat,
                cursor.at().col as nat,
                self.size_of().width as nat,
            ),
    {
        let ghost shown = match name {
            Some(n) => Some(n@),
            None => None,
        };
        let mut left = String::new();
        match name {
            Some(n) => left.append(n),
            None => left.append("[No Name]"),
        }
        if modified {
            left.append(" [+]");
        }
        left.append(" \u{2014} ");
        push_decimal(&mut left, lines);
        left.append(" lines");
        assert(left@ =~= status_left(shown, modified, lines as nat));

        let mut right = String::new();
        push_decimal(&mut right, cursor.row() + 1);
        right.append(":");
        push_decimal(&mut right, cursor.col() + 1);
        assert(right@ =~= status_right(cursor.at().row as nat, cursor.at().col as nat));

        let used = left.as_str().len().saturating_add(right.as_str().len());
        let gap = if self.size.width > used {
            self.size.width - used
        } else {
            1
        };
        let mut status = left;
        let mut i: usize = 0;
        while i < gap
            invariant
                i <= gap,
                status@ == status_left(shown, modified, lines as nat) + spaces(i as nat),
            decreases gap - i,
        {
            push_char(&mut status, ' ');
            i = i + 1;
            assert(status@ =~= status_left(shown, modified, lines as nat) + spaces(i as nat));
        }
        status.append(right.as_str());
        let cut = self.truncate(status.as_str());
        cut.to_owned()
    }

    /// Draws the buffer around the cursor when a redraw is due: scrolls the
    /// cursor into view and returns what to show; `None` when nothing is due
    /// or there is no room.
    pub fn render(&mut self, buffer: &Buffer, cursor: &Cursor) -> (r: Option<Frame>)
        requires
            old(self).dirty() && old(self).size_of().height > 0 ==> render_fits(
                old(self).offset_of(),
                old(self).size_of(),
                cursor.at(),
                buffer@.len(),
            ),
        ensures
            rendered(*old(self), *final(self), *buffer, cursor.at(), r),
    {
        if !self.needs_redraw || self.size.height == 0 {
            return None;
        }
        self.scroll_into_view(cursor);
        let h = self.text_height();
        let mut rows: Vec<String> = Vec::new();
        let mut screen_row: usize = 0;
        while screen_row < h
            invariant
                screen_row <= h,
                h == text_height_of(self.size_of()),
                h > 0 && self.offset_of().row < buffer@.len() ==> self.offset_of().col
                    + self.size_of().width <= usize::MAX,
                h > 0 ==> self.offset_of().row + h - 1 <= usize::MAX,
                rows@.len() == screen_row,
                forall|i: int| 0 <= i < screen_row ==> #[trigger] rows@[i]@ == frame_row(buffer@, self.offset_of(), self.size_of(), i),
            decreases h - screen_row,
        {
            let text = match buffer.line(self.offset.row + screen_row) {
                Some(line) => self.visible_slice(line).to_owned(),
                None => "~".to_owned(),
            };
            rows.push(text);
            screen_row = screen_row + 1;
        }
        let name = match buffer.filename() {
            Some(path) => path_file_name(path),
            None => None,
        };
        let ghost shown: Option<Seq<char>> = match &name {
            Some(n) => Some(n@),
            None => None,
        };
        proof {
            if let Some(path) = buffer.file_name_of() {
                assert(file_name_fits(path, shown));
            }
        }
        let status = match &name {
            Some(n) => self.status_line(Some(n.as_str()), buffer.is_modified(), buffer.len(), cursor),
            None => self.status_line(None, buffer.is_modified(), buffer.len(), cursor),
        };
        assert(status@ == status_text(
            shown,
            buffer.modified_flag(),
            buffer@.len(),
            cursor.at().row as nat,
            cursor.at().col as nat,
            self.size_of().width as nat,
        ));
        let screen = self.to_screen(cursor);
        self.needs_redraw = false;
        Some(Frame { rows, status, cursor: screen })
    }
}

impl View {
    /// Whether `render` of `buffer` with the cursor `cursor` stays within `usize`.
    pub fn can_render(&self, buffer: &Buffer, cursor: &Cursor) -> (r: bool)
        ensures
            r == (self.dirty() && self.size_of().height > 0 ==> render_fits(
                self.offset_of(),
                self.size_of(),
                cursor.at(),
                buffer@.len(),
            )),
    {
        if !self.needs_redraw || self.size.height == 0 {
            return true;
        }
        let row = cursor.row();
        let col = cursor.col();
        if row == usize::MAX || col == usize::MAX {
            return false;
        }
        let h = self.text_height();
        let w = self.size.width;
        if row >= self.offset.row && h > 0 && self.offset.row > usize::MAX - h {
            return false;
        }
        if col >= self.offset.col && w > 0 && self.offset.col > usize::MAX - w {
            return false;
        }
        let new_row = if row < self.offset.row {
            row
        } else if h > 0 && row >= self.offset.row + h {
            row - h + 1
        } else {
            self.offset.row
        };
        let new_col = if col < self.offset.col {
            col
        } else if w > 0 && col >= self.offset.col + w {
            col - w + 1
        } else {
            self.offset.col
        };
        (h == 0 || new_row <= usize::MAX - (h - 1)) && (h == 0 || new_row >= buffer.len() || new_col
            <= usize::MAX - w)
    }
}

/// After scrolling, the cursor's cell is on screen: within the text rows and
/// within the width (where there are any).
pub proof fn lemma_scroll_shows_cursor(offset: Position, size: Size, row: usize, col: usize)
    requires
        scroll_fits(offset, size, row, col),
    ensures
        text_height_of(size) > 0 ==> scrolled(offset, size, row, col).row <= row < scrolled(
            offset,
            size,
            row,
            col,
        ).row + text_height_of(size),
        size.width > 0 ==> scrolled(offset, size, row, col).col <= col < scrolled(offset, size, row, col).col
            + size.width,
{
}

/// A cursor that is already on screen does not scroll the view.
pub proof fn lemma_scroll_only_when_needed(offset: Position, size: Size, row: usize, col: usize)
    requires
        offset.row <= row < offset.row + text_height_of(size),
        offset.col <= col < offset.col + size.width,
    ensures
        scrolled(offset, size, row, col) == offset,
{
}

/// `render` is a no-op until something marks the view dirty again: right
/// after a render, another render draws nothing.
pub proof fn lemma_render_once(
    v0: View,
    v1: View,
    v2: View,
    buffer: Buffer,
    p1: Pos,
    p2: Pos,
    r1: Option<Frame>,
    r2: Option<Frame>,
)
    requires
        rendered(v0, v1, buffer, p1, r1),
        rendered(v1, v2, buffer, p2, r2),
    ensures
        r2 is None,
        v2.offset_of() == v1.offset_of(),
{
}

/// The cursor's screen cell in a drawn frame lies inside the text area.
pub proof fn lemma_frame_cursor_on_screen(v0: View, v1: View, buffer: Buffer, pos: Pos, frame: Frame)
    requires
        scroll_fits(v0.offset_of(), v0.size_of(), pos.row, pos.col),
        rendered(v0, v1, buffer, pos, Some(frame)),
        v0.size_of().width > 0,
        v0.size_of().height > 1,
    ensures
        frame.cursor.row < text_height_of(v0.size_of()),
        frame.cursor.col < v0.size_of().width,
{
    lemma_scroll_shows_cursor(v0.offset_of(), v0.size_of(), pos.row, pos.col);
}

/// The distance between two offsets.
pub open spec fn gap_between(a: int, b: int) -> int {
    if a <= b {
        b - a
    } else {
        a - b
    }
}

/// Scrolling moves the view as little as possible: a cursor above the top row
/// becomes the top row, one left of the first column becomes the first
/// column, and of all the offsets that would show the cursor the one chosen
/// is the nearest to the old one, row-wise and column-wise.
pub proof fn lemma_scroll_is_minimal(offset: Position, size: Size, row: usize, col: usize, other: Position)
    requires
        scroll_fits(offset, size, row, col),
    ensures
        row < offset.row ==> scrolled(offset, size, row, col).row == row,
        col < offset.col ==> scrolled(offset, size, row, col).col == col,
        text_height_of(size) > 0 && other.row <= row < other.row + text_height_of(size) ==> gap_between(
            scrolled(offset, size, row, col).row as int,
            offset.row as int,
        ) <= gap_between(other.row as int, offset.row as int),
        size.width > 0 && other.col <= col < other.col + size.width ==> gap_between(
            scrolled(offset, size, row, col).col as int,
            offset.col as int,
        ) <= gap_between(other.col as int, offset.col as int),
{
}

/// The number that a string of decimal digits reads as.
pub open spec fn digits_value(s: Seq<char>) -> int
    decreases s.len(),
{
    if s.len() == 0 {
        0
    } else {
        digits_value(s.drop_last()) * 10 + (s.last() as int - '0' as int)
    }
}

/// `decimal(n)` is the base-ten representation of `n`: at least one digit,
/// every char a digit, no leading zero (but for `0` itself), and read back it
/// gives `n`.
pub proof fn lemma_decimal_reads_back(n: nat)
    ensures
        decimal(n).len() >= 1,
        forall|i: int| 0 <= i < decimal(n).len() ==> '0' <= #[trigger] decimal(n)[i] <= '9',
        decimal(n)[0] == '0' ==> n == 0,
        digits_value(decimal(n)) == n,
    decreases n,
{
    if n >= 10 {
        lemma_decimal_reads_back(n / 10);
        let d = decimal(n);
        assert(d.drop_last() =~= decimal(n / 10));
        assert(d[0] == decimal(n / 10)[0]);
        assert forall|i: int| 0 <= i < d.len() implies '0' <= #[trigger] d[i] <= '9' by {
            if i < d.len() - 1 {
                assert(d[i] == decimal(n / 10)[i]);
            }
        }
        assert(digit_char(n % 10) as int == 48 + n % 10);
        assert(d.last() == digit_char(n % 10));
        assert(n == (n / 10) * 10 + n % 10);
        assert(digits_value(d) == digits_value(d.drop_last()) * 10 + (d.last() as int - '0' as int));
        assert(digits_value(d) == digits_value(decimal(n / 10)) * 10 + (n % 10));
    } else {
        assert(digit_char(n) as int == 48 + n);
        let d = decimal(n);
        assert(d.drop_last() =~= Seq::<char>::empty());
        assert(digits_value(d) == digits_value(d.drop_last()) * 10 + (d.last() as int - '0' as int));
    }
}

/// The status bar's right part is the cursor's 1-based row and column in
/// decimal, separated by `:`.
pub proof fn lemma_status_right(row: nat, col: nat)
    ensures
        status_right(row, col) == decimal(row + 1) + ":"@ + decimal(col + 1),
        digits_value(decimal(row + 1)) == row + 1,
        digits_value(decimal(col + 1)) == col + 1,
{
    lemma_decimal_reads_back(row + 1);
    lemma_decimal_reads_back(col + 1);
}

/// The status bar's left part is the shown name, the modified mark, and the
/// line count in decimal.
pub proof fn lemma_status_left(name: Option<Seq<char>>, modified: bool, lines: nat)
    ensures
        status_left(name, modified, lines) == (match name {
            Some(n) => n,
            None => "[No Name]"@,
        }) + (if modified {
            " [+]"@
        } else {
            Seq::<char>::empty()
        }) + " \u{2014} "@ + decimal(lines) + " lines"@,
        digits_value(decimal(lines)) == lines,
{
    lemma_decimal_reads_back(lines);
}

} // verus!
