//! Windows: a buffer seen through a rectangle of the screen, with its cursors.

use vstd::prelude::*;
use vstd::string::*;
use crate::buffer::{Anchor, Buffer, BufferView, Display, Wrap, WrapStyle};
use crate::display::grid_cells;
use crate::errors::{CrbError, CrbResult, ErrorKind, described, failure, kind_text};
use crate::geometry::{Point, Size};
use crate::mode::{Command, Direction, Mode};
use crate::position::{Position, clamp};
use crate::state::State;
use crate::text::{join_lines, push_chars, push_signed_decimal, signed_decimal, text_size, to_chars};

verus! {

/// What a window does at each of its cursors.
#[derive(Debug, Clone, Copy, PartialEq, Eq, Structural)]
pub enum CursorOp {
    Move(Command),
    Insert(char),
    Delete(Direction),
}

/// The buffer after the operation at the anchor with number `id`.
pub open spec fn applied(v: BufferView, id: int, op: CursorOp) -> Result<BufferView, ErrorKind> {
    match op {
        CursorOp::Move(m) => v.move_anchor(id, m),
        CursorOp::Insert(c) => v.insert_before(id, c),
        CursorOp::Delete(d) => v.delete_at(id, d),
    }
}

/// The buffer after the operation at each cursor in turn, up to the first
/// cursor at which it fails, and the kind of that failure. What was done at
/// the cursors before the failing one stays done.
pub open spec fn applied_to_each(v: BufferView, cursors: Seq<Anchor>, op: CursorOp) -> (
    BufferView,
    Option<ErrorKind>,
)
    decreases cursors.len(),
{
    if cursors.len() == 0 {
        (v, None)
    } else {
        let (before, failed) = applied_to_each(v, cursors.drop_last(), op);
        match failed {
            Some(e) => (before, Some(e)),
            None => match applied(before, cursors.last().id(), op) {
                Ok(after) => (after, None),
                Err(e) => (before, Some(e)),
            },
        }
    }
}

/// The buffer after each character of `chars` in turn is inserted at every
/// cursor, up to the first failure, and the kind of that failure.
pub open spec fn typed_at_each(v: BufferView, cursors: Seq<Anchor>, chars: Seq<char>) -> (
    BufferView,
    Option<ErrorKind>,
)
    decreases chars.len(),
{
    if chars.len() == 0 {
        (v, None)
    } else {
        let (before, failed) = typed_at_each(v, cursors, chars.drop_last());
        match failed {
            Some(e) => (before, Some(e)),
            None => applied_to_each(before, cursors, CursorOp::Insert(chars.last())),
        }
    }
}

/// By how many lines a window `height` rows high, whose top row shows line
/// `scroll`, scrolls to keep line `line` in sight: up by what the line lies
/// above the top row, down by what it lies below the last row but two.
pub open spec fn follow(scroll: int, height: int, line: int) -> int {
    let up = if line - scroll < 0 {
        line - scroll
    } else {
        0
    };
    let down = if line - (scroll + height) + 2 > 0 {
        line - (scroll + height) + 2
    } else {
        0
    };
    up + down
}

/// The title of a window: a star where the buffer has unsaved changes, else
/// a blank; the window's index in square brackets; then the file's path,
/// marked where the file is new, or a note that the buffer has no file.
pub open spec fn title_text(v: WindowView) -> Seq<char> {
    seq![if v.buf.unsaved { '*' } else { ' ' }, '['] + signed_decimal(v.index as int) + seq![
        ']',
        ' ',
    ] + match v.buf.file_path {
        Some(p) => if v.buf.newfile {
            p + " (new file)"@
        } else {
            p
        },
        None => "empty buffer"@,
    }
}

pub struct WindowView {
    pub buf: BufferView,
    pub topleft: Point,
    pub size: Size,
    pub scroll: i32,
    pub mode: Mode,
    pub cursors: Seq<Anchor>,
    pub wrap: Wrap,
    pub index: i32,
}

impl WindowView {
    pub open spec fn wf(self) -> bool {
        &&& self.buf.wf()
        &&& self.cursors.len() >= 1
        &&& self.scroll >= 0
        &&& self.wrap.supported()
    }

    /// The window after the operation at each of its cursors, and the kind
    /// of the failure where it failed at one of them.
    pub open spec fn edited(self, op: CursorOp) -> (WindowView, Option<ErrorKind>) {
        let (buf, failed) = applied_to_each(self.buf, self.cursors, op);
        (WindowView { buf: buf, ..self }, failed)
    }

    /// The window after each of its cursors is moved as the command says.
    /// Where every cursor could be moved, the window scrolls to keep the
    /// last of them in sight.
    pub open spec fn moved(self, m: Command) -> (WindowView, Option<ErrorKind>) {
        let (buf, failed) = applied_to_each(self.buf, self.cursors, CursorOp::Move(m));
        match failed {
            Some(e) => (WindowView { buf: buf, ..self }, Some(e)),
            None => (
                WindowView {
                    buf: buf,
                    scroll: clamp(
                        self.scroll + follow(
                            self.scroll as int,
                            self.size.height as int,
                            buf.anchors[self.cursors.last().id()].line as int,
                        ),
                        0,
                        buf.lines.len() as int,
                    ) as i32,
                    ..self
                },
                None,
            ),
        }
    }

    /// The window after the characters are typed at each of its cursors.
    pub open spec fn typed(self, chars: Seq<char>) -> (WindowView, Option<ErrorKind>) {
        let (buf, failed) = typed_at_each(self.buf, self.cursors, chars);
        (WindowView { buf: buf, ..self }, failed)
    }

    /// The window after it scrolls by `n` lines: no further up than the first
    /// line, no further down than the line after the last.
    pub open spec fn scrolled_by(self, n: int) -> WindowView {
        WindowView { scroll: clamp(self.scroll + n, 0, self.buf.lines.len() as int) as i32, ..self }
    }

    /// The window after a scroll command; any other command is refused.
    pub open spec fn scrolled(self, c: Command) -> Result<WindowView, ErrorKind> {
        match c {
            Command::Scroll(n) => Ok(self.scrolled_by(n as int)),
            _ => Err(ErrorKind::InvalidScrollCommand),
        }
    }

    /// The window with its buffer emptied.
    pub open spec fn cleared(self) -> WindowView {
        WindowView { buf: self.buf.cleared(), ..self }
    }
}

pub struct Window {
    pub buf: Buffer,
    /// Location on the screen.
    pub topleft: Point,
    pub size: Size,
    /// The line that the top row shows.
    pub scroll: i32,
    pub mode: Mode,
    cursors: Vec<Anchor>,
    wrap: Wrap,
    index: i32,
}

impl View for Window {
    type V = WindowView;

    closed spec fn view(&self) -> WindowView {
        WindowView {
            buf: self.buf@,
            topleft: self.topleft,
            size: self.size,
            scroll: self.scroll,
            mode: self.mode,
            cursors: self.cursors@,
            wrap: self.wrap,
            index: self.index,
        }
    }
}

/// Does the operation at each cursor in turn and stops at the first failure.
fn apply_to_each(buf: &mut Buffer, cursors: &Vec<Anchor>, op: &CursorOp) -> (r: CrbResult<()>)
    requires
        old(buf).wf(),
        op is Insert ==> text_size(old(buf)@.lines) + cursors.len() <= i32::MAX,
    ensures
        final(buf).wf(),
        final(buf)@ == applied_to_each(old(buf)@, cursors@, *op).0,
        match r {
            Ok(()) => applied_to_each(old(buf)@, cursors@, *op).1 is None,
            Err(e) => applied_to_each(old(buf)@, cursors@, *op).1 == Some(e.kind)
                && e.description@ == kind_text(e.kind),
        },
        op is Insert && r is Ok ==> text_size(final(buf)@.lines) == text_size(old(buf)@.lines)
            + cursors.len(),
        op is Insert ==> text_size(final(buf)@.lines) <= text_size(old(buf)@.lines)
            + cursors.len(),
{
    let mut i: usize = 0;
    while i < cursors.len()
        invariant
            i <= cursors.len(),
            buf.wf(),
            applied_to_each(old(buf)@, cursors@.take(i as int), *op) == (buf@, None::<ErrorKind>),
            op is Insert ==> text_size(buf@.lines) == text_size(old(buf)@.lines) + i,
            op is Insert ==> text_size(old(buf)@.lines) + cursors.len() <= i32::MAX,
        decreases cursors.len() - i,
    {
        proof {
            assert(cursors@.take(i + 1).drop_last() =~= cursors@.take(i as int));
            assert(cursors@.take(i + 1).last() == cursors@[i as int]);
        }
        let r = match *op {
            CursorOp::Move(m) => buf.move_anchor(&cursors[i], &m),
            CursorOp::Insert(c) => buf.insert_text_before(&cursors[i], c),
            CursorOp::Delete(d) => buf.delete_at(&cursors[i], &d),
        };
        match r {
            Err(e) => {
                proof {
                    lemma_failure_stays(old(buf)@, cursors@, i + 1, *op);
                }
                return Err(e);
            },
            Ok(()) => {},
        }
        i = i + 1;
    }
    assert(cursors@.take(i as int) =~= cursors@);
    Ok(())
}

/// Once the operation has failed at a cursor, the cursors after it change nothing.
proof fn lemma_failure_stays(v: BufferView, cursors: Seq<Anchor>, n: int, op: CursorOp)
    requires
        0 <= n <= cursors.len(),
        applied_to_each(v, cursors.take(n), op).1 is Some,
    ensures
        applied_to_each(v, cursors, op) == applied_to_each(v, cursors.take(n), op),
    decreases cursors.len() - n,
{
    if n < cursors.len() {
        assert(cursors.take(n + 1).drop_last() =~= cursors.take(n));
        lemma_failure_stays(v, cursors, n + 1, op);
    } else {
        assert(cursors.take(n) =~= cursors);
    }
}

/// Once a character could not be typed, the characters after it change nothing.
proof fn lemma_typing_failure_stays(v: BufferView, cursors: Seq<Anchor>, chars: Seq<char>, n: int)
    requires
        0 <= n <= chars.len(),
        typed_at_each(v, cursors, chars.take(n)).1 is Some,
    ensures
        typed_at_each(v, cursors, chars) == typed_at_each(v, cursors, chars.take(n)),
    decreases chars.len() - n,
{
    if n < chars.len() {
        assert(chars.take(n + 1).drop_last() =~= chars.take(n));
        lemma_typing_failure_stays(v, cursors, chars, n + 1);
    } else {
        assert(chars.take(n) =~= chars);
    }
}

/// Where a move was made at every cursor, the last cursor is an anchor of the buffer.
proof fn lemma_last_cursor_kept(v: BufferView, cursors: Seq<Anchor>, op: CursorOp)
    requires
        cursors.len() >= 1,
        op is Move,
        applied_to_each(v, cursors, op).1 is None,
    ensures
        applied_to_each(v, cursors, op).0.has_anchor(cursors.last().id()),
{
}

impl Window {
    pub open spec fn wf(&self) -> bool {
        self@.wf() && self.counted()
    }

    /// The window's buffer has the count of its characters right.
    pub closed spec fn counted(&self) -> bool {
        self.buf.counted()
    }

    /// A window on the buffer, with one cursor at the start of the text. The
    /// window takes the next free index of the session.
    pub fn new(buf: Buffer, topleft: Point, size: Size, state: &mut State) -> (w: Window)
        requires
            buf.wf(),
            buf@.anchors.len() < i64::MAX,
            old(state).next_window_index < i32::MAX,
        ensures
            w.wf(),
            w@.buf == (BufferView {
                anchors: buf@.anchors.push(Position::at(0, 0)),
                ..buf@
            }),
            w@.cursors.len() == 1,
            w@.cursors[0].id() == buf@.anchors.len(),
            w@.topleft == topleft,
            w@.size == size,
            w@.scroll == 0,
            w@.mode == Mode::Normal,
            w@.wrap == (Wrap { style: WrapStyle::Truncate, width: size.width, vismove: false }),
            w@.index == old(state).next_window_index,
            *final(state) == (State {
                next_window_index: (old(state).next_window_index + 1) as i32,
                ..*old(state)
            }),
    {
        let mut buf = buf;
        let mut cursors: Vec<Anchor> = Vec::new();
        let a1 = buf.new_anchor();
        cursors.push(a1);
        let index: i32 = state.next_window_index;
        state.next_window_index = state.next_window_index + 1;
        Window {
            buf: buf,
            index: index,
            topleft: topleft,
            size: size,
            scroll: 0,
            cursors: cursors,
            mode: Mode::Normal,
            wrap: Wrap::default(size.width),
        }
    }

    /// Gives the window one more cursor, at the start of the text. The
    /// window's operations reach it after the cursors it had.
    pub fn add_cursor(&mut self) -> (a: Anchor)
        requires
            old(self).wf(),
            old(self)@.buf.anchors.len() < i64::MAX,
        ensures
            final(self).wf(),
            a.id() == old(self)@.buf.anchors.len(),
            final(self)@ == (WindowView {
                buf: BufferView {
                    anchors: old(self)@.buf.anchors.push(Position::at(0, 0)),
                    ..old(self)@.buf
                },
                cursors: old(self)@.cursors.push(a),
                ..old(self)@
            }),
    {
        let a = self.buf.new_anchor();
        self.cursors.push(a);
        a
    }

    pub fn mode(&self) -> (m: Mode)
        ensures
            m == self@.mode,
    {
        self.mode
    }

    pub fn set_mode(&mut self, m: Mode)
        ensures
            final(self)@ == (WindowView { mode: m, ..old(self)@ }),
            old(self).wf() ==> final(self).wf(),
    {
        self.mode = m;
    }

    /// The index that the window got from its session.
    pub fn index(&self) -> (i: i32)
        ensures
            i == self@.index,
    {
        self.index
    }

    /// Where on the screen the window's top-left corner is.
    pub fn topleft(&self) -> (p: Point)
        ensures
            p == self@.topleft,
    {
        self.topleft
    }

    pub fn size(&self) -> (s: Size)
        ensures
            s == self@.size,
    {
        self.size
    }

    /// The line that the window's top row shows.
    pub fn top_line(&self) -> (line: i32)
        ensures
            line == self@.scroll,
    {
        self.scroll
    }

    /// How many cursors the window has.
    pub fn count_cursors(&self) -> (n: usize)
        ensures
            n == self@.cursors.len(),
    {
        self.cursors.len()
    }

    pub fn buffer(&self) -> (buf: &Buffer)
        ensures
            buf@ == self@.buf,
            self.wf() ==> buf.wf(),
    {
        &self.buf
    }

    /// Records that the buffer's text is now on disk.
    pub fn mark_saved(&mut self)
        ensures
            final(self)@ == (WindowView {
                buf: BufferView { unsaved: false, ..old(self)@.buf },
                ..old(self)@
            }),
            old(self).wf() ==> final(self).wf(),
    {
        self.buf.mark_saved();
    }

    /// The text to write to the file of the window's buffer.
    pub fn save(&self) -> (r: CrbResult<String>)
        ensures
            match r {
                Ok(text) => self@.buf.file_path is Some && text@ == join_lines(self@.buf.lines),
                Err(e) => self@.buf.file_path is None && e.kind == ErrorKind::NoFilePath
                    && e.description@ == kind_text(e.kind),
            },
    {
        self.buf.save()
    }

    /// Moves every cursor as the command says, then scrolls so that the
    /// last cursor stays in sight. Where a cursor cannot be moved, the
    /// cursors before it stay moved and the window does not scroll.
    pub fn move_cursors(&mut self, m: &Command) -> (r: CrbResult<()>)
        requires
            old(self).wf(),
        ensures
            final(self).wf(),
            (final(self)@, failure(r)) == old(self)@.moved(*m),
            described(r),
    {
        match apply_to_each(&mut self.buf, &self.cursors, &CursorOp::Move(*m)) {
            Err(e) => {
                return Err(e);
            },
            Ok(()) => {},
        }
        let last: usize = self.cursors.len() - 1;
        let dataline: i64 = match self.buf.get_anchor_line(&self.cursors[last], &self.wrap) {
            Ok(at) => at.0 as i64,
            Err(e) => {
                proof {
                    lemma_last_cursor_kept(
                        old(self)@.buf,
                        old(self)@.cursors,
                        CursorOp::Move(*m),
                    );
                }
                return Err(e);
            },
        };
        let scroll: i64 = self.scroll as i64;
        let bottom: i64 = scroll + self.size.height as i64;
        let up: i64 = if dataline - scroll < 0 {
            dataline - scroll
        } else {
            0
        };
        let down: i64 = if dataline - bottom + 2 > 0 {
            dataline - bottom + 2
        } else {
            0
        };
        self.scroll_by(up + down);
        Ok(())
    }

    /// Scrolls by `n` lines, no further than the first line and the line after the last.
    fn scroll_by(&mut self, n: i64)
        requires
            old(self).wf(),
            -0x2_0000_0000 <= n <= 0x2_0000_0000,
        ensures
            final(self).wf(),
            final(self)@ == old(self)@.scrolled_by(n as int),
            final(self)@.scroll == clamp(
                old(self)@.scroll + n,
                0,
                old(self)@.buf.lines.len() as int,
            ),
    {
        let count: i64 = self.buf.count_lines() as i64;
        let target: i64 = self.scroll as i64 + n;
        self.scroll = if target < 0 {
            0
        } else if target > count {
            count as i32
        } else {
            target as i32
        };
    }

    /// The cells of the window's grid, row by row.
    pub fn display(&self) -> (cells: Vec<Display>)
        requires
            self.wf(),
        ensures
            cells@ == grid_cells(
                self@.buf,
                self@.scroll as int,
                self@.size.width as int,
                self@.size.height as int,
            ),
    {
        match self.buf.display(self.scroll as usize, self.size, &self.wrap) {
            Ok(cells) => cells,
            Err(_) => Vec::new(),
        }
    }

    /// Puts the character in before every cursor.
    pub fn insert(&mut self, c: char) -> (r: CrbResult<()>)
        requires
            old(self).wf(),
            text_size(old(self)@.buf.lines) + old(self)@.cursors.len() <= i32::MAX,
        ensures
            final(self).wf(),
            (final(self)@, failure(r)) == old(self)@.edited(CursorOp::Insert(c)),
            described(r),
            text_size(final(self)@.buf.lines) <= text_size(old(self)@.buf.lines)
                + old(self)@.cursors.len(),
    {
        apply_to_each(&mut self.buf, &self.cursors, &CursorOp::Insert(c))
    }

    /// Puts the characters of `s` in, one after the other, before every cursor.
    pub fn insert_s(&mut self, s: &str) -> (r: CrbResult<()>)
        requires
            old(self).wf(),
            text_size(old(self)@.buf.lines) + s@.len() * old(self)@.cursors.len() <= i32::MAX,
        ensures
            final(self).wf(),
            (final(self)@, failure(r)) == old(self)@.typed(s@),
            described(r),
            text_size(final(self)@.buf.lines) <= text_size(old(self)@.buf.lines) + s@.len()
                * old(self)@.cursors.len(),
    {
        let chars = to_chars(Some(s));
        let mut i: usize = 0;
        while i < chars.len()
            invariant
                i <= chars.len(),
                chars@ == s@,
                self.wf(),
                self@ == (WindowView { buf: self@.buf, ..old(self)@ }),
                typed_at_each(old(self)@.buf, old(self)@.cursors, chars@.take(i as int)) == (
                    self@.buf,
                    None::<ErrorKind>,
                ),
                text_size(self@.buf.lines) <= text_size(old(self)@.buf.lines) + i
                    * old(self)@.cursors.len(),
                text_size(old(self)@.buf.lines) + s@.len() * old(self)@.cursors.len() <= i32::MAX,
            decreases chars.len() - i,
        {
            proof {
                assert(chars@.take(i + 1).drop_last() =~= chars@.take(i as int));
                assert(chars@.take(i + 1).last() == chars@[i as int]);
                let n = old(self)@.cursors.len() as int;
                assert((i + 1) * n == i * n + n) by (nonlinear_arith);
                assert((i + 1) * n <= s@.len() * n) by (nonlinear_arith)
                    requires
                        i + 1 <= s@.len(),
                        n >= 0,
                ;
            }
            match apply_to_each(&mut self.buf, &self.cursors, &CursorOp::Insert(chars[i])) {
                Err(e) => {
                    proof {
                        lemma_typing_failure_stays(
                            old(self)@.buf,
                            old(self)@.cursors,
                            chars@,
                            i + 1,
                        );
                    }
                    return Err(e);
                },
                Ok(()) => {},
            }
            i = i + 1;
        }
        assert(chars@.take(i as int) =~= chars@);
        Ok(())
    }

    /// Empties the buffer.
    pub fn clear(&mut self) -> (r: CrbResult<()>)
        requires
            old(self).wf(),
        ensures
            final(self).wf(),
            r is Ok,
            final(self)@ == old(self)@.cleared(),
            text_size(final(self)@.buf.lines) == 1,
    {
        self.buf.clear()
    }

    /// Deletes at every cursor.
    pub fn delete(&mut self, d: Direction) -> (r: CrbResult<()>)
        requires
            old(self).wf(),
        ensures
            final(self).wf(),
            (final(self)@, failure(r)) == old(self)@.edited(CursorOp::Delete(d)),
            described(r),
    {
        apply_to_each(&mut self.buf, &self.cursors, &CursorOp::Delete(d))
    }

    /// Scrolls as the command says, no further than the first line and the
    /// line after the last.
    pub fn scroll(&mut self, c: &Command) -> (r: CrbResult<()>)
        requires
            old(self).wf(),
        ensures
            final(self).wf(),
            match r {
                Ok(()) => old(self)@.scrolled(*c) == Ok::<WindowView, ErrorKind>(final(self)@),
                Err(e) => old(self)@.scrolled(*c) == Err::<WindowView, ErrorKind>(e.kind)
                    && final(self)@ == old(self)@,
            },
            described(r),
    {
        match *c {
            Command::Scroll(n) => {
                self.scroll_by(n as i64);
                Ok(())
            },
            _ => Err(CrbError::of_kind(ErrorKind::InvalidScrollCommand)),
        }
    }

    pub fn title(&self) -> (title: String)
        ensures
            title@ == title_text(self@),
    {
        let mut title = String::from_str(
            if self.buf.is_unsaved() {
                "*"
            } else {
                " "
            },
        );
        proof {
            reveal_strlit("*");
            reveal_strlit(" ");
            reveal_strlit("[");
            reveal_strlit("] ");
        }
        title.append("[");
        let mut number: Vec<char> = Vec::new();
        push_signed_decimal(self.index as i64, &mut number);
        push_chars(&mut title, &number);
        title.append("] ");
        match self.buf.path() {
            Some(path) => {
                title.append(path);
                if self.buf.is_newfile() {
                    title.append(" (new file)");
                }
            },
            None => {
                title.append("empty buffer");
            },
        }
        assert(title@ =~= title_text(self@));
        title
    }
}

} // verus!
