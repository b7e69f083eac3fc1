//! Places in a text, and how cursor moves carry one place to another.

use vstd::prelude::*;
use crate::mode::Command;

verus! {

/// A place in a text.
#[derive(Clone, Copy, Debug, PartialEq, Eq, Structural)]
pub struct Position {
    /// Index of the line, from 0.
    pub line: i32,
    /// Number of characters of the line that lie before this place:
    /// 0 is before the first character, the line's length is after the last.
    pub offset: i32,
    /// The offset that a vertical move left behind on meeting a shorter line,
    /// and that the next vertical move tries to reach again.
    pub wishful_offset: Option<i32>,
}

/// `v` brought into the range from `lo` to `hi`.
pub open spec fn clamp(v: int, lo: int, hi: int) -> int {
    if v < lo {
        lo
    } else if v > hi {
        hi
    } else {
        v
    }
}

/// The number of characters of line `line`; 0 where the text has no such line.
pub open spec fn line_len(lines: Seq<Seq<char>>, line: int) -> int {
    if 0 <= line < lines.len() {
        lines[line].len() as int
    } else {
        0
    }
}

/// The text has a line, and line indices and offsets into it fit in an `i32`.
pub open spec fn indexable(lines: Seq<Seq<char>>) -> bool {
    &&& 1 <= lines.len() <= i32::MAX
    &&& forall|i: int| 0 <= i < lines.len() ==> (#[trigger] lines[i]).len() <= i32::MAX
}

impl Position {
    /// The place at `offset` in line `line`, with no wishful offset.
    pub open spec fn at(line: int, offset: int) -> Position {
        Position { line: line as i32, offset: offset as i32, wishful_offset: None }
    }

    pub fn new(line: i32, offset: i32) -> (p: Position)
        ensures
            p == Position::at(line as int, offset as int),
    {
        Position { line: line, offset: offset, wishful_offset: None }
    }

    /// Line and offset are not negative, and a wishful offset lies beyond the offset.
    pub open spec fn wf(self) -> bool {
        &&& self.line >= 0
        &&& self.offset >= 0
        &&& self.wishful_offset matches Some(w) ==> w > self.offset
    }

    /// The place lies in the text: on one of its lines, and not beyond that line's end.
    pub open spec fn within(self, lines: Seq<Seq<char>>) -> bool {
        &&& 0 <= self.line < lines.len()
        &&& 0 <= self.offset <= lines[self.line as int].len()
    }

    /// The offset that a vertical move aims for.
    pub open spec fn wish(self) -> int {
        match self.wishful_offset {
            Some(w) => w as int,
            None => self.offset as int,
        }
    }

    /// The place `n` characters to the right (to the left where `n` is negative),
    /// stopping at the ends of the line. The wishful offset is forgotten.
    pub open spec fn moved_right(self, lines: Seq<Seq<char>>, n: int) -> Position {
        Position {
            line: self.line,
            offset: clamp(self.offset + n, 0, line_len(lines, self.line as int)) as i32,
            wishful_offset: None,
        }
    }

    /// The place `n` lines down (up where `n` is negative), stopping at the
    /// first and last line. It keeps the wished-for offset where the line is
    /// long enough, else it stops at the line's end and remembers the wish.
    pub open spec fn moved_down(self, lines: Seq<Seq<char>>, n: int) -> Position {
        let line = clamp(self.line + n, 0, lines.len() - 1);
        let len = line_len(lines, line);
        let wish = self.wish();
        if wish <= len {
            Position { line: line as i32, offset: wish as i32, wishful_offset: None }
        } else {
            Position { line: line as i32, offset: len as i32, wishful_offset: Some(wish as i32) }
        }
    }

    /// Where the command moves this place to; `None` for a command that is no move.
    pub open spec fn moved(self, lines: Seq<Seq<char>>, m: Command) -> Option<Position> {
        match m {
            Command::MoveRight(n) => Some(self.moved_right(lines, n as int)),
            Command::MoveLeft(n) => Some(self.moved_right(lines, -(n as int))),
            Command::MoveDown(n) => Some(self.moved_down(lines, n as int)),
            Command::MoveUp(n) => Some(self.moved_down(lines, -(n as int))),
            _ => None,
        }
    }
}

/// The count of the opposite move: `-n`, or the largest count where `-n`
/// is more than an `i32` holds.
pub open spec fn reversed(n: i32) -> i32 {
    if n == i32::MIN {
        i32::MAX
    } else {
        (-n) as i32
    }
}

/// The command with a move to the left written as a move to the right, and
/// a move up as a move down.
pub open spec fn canonical(m: Command) -> Command {
    match m {
        Command::MoveLeft(n) => Command::MoveRight(reversed(n)),
        Command::MoveUp(n) => Command::MoveDown(reversed(n)),
        _ => m,
    }
}

/// Writes a move to the left as a move to the right, and a move up as a move
/// down; other commands are returned as they are.
pub fn canonicalize_move(mov: &Command) -> (m: Command)
    ensures
        m == canonical(*mov),
        !(m is MoveLeft),
        !(m is MoveUp),
{
    match *mov {
        Command::MoveLeft(n) => Command::MoveRight(
            if n == i32::MIN {
                i32::MAX
            } else {
                -n
            },
        ),
        Command::MoveUp(n) => Command::MoveDown(
            if n == i32::MIN {
                i32::MAX
            } else {
                -n
            },
        ),
        m => m,
    }
}

/// In a text that an `i32` can index, a command and its canonical form move
/// every place alike.
pub proof fn lemma_canonical_moves_alike(pos: Position, lines: Seq<Seq<char>>, m: Command)
    requires
        indexable(lines),
        pos.wf(),
    ensures
        pos.moved(lines, canonical(m)) == pos.moved(lines, m),
{
}

/// Whether the command moves a cursor.
pub open spec fn is_move(m: Command) -> bool {
    m is MoveLeft || m is MoveRight || m is MoveUp || m is MoveDown
}

/// Where a run of commands, applied in order, takes a place; `None` as soon
/// as one of them is no move.
pub open spec fn moved_through(pos: Position, lines: Seq<Seq<char>>, ms: Seq<Command>) -> Option<
    Position,
>
    decreases ms.len(),
{
    if ms.len() == 0 {
        Some(pos)
    } else {
        match moved_through(pos, lines, ms.drop_last()) {
            Some(p) => p.moved(lines, ms.last()),
            None => None,
        }
    }
}

/// A horizontal move ends on the same line, between that line's ends.
pub proof fn lemma_moved_right_within(pos: Position, lines: Seq<Seq<char>>, n: int)
    requires
        indexable(lines),
        pos.wf(),
    ensures
        pos.moved_right(lines, n).wf(),
        pos.moved_right(lines, n).line == pos.line,
        0 <= pos.moved_right(lines, n).offset <= line_len(lines, pos.line as int),
        pos.line < lines.len() ==> pos.moved_right(lines, n).within(lines),
{
}

/// A vertical move ends on a line of the text, between that line's ends.
pub proof fn lemma_moved_down_within(pos: Position, lines: Seq<Seq<char>>, n: int)
    requires
        indexable(lines),
        pos.wf(),
    ensures
        pos.moved_down(lines, n).wf(),
        pos.moved_down(lines, n).within(lines),
{
}

/// No move takes a place that lies in the text out of it.
pub proof fn lemma_move_stays_within(pos: Position, lines: Seq<Seq<char>>, m: Command)
    requires
        indexable(lines),
        pos.wf(),
        pos.within(lines),
        is_move(m),
    ensures
        pos.moved(lines, m) is Some,
        pos.moved(lines, m)->0.wf(),
        pos.moved(lines, m)->0.within(lines),
{
    match m {
        Command::MoveRight(n) => lemma_moved_right_within(pos, lines, n as int),
        Command::MoveLeft(n) => lemma_moved_right_within(pos, lines, -(n as int)),
        Command::MoveDown(n) => lemma_moved_down_within(pos, lines, n as int),
        Command::MoveUp(n) => lemma_moved_down_within(pos, lines, -(n as int)),
        _ => {},
    }
}

/// However many moves are made, and in whatever order, a place that lies in
/// the text stays in it: its line is one of the text's lines and its offset
/// is between 0 and that line's length.
pub proof fn lemma_moves_stay_within(pos: Position, lines: Seq<Seq<char>>, ms: Seq<Command>)
    requires
        indexable(lines),
        pos.wf(),
        pos.within(lines),
        forall|i: int| 0 <= i < ms.len() ==> is_move(#[trigger] ms[i]),
    ensures
        moved_through(pos, lines, ms) is Some,
        moved_through(pos, lines, ms)->0.wf(),
        0 <= moved_through(pos, lines, ms)->0.line <= lines.len() - 1,
        0 <= moved_through(pos, lines, ms)->0.offset <= lines[moved_through(
            pos,
            lines,
            ms,
        )->0.line as int].len(),
    decreases ms.len(),
{
    if ms.len() > 0 {
        lemma_moves_stay_within(pos, lines, ms.drop_last());
        lemma_move_stays_within(moved_through(pos, lines, ms.drop_last())->0, lines, ms.last());
    }
}

/// A place with no wishful offset that is moved vertically twice comes back
/// to its offset as soon as it reaches a line long enough for it, however
/// short the line in between was.
pub proof fn lemma_wish_is_kept(pos: Position, lines: Seq<Seq<char>>, first: int, second: int)
    requires
        indexable(lines),
        pos.wf(),
        pos.within(lines),
        pos.wishful_offset is None,
        line_len(
            lines,
            pos.moved_down(lines, first).moved_down(lines, second).line as int,
        ) >= pos.offset,
    ensures
        pos.moved_down(lines, first).moved_down(lines, second).offset == pos.offset,
        pos.moved_down(lines, first).moved_down(lines, second).wishful_offset is None,
{
}

/// A horizontal move by 0 leaves a place in the text, with no wishful offset, as it is.
pub proof fn lemma_move_right_zero(pos: Position, lines: Seq<Seq<char>>)
    requires
        pos.within(lines),
        pos.wishful_offset is None,
    ensures
        pos.moved(lines, Command::MoveRight(0)) == Some(pos),
        pos.moved(lines, Command::MoveLeft(0)) == Some(pos),
{
}

/// A vertical move by 0 leaves a place in the text as it is, wishful offset
/// included, where the place has no wish beyond the end of a line that has
/// grown under it.
pub proof fn lemma_move_down_zero(pos: Position, lines: Seq<Seq<char>>)
    requires
        pos.within(lines),
        pos.wf(),
        pos.wishful_offset is None || pos.offset == lines[pos.line as int].len(),
    ensures
        pos.moved(lines, Command::MoveDown(0)) == Some(pos),
        pos.moved(lines, Command::MoveUp(0)) == Some(pos),
{
}

} // verus!
