//! The buffer: a text of at least one line, and the anchors that mark places in it.

use vstd::prelude::*;
use vstd::string::*;
use crate::errors::{CrbError, CrbResult, ErrorKind, kind_text};
use crate::mode::{Command, Direction};
use crate::position::{
    Position, canonicalize_move, indexable, lemma_canonical_moves_alike, line_len,
};
use crate::settings::{Color, Settings};
use crate::text::{
    join_lines, join_text, lemma_join_split, lemma_split_lines_newline_free,
    lemma_split_lines_nonempty, lemma_text_size_bounds, lemma_text_size_ge_len,
    lemma_text_size_insert, lemma_text_size_of_split, lemma_text_size_remove,
    lemma_text_size_update, lines_of, newline_free, split_lines, split_text, text_size,
};

verus! {

broadcast use vstd::string::group_string_axioms;

/// A reference to a place in a buffer. The buffer that made the anchor keeps
/// the place up to date as the text changes.
#[derive(Debug, PartialEq, Eq, Structural, Clone, Copy, Hash)]
pub struct Anchor {
    id: i64,
}

impl Anchor {
    /// The anchor's number: its index in the anchor table of its buffer.
    pub closed spec fn id(self) -> int {
        self.id as int
    }

    /// The anchor with the given number.
    pub closed spec fn numbered(id: int) -> Anchor {
        Anchor { id: id as i64 }
    }

    /// Anchors are told apart by their numbers alone.
    pub proof fn lemma_numbered(self)
        ensures
            self == Anchor::numbered(self.id()),
            i64::MIN <= self.id() <= i64::MAX,
    {
    }

    pub(crate) fn with_id(id: i64) -> (a: Anchor)
        ensures
            a == Anchor::numbered(id as int),
            a.id() == id,
    {
        Anchor { id: id }
    }
}

/// Where the place `p` goes when line `line` is joined to the end of the
/// line before it, which had `len` characters: a place on the joined line
/// moves up and `len` to the right (no further than the largest offset);
/// any other place stays.
pub open spec fn carried_up(p: Position, line: int, len: int) -> Position {
    if p.line == line {
        Position::at(
            p.line - 1,
            if p.offset + len > i32::MAX {
                i32::MAX as int
            } else {
                p.offset + len
            },
        )
    } else {
        p
    }
}

/// Where the place `p` goes when the character before `from` is removed: a
/// place on the same line, at or after `from`, moves one to the left; any
/// other place stays.
pub open spec fn pulled_left(p: Position, from: Position) -> Position {
    if p.line == from.line && p.offset >= from.offset {
        Position::at(p.line as int, p.offset - 1)
    } else {
        p
    }
}

/// What one cell of the grid shows.
#[derive(Debug, Clone, Copy, PartialEq, Eq, Structural)]
pub enum Symbol {
    /// A character of the text.
    Char(char),
    /// A character in a colour of its own: a digit or a blank of the line-number gutter.
    ColorChar(char, Color),
    /// The mark of an anchor; it stands before the cell at the anchor's place.
    Anchor(Anchor),
    /// Nothing: the cell lies beyond the end of a line or of the text.
    Void,
}

/// One cell of the grid, with its column `x` and row `y`.
#[derive(Debug, Clone, Copy, PartialEq, Eq, Structural)]
pub struct Display {
    pub x: i32,
    pub y: i32,
    pub symbol: Symbol,
}

/// The order in which anchors are drawn: by line, then by offset, then by number.
pub open spec fn comes_before(a: (Anchor, Position), b: (Anchor, Position)) -> bool {
    a.1.line < b.1.line || (a.1.line == b.1.line && (a.1.offset < b.1.offset || (a.1.offset
        == b.1.offset && a.0.id() < b.0.id())))
}

/// Whether the anchor with number `a` is in the list.
pub open spec fn listed(order: Seq<(Anchor, Position)>, a: int) -> bool {
    exists|p: int| 0 <= p < order.len() && (#[trigger] order[p]).0.id() == a
}

/// The list holds every anchor of the table once, with its place, in drawing order.
pub open spec fn in_display_order(order: Seq<(Anchor, Position)>, anchors: Seq<Position>) -> bool {
    &&& order.len() == anchors.len()
    &&& forall|p: int|
        0 <= p < order.len() ==> 0 <= (#[trigger] order[p]).0.id() < anchors.len() && order[p].1
            == anchors[order[p].0.id()]
    &&& forall|a: int| 0 <= a < anchors.len() ==> #[trigger] listed(order, a)
    &&& forall|p: int, q: int|
        0 <= p < q < order.len() ==> comes_before(#[trigger] order[p], #[trigger] order[q])
}

/// What a buffer is to its users.
pub struct BufferView {
    /// The lines of the text.
    pub lines: Seq<Seq<char>>,
    /// For each anchor, by its number, the place it marks.
    pub anchors: Seq<Position>,
    /// The path of the buffer's file, where it has one.
    pub file_path: Option<Seq<char>>,
    /// Whether the text was edited since it was loaded or saved.
    pub unsaved: bool,
    /// Whether the buffer was made for a file that does not exist yet.
    pub newfile: bool,
    pub settings: Settings,
}

impl BufferView {
    pub open spec fn wf(self) -> bool {
        &&& self.lines.len() >= 1
        &&& text_size(self.lines) <= i32::MAX
        &&& newline_free(self.lines)
        &&& self.anchors.len() <= i64::MAX
        &&& forall|a: int| 0 <= a < self.anchors.len() ==> (#[trigger] self.anchors[a]).wf()
    }

    /// Whether the buffer made an anchor with this number.
    pub open spec fn has_anchor(self, id: int) -> bool {
        0 <= id < self.anchors.len()
    }

    /// The buffer after `c` is put in before the anchor. A newline cuts the
    /// anchor's line in two at the anchor, which goes to the start of the
    /// second; any other character joins the line, and the anchor goes to
    /// its right. No other anchor is touched.
    pub open spec fn insert_before(self, id: int, c: char) -> Result<BufferView, ErrorKind> {
        if !self.has_anchor(id) {
            Err(ErrorKind::NoSuchAnchor)
        } else if !self.anchors[id].within(self.lines) {
            Err(ErrorKind::NoLineAtPosition)
        } else {
            let pos = self.anchors[id];
            let line = self.lines[pos.line as int];
            if c == '\n' {
                Ok(
                    BufferView {
                        lines: self.lines.update(
                            pos.line as int,
                            line.take(pos.offset as int),
                        ).insert(pos.line + 1, line.skip(pos.offset as int)),
                        anchors: self.anchors.update(id, Position::at(pos.line + 1, 0)),
                        unsaved: true,
                        ..self
                    },
                )
            } else {
                Ok(
                    BufferView {
                        lines: self.lines.update(
                            pos.line as int,
                            line.insert(pos.offset as int, c),
                        ),
                        anchors: self.anchors.update(
                            id,
                            Position::at(pos.line as int, pos.offset + 1),
                        ),
                        unsaved: true,
                        ..self
                    },
                )
            }
        }
    }

    /// The buffer after what lies just before `pos` is removed: nothing at
    /// the start of the text; at the start of another line the line break,
    /// which joins the line to the one before it; else one character.
    pub open spec fn delete_back(self, pos: Position) -> Result<BufferView, ErrorKind> {
        if !pos.within(self.lines) {
            Err(ErrorKind::NoLineAtPosition)
        } else if pos.offset == 0 && pos.line == 0 {
            Ok(self)
        } else if pos.offset == 0 {
            let prev = self.lines[pos.line - 1];
            let cur = self.lines[pos.line as int];
            Ok(
                BufferView {
                    lines: self.lines.update(pos.line - 1, prev + cur).remove(pos.line as int),
                    anchors: Seq::new(
                        self.anchors.len(),
                        |a: int| carried_up(self.anchors[a], pos.line as int, prev.len() as int),
                    ),
                    unsaved: true,
                    ..self
                },
            )
        } else {
            Ok(
                BufferView {
                    lines: self.lines.update(
                        pos.line as int,
                        self.lines[pos.line as int].remove(pos.offset - 1),
                    ),
                    anchors: Seq::new(
                        self.anchors.len(),
                        |a: int| pulled_left(self.anchors[a], pos),
                    ),
                    unsaved: true,
                    ..self
                },
            )
        }
    }

    /// The buffer after a deletion at the anchor: backward removes what lies
    /// before the anchor; forward removes what lies before the place one to
    /// the anchor's right on its line.
    pub open spec fn delete_at(self, id: int, d: Direction) -> Result<BufferView, ErrorKind> {
        if !self.has_anchor(id) {
            Err(ErrorKind::NoSuchAnchor)
        } else {
            match d {
                Direction::B => self.delete_back(self.anchors[id]),
                Direction::F => self.delete_back(self.anchors[id].moved_right(self.lines, 1)),
            }
        }
    }

    /// The buffer with its text emptied and every anchor at the start.
    pub open spec fn cleared(self) -> BufferView {
        BufferView {
            lines: seq![Seq::<char>::empty()],
            anchors: Seq::new(self.anchors.len(), |a: int| Position::at(0, 0)),
            unsaved: true,
            ..self
        }
    }

    /// The buffer after the anchor is moved as the command says.
    pub open spec fn move_anchor(self, id: int, m: Command) -> Result<BufferView, ErrorKind> {
        if !self.has_anchor(id) {
            Err(ErrorKind::NoSuchAnchor)
        } else {
            match self.anchors[id].moved(self.lines, m) {
                Some(p) => Ok(BufferView { anchors: self.anchors.update(id, p), ..self }),
                None => Err(ErrorKind::UnsupportedMoveCommand),
            }
        }
    }
}

pub struct Buffer {
    contents: Vec<String>,
    pub file_path: Option<String>,
    pub unsaved: bool,
    pub newfile: bool,
    settings: Settings,
    anchors: Vec<Position>,
    /// The number of characters of the text, newlines counted.
    size: usize,
}

impl View for Buffer {
    type V = BufferView;

    closed spec fn view(&self) -> BufferView {
        BufferView {
            lines: lines_of(self.contents@),
            anchors: self.anchors@,
            file_path: match self.file_path {
                Some(p) => Some(p@),
                None => None,
            },
            unsaved: self.unsaved,
            newfile: self.newfile,
            settings: self.settings,
        }
    }
}

/// A well-formed view has a text that `i32` line numbers and offsets can index.
pub proof fn lemma_wf_indexable(v: BufferView)
    requires
        v.wf(),
    ensures
        indexable(v.lines),
        forall|i: int| 0 <= i < v.lines.len() ==> (#[trigger] v.lines[i]).len() < i32::MAX,
{
    lemma_text_size_ge_len(v.lines);
    assert forall|i: int| 0 <= i < v.lines.len() implies (#[trigger] v.lines[i]).len()
        < i32::MAX by {
        lemma_text_size_bounds(v.lines, i);
    }
}

/// Saving a buffer as it was loaded writes the file's text back line for
/// line, a newline after each: the text that was read, then one newline.
pub proof fn lemma_save_after_load(text: Seq<char>)
    ensures
        join_lines(split_lines(text)) == text + seq!['\n'],
{
    lemma_join_split(text);
}

/// Putting a character, a newline too, in before an anchor and then deleting
/// backward at that anchor gives back the text as it was, and the anchor's
/// line and offset.
pub proof fn lemma_insert_then_delete(v: BufferView, id: int, c: char)
    requires
        v.wf(),
        v.has_anchor(id),
        v.anchors[id].within(v.lines),
    ensures
        v.insert_before(id, c) is Ok,
        v.insert_before(id, c)->Ok_0.delete_at(id, Direction::B) is Ok,
        v.insert_before(id, c)->Ok_0.delete_at(id, Direction::B)->Ok_0.lines == v.lines,
        v.insert_before(id, c)->Ok_0.delete_at(id, Direction::B)->Ok_0.anchors[id]
            == Position::at(v.anchors[id].line as int, v.anchors[id].offset as int),
{
    lemma_wf_indexable(v);
    let pos = v.anchors[id];
    let line = v.lines[pos.line as int];
    let off = pos.offset as int;
    let mid = v.insert_before(id, c)->Ok_0;
    let at = mid.anchors[id];
    let end = mid.delete_back(at)->Ok_0;
    if c == '\n' {
        assert(at == Position::at(pos.line + 1, 0));
        assert(mid.lines[pos.line as int] == line.take(off));
        assert(mid.lines[pos.line + 1] == line.skip(off));
        assert(line.take(off) + line.skip(off) =~= line);
        assert(end.lines =~= v.lines);
    } else {
        assert(at == Position::at(pos.line as int, off + 1));
        assert(line.insert(off, c).remove(off) =~= line);
        assert(end.lines =~= v.lines);
    }
}

impl Buffer {
    /// The buffer holds at least one line, none of its lines holds a newline,
    /// its text is short enough for `i32` line numbers and offsets, and the
    /// places of its anchors have no negative part.
    pub open spec fn wf(&self) -> bool {
        self@.wf() && self.counted()
    }

    /// The buffer's count of its characters is right.
    pub closed spec fn counted(&self) -> bool {
        self.size == text_size(lines_of(self.contents@))
    }

    /// How many more characters the text can take.
    pub fn room(&self) -> (n: usize)
        requires
            self.wf(),
        ensures
            n == i32::MAX - text_size(self@.lines),
    {
        0x7fff_ffffusize - self.size
    }

    /// How many anchors the buffer has made.
    pub fn count_anchors(&self) -> (n: usize)
        ensures
            n == self@.anchors.len(),
    {
        self.anchors.len()
    }

    /// The buffer of a file whose text is `text`.
    pub fn load_from_file(path: &str, text: &str, settings: Settings) -> (buf: Buffer)
        requires
            text@.len() < i32::MAX,
        ensures
            buf.wf(),
            buf@.lines == split_lines(text@),
            text_size(buf@.lines) == text@.len() + 1,
            buf@.anchors.len() == 0,
            buf@.file_path == Some(path@),
            !buf@.unsaved,
            !buf@.newfile,
            buf@.settings == settings,
    {
        let contents = split_text(text);
        proof {
            lemma_split_lines_nonempty(text@);
            lemma_split_lines_newline_free(text@);
            lemma_text_size_of_split(text@);
        }
        Buffer {
            contents: contents,
            file_path: Some(String::from_str(path)),
            unsaved: false,
            newfile: false,
            settings: settings,
            anchors: Vec::new(),
            size: text.unicode_len() + 1,
        }
    }

    /// An empty buffer for a file that does not exist yet.
    pub fn new_file(path: &str, settings: Settings) -> (buf: Buffer)
        ensures
            buf.wf(),
            buf@.lines == seq![Seq::<char>::empty()],
            text_size(buf@.lines) == 1,
            buf@.anchors.len() == 0,
            buf@.file_path == Some(path@),
            !buf@.unsaved,
            buf@.newfile,
            buf@.settings == settings,
    {
        let mut buf = Buffer::empty(settings);
        buf.file_path = Some(String::from_str(path));
        buf
    }

    /// An empty buffer that belongs to no file.
    pub fn empty(settings: Settings) -> (buf: Buffer)
        ensures
            buf.wf(),
            buf@.lines == seq![Seq::<char>::empty()],
            text_size(buf@.lines) == 1,
            buf@.anchors.len() == 0,
            buf@.file_path is None,
            !buf@.unsaved,
            buf@.newfile,
            buf@.settings == settings,
    {
        let mut contents: Vec<String> = Vec::new();
        contents.push(String::new());
        proof {
            let lines = lines_of(contents@);
            assert(lines =~= seq![Seq::<char>::empty()]);
            assert(lines.drop_last() =~= Seq::<Seq<char>>::empty());
            assert(text_size(lines.drop_last()) == 0);
            assert(text_size(lines) == 1);
        }
        Buffer {
            contents: contents,
            file_path: None,
            unsaved: false,
            newfile: true,
            settings: settings,
            anchors: Vec::new(),
            size: 1,
        }
    }

    /// Makes a new anchor at the start of the text.
    pub fn new_anchor(&mut self) -> (a: Anchor)
        requires
            old(self).wf(),
            old(self)@.anchors.len() < i64::MAX,
        ensures
            final(self).wf(),
            a.id() == old(self)@.anchors.len(),
            final(self)@ == (BufferView {
                anchors: old(self)@.anchors.push(Position::at(0, 0)),
                ..old(self)@
            }),
    {
        let id: i64 = self.anchors.len() as i64;
        self.anchors.push(Position::new(0, 0));
        Anchor::with_id(id)
    }

    /// Moves the anchor as the command says: left or right within its line,
    /// or up or down between lines.
    pub fn move_anchor(&mut self, anchor: &Anchor, m: &Command) -> (r: Result<(), CrbError>)
        requires
            old(self).wf(),
        ensures
            final(self).wf(),
            match r {
                Ok(()) => old(self)@.move_anchor(anchor.id(), *m) == Ok::<BufferView, ErrorKind>(
                    final(self)@,
                ),
                Err(e) => old(self)@.move_anchor(anchor.id(), *m) == Err::<BufferView, ErrorKind>(
                    e.kind,
                ) && final(self)@ == old(self)@ && e.description@ == kind_text(e.kind),
            },
            r is Ok && old(self)@.anchors[anchor.id()].within(old(self)@.lines)
                ==> final(self)@.anchors[anchor.id()].within(final(self)@.lines),
    {
        proof {
            lemma_wf_indexable(self@);
            if self@.has_anchor(anchor.id()) && crate::position::is_move(*m)
                && self@.anchors[anchor.id()].within(self@.lines) {
                crate::position::lemma_move_stays_within(
                    self@.anchors[anchor.id()],
                    self@.lines,
                    *m,
                );
            }
        }
        match self.slot(anchor) {
            None => Err(CrbError::of_kind(ErrorKind::NoSuchAnchor)),
            Some(i) => {
                let pos = self.anchors[i];
                match self.move_pos(&pos, m) {
                    Err(e) => Err(e),
                    Ok(pos2) => {
                        self.anchors.set(i, pos2);
                        Ok(())
                    },
                }
            },
        }
    }

    /// Puts the character in before the anchor.
    pub fn insert_text_before(&mut self, anchor: &Anchor, text: char) -> (r: Result<(), CrbError>)
        requires
            old(self).wf(),
            text_size(old(self)@.lines) < i32::MAX,
        ensures
            final(self).wf(),
            match r {
                Ok(()) => old(self)@.insert_before(anchor.id(), text) == Ok::<
                    BufferView,
                    ErrorKind,
                >(final(self)@),
                Err(e) => old(self)@.insert_before(anchor.id(), text) == Err::<
                    BufferView,
                    ErrorKind,
                >(e.kind) && final(self)@ == old(self)@ && e.description@ == kind_text(e.kind),
            },
            r is Ok ==> text_size(final(self)@.lines) == text_size(old(self)@.lines) + 1,
    {
        let i: usize = match self.slot(anchor) {
            None => {
                return Err(CrbError::of_kind(ErrorKind::NoSuchAnchor));
            },
            Some(i) => i,
        };
        let pos = self.anchors[i];
        if pos.line as usize >= self.contents.len() {
            return Err(CrbError::of_kind(ErrorKind::NoLineAtPosition));
        }
        let li: usize = pos.line as usize;
        let len: usize = self.contents[li].as_str().unicode_len();
        if pos.offset as usize > len {
            return Err(CrbError::of_kind(ErrorKind::NoLineAtPosition));
        }
        let off: usize = pos.offset as usize;
        proof {
            lemma_wf_indexable(self@);
            lemma_text_size_update(
                self@.lines,
                li as int,
                self@.lines[li as int].take(off as int),
            );
            lemma_text_size_insert(
                self@.lines.update(li as int, self@.lines[li as int].take(off as int)),
                li + 1,
                self@.lines[li as int].skip(off as int),
            );
            lemma_text_size_update(
                self@.lines,
                li as int,
                self@.lines[li as int].insert(off as int, text),
            );
        }
        if text == '\n' {
            let head = String::from_str(self.contents[li].as_str().substring_char(0, off));
            let tail = String::from_str(self.contents[li].as_str().substring_char(off, len));
            self.contents.set(li, head);
            self.contents.insert(li + 1, tail);
            self.anchors.set(i, Position::new(pos.line + 1, 0));
            self.unsaved = true;
            self.size = self.size + 1;
            proof {
                let want = old(self)@.insert_before(anchor.id(), text)->Ok_0;
                assert(self@.lines =~= want.lines);
                assert(self@ == want);
            }
        } else {
            let mut line = String::from_str(self.contents[li].as_str().substring_char(0, off));
            line.push(text);
            line.append(self.contents[li].as_str().substring_char(off, len));
            proof {
                assert(line@ =~= old(self)@.lines[li as int].insert(off as int, text));
            }
            self.contents.set(li, line);
            self.anchors.set(i, Position::new(pos.line, pos.offset + 1));
            self.unsaved = true;
            self.size = self.size + 1;
            proof {
                let want = old(self)@.insert_before(anchor.id(), text)->Ok_0;
                assert(self@.lines =~= want.lines);
                assert(self@ == want);
            }
        }
        Ok(())
    }

    /// Deletes at the anchor: backward what lies before it, forward what lies after it.
    pub fn delete_at(&mut self, anchor: &Anchor, d: &Direction) -> (r: Result<(), CrbError>)
        requires
            old(self).wf(),
        ensures
            final(self).wf(),
            match r {
                Ok(()) => old(self)@.delete_at(anchor.id(), *d) == Ok::<BufferView, ErrorKind>(
                    final(self)@,
                ),
                Err(e) => old(self)@.delete_at(anchor.id(), *d) == Err::<BufferView, ErrorKind>(
                    e.kind,
                ) && final(self)@ == old(self)@ && e.description@ == kind_text(e.kind),
            },
            text_size(final(self)@.lines) <= text_size(old(self)@.lines),
    {
        let i: usize = match self.slot(anchor) {
            None => {
                return Err(CrbError::of_kind(ErrorKind::NoSuchAnchor));
            },
            Some(i) => i,
        };
        let pos = self.anchors[i];
        let at: Position = match *d {
            Direction::B => pos,
            Direction::F => match self.move_pos(&pos, &Command::MoveRight(1)) {
                Ok(p) => p,
                Err(e) => {
                    return Err(e);
                },
            },
        };
        self.delete_at_pos(&at)
    }

    /// Deletes what lies just before the place.
    fn delete_at_pos(&mut self, pos: &Position) -> (r: Result<(), CrbError>)
        requires
            old(self).wf(),
            pos.wf(),
        ensures
            final(self).wf(),
            match r {
                Ok(()) => old(self)@.delete_back(*pos) == Ok::<BufferView, ErrorKind>(
                    final(self)@,
                ),
                Err(e) => old(self)@.delete_back(*pos) == Err::<BufferView, ErrorKind>(e.kind)
                    && final(self)@ == old(self)@ && e.description@ == kind_text(e.kind),
            },
            text_size(final(self)@.lines) <= text_size(old(self)@.lines),
    {
        if pos.line as usize >= self.contents.len() {
            return Err(CrbError::of_kind(ErrorKind::NoLineAtPosition));
        }
        let li: usize = pos.line as usize;
        let len: usize = self.contents[li].as_str().unicode_len();
        if pos.offset as usize > len {
            return Err(CrbError::of_kind(ErrorKind::NoLineAtPosition));
        }
        let off: usize = pos.offset as usize;
        proof {
            lemma_wf_indexable(self@);
        }
        if pos.offset == 0 && pos.line == 0 {
            Ok(())
        } else if pos.offset == 0 {
            let prev_len: usize = self.contents[li - 1].as_str().unicode_len();
            let mut merged = String::from_str(self.contents[li - 1].as_str());
            merged.append(self.contents[li].as_str());
            proof {
                let joined = self@.lines.update(li - 1, merged@);
                lemma_text_size_update(self@.lines, li - 1, merged@);
                lemma_text_size_remove(joined, li as int);
            }
            self.contents.set(li - 1, merged);
            self.contents.remove(li);
            carry_up(&mut self.anchors, pos.line, prev_len as i32);
            self.unsaved = true;
            self.size = self.size - 1;
            proof {
                let want = old(self)@.delete_back(*pos)->Ok_0;
                assert(self@.lines =~= want.lines);
                assert(self@.anchors =~= want.anchors);
                assert(self@ == want);
            }
            Ok(())
        } else {
            let mut line = String::from_str(self.contents[li].as_str().substring_char(0, off - 1));
            line.append(self.contents[li].as_str().substring_char(off, len));
            proof {
                assert(line@ =~= self@.lines[li as int].remove(off - 1));
                lemma_text_size_update(self@.lines, li as int, line@);
            }
            self.contents.set(li, line);
            pull_left(&mut self.anchors, pos);
            self.unsaved = true;
            self.size = self.size - 1;
            proof {
                let want = old(self)@.delete_back(*pos)->Ok_0;
                assert(self@.lines =~= want.lines);
                assert(self@.anchors =~= want.anchors);
                assert(self@ == want);
            }
            Ok(())
        }
    }

    /// Empties the text and sends every anchor to its start.
    pub fn clear(&mut self) -> (r: CrbResult<()>)
        requires
            old(self).wf(),
        ensures
            final(self).wf(),
            r is Ok,
            final(self)@ == old(self)@.cleared(),
            text_size(final(self)@.lines) == 1,
    {
        self.contents.clear();
        self.contents.push(String::new());
        send_to_start(&mut self.anchors);
        self.unsaved = true;
        self.size = 1;
        proof {
            let lines = lines_of(self.contents@);
            assert(lines =~= seq![Seq::<char>::empty()]);
            assert(lines.drop_last() =~= Seq::<Seq<char>>::empty());
            assert(text_size(lines.drop_last()) == 0);
            assert(text_size(lines) == 1);
            assert(self@.anchors =~= old(self)@.cleared().anchors);
        }
        Ok(())
    }

    /// The text to write to the buffer's file: each line followed by a newline.
    pub fn save(&self) -> (r: CrbResult<String>)
        ensures
            match r {
                Ok(text) => self@.file_path is Some && text@ == join_lines(self@.lines),
                Err(e) => self@.file_path is None && e.kind == ErrorKind::NoFilePath
                    && e.description@ == kind_text(e.kind),
            },
    {
        if self.file_path.is_some() {
            Ok(join_text(&self.contents))
        } else {
            Err(CrbError::of_kind(ErrorKind::NoFilePath))
        }
    }

    /// Records that the text is now on disk as it is in the buffer.
    pub fn mark_saved(&mut self)
        ensures
            final(self)@ == (BufferView { unsaved: false, ..old(self)@ }),
            old(self).counted() ==> final(self).counted(),
    {
        self.unsaved = false;
    }

    /// The number of characters of line `line`; 0 where there is no such line.
    fn line_length(&self, line: i32) -> (len: i32)
        requires
            self.wf(),
        ensures
            len == line_len(self@.lines, line as int),
            0 <= len < i32::MAX,
    {
        proof {
            lemma_wf_indexable(self@);
        }
        if line >= 0 && (line as usize) < self.contents.len() {
            assert(self@.lines[line as int].len() < i32::MAX);
            self.contents[line as usize].as_str().unicode_len() as i32
        } else {
            0
        }
    }

    /// Where the command moves a place to.
    fn move_pos(&self, pos: &Position, m: &Command) -> (r: Result<Position, CrbError>)
        requires
            self.wf(),
            pos.wf(),
        ensures
            match r {
                Ok(p) => pos.moved(self@.lines, *m) == Some(p) && p.wf(),
                Err(e) => pos.moved(self@.lines, *m) is None && e.kind
                    == ErrorKind::UnsupportedMoveCommand && e.description@ == kind_text(e.kind),
            },
    {
        proof {
            lemma_wf_indexable(self@);
            lemma_canonical_moves_alike(*pos, self@.lines, *m);
        }
        match canonicalize_move(m) {
            Command::MoveRight(n) => {
                let len: i64 = self.line_length(pos.line) as i64;
                let target: i64 = pos.offset as i64 + n as i64;
                let offset: i64 = if target < 0 {
                    0
                } else if target > len {
                    len
                } else {
                    target
                };
                Ok(Position { line: pos.line, offset: offset as i32, wishful_offset: None })
            },
            Command::MoveDown(n) => {
                let last: i64 = self.count_lines() as i64 - 1;
                let target: i64 = pos.line as i64 + n as i64;
                let line: i32 = if target < 0 {
                    0
                } else if target > last {
                    last as i32
                } else {
                    target as i32
                };
                let len: i32 = self.line_length(line);
                let wish: i32 = match pos.wishful_offset {
                    None => pos.offset,
                    Some(x) => x,
                };
                if wish <= len {
                    Ok(Position { line: line, offset: wish, wishful_offset: None })
                } else {
                    Ok(Position { line: line, offset: len, wishful_offset: Some(wish) })
                }
            },
            _ => Err(CrbError::of_kind(ErrorKind::UnsupportedMoveCommand)),
        }
    }

    /// Every anchor with its place, ordered by line, then offset, then number.
    pub fn all_anchors(&self) -> (order: Vec<(Anchor, Position)>)
        requires
            self.wf(),
        ensures
            in_display_order(order@, self@.anchors),
    {
        let mut order: Vec<(Anchor, Position)> = Vec::new();
        let mut a: usize = 0;
        while a < self.anchors.len()
            invariant
                self.wf(),
                a <= self.anchors.len(),
                in_display_order(order@, self.anchors@.take(a as int)),
            decreases self.anchors.len() - a,
        {
            let pos = self.anchors[a];
            let mut at: usize = order.len();
            while at > 0 && (pos.line < order[at - 1].1.line || (pos.line == order[at - 1].1.line
                && pos.offset < order[at - 1].1.offset))
                invariant
                    at <= order.len(),
                    forall|q: int|
                        at <= q < order.len() ==> pos.line < (#[trigger] order@[q]).1.line || (
                        pos.line == order@[q].1.line && pos.offset < order@[q].1.offset),
                decreases at,
            {
                at = at - 1;
            }
            let entry = (Anchor::with_id(a as i64), pos);
            let ghost before = order@;
            order.insert(at, entry);
            proof {
                let after = order@;
                let upto = self.anchors@.take(a + 1);
                assert forall|p: int| 0 <= p < after.len() implies 0 <= (#[trigger] after[p]).0.id()
                    < upto.len() && after[p].1 == upto[after[p].0.id()] by {
                    if p < at {
                        assert(after[p] == before[p]);
                    } else if p > at {
                        assert(after[p] == before[p - 1]);
                    }
                }
                assert forall|b: int| 0 <= b < upto.len() implies #[trigger] listed(after, b) by {
                    if b < a {
                        assert(listed(before, b));
                        let p = choose|p: int|
                            0 <= p < before.len() && (#[trigger] before[p]).0.id() == b;
                        if p < at {
                            assert(after[p] == before[p]);
                        } else {
                            assert(after[p + 1] == before[p]);
                        }
                    } else {
                        assert(after[at as int] == entry);
                    }
                }
                assert forall|p: int, q: int| 0 <= p < q < after.len() implies comes_before(
                    #[trigger] after[p],
                    #[trigger] after[q],
                ) by {
                    let bp = if p < at { p } else { p - 1 };
                    let bq = if q < at { q } else { q - 1 };
                    if p != at {
                        assert(after[p] == before[bp]);
                    }
                    if q != at {
                        assert(after[q] == before[bq]);
                    }
                    if p == at {
                        assert(comes_before(entry, before[bq]));
                    } else if q == at {
                        if at > 0 {
                            if bp < at - 1 {
                                assert(comes_before(before[bp], before[at - 1]));
                            }
                        }
                        assert(comes_before(before[bp], entry));
                    } else {
                        assert(comes_before(before[bp], before[bq]));
                    }
                }
            }
            a = a + 1;
        }
        assert(self.anchors@.take(a as int) =~= self.anchors@);
        order
    }

    /// The slot of the anchor in the anchor table, where the buffer made it.
    fn slot(&self, anchor: &Anchor) -> (r: Option<usize>)
        ensures
            match r {
                Some(i) => self@.has_anchor(anchor.id()) && i == anchor.id(),
                None => !self@.has_anchor(anchor.id()),
            },
    {
        if anchor.id >= 0 && (anchor.id as u64) < (self.anchors.len() as u64) {
            Some(anchor.id as usize)
        } else {
            None
        }
    }

    /// Line `i` of the text, where there is one.
    pub fn line(&self, i: i32) -> (r: Option<&str>)
        ensures
            match r {
                Some(s) => 0 <= i < self@.lines.len() && s@ == self@.lines[i as int],
                None => !(0 <= i < self@.lines.len()),
            },
    {
        if i >= 0 && (i as usize) < self.contents.len() {
            Some(self.contents[i as usize].as_str())
        } else {
            None
        }
    }

    /// The path of the buffer's file, where it has one.
    pub fn path(&self) -> (p: Option<&str>)
        ensures
            match p {
                Some(s) => self@.file_path == Some(s@),
                None => self@.file_path is None,
            },
    {
        match &self.file_path {
            Some(s) => Some(s.as_str()),
            None => None,
        }
    }

    /// Whether the text was edited since it was loaded or saved.
    pub fn is_unsaved(&self) -> (b: bool)
        ensures
            b == self@.unsaved,
    {
        self.unsaved
    }

    /// Whether the buffer was made for a file that does not exist yet.
    pub fn is_newfile(&self) -> (b: bool)
        ensures
            b == self@.newfile,
    {
        self.newfile
    }

    /// The settings that the buffer was made with.
    pub fn settings(&self) -> (s: Settings)
        ensures
            s == self@.settings,
    {
        self.settings
    }

    /// The number of lines of the text.
    pub fn count_lines(&self) -> (n: i32)
        requires
            self.wf(),
        ensures
            n == self@.lines.len(),
            n >= 1,
    {
        proof {
            lemma_wf_indexable(self@);
        }
        self.contents.len() as i32
    }

    /// The line that the anchor is on, and the row of that line, counted from
    /// the line's first row, on which the anchor is drawn: always 0, as lines
    /// are never wrapped onto several rows.
    pub fn get_anchor_line(&self, a: &Anchor, _wrap: &Wrap) -> (r: CrbResult<(i32, i32)>)
        ensures
            match r {
                Ok(at) => self@.has_anchor(a.id()) && at == (self@.anchors[a.id()].line, 0i32),
                Err(e) => !self@.has_anchor(a.id()) && e.kind == ErrorKind::NoSuchAnchor
                    && e.description@ == kind_text(e.kind),
            },
    {
        match self.slot(a) {
            Some(i) => Ok((self.anchors[i].line, 0)),
            None => Err(CrbError::of_kind(ErrorKind::NoSuchAnchor)),
        }
    }

    /// Whether the anchor marks the place at offset `x` of line `y`.
    pub fn anchor_at(&self, a: &Anchor, x: i32, y: i32) -> (r: bool)
        ensures
            r == (self@.has_anchor(a.id()) && self@.anchors[a.id()].line == y
                && self@.anchors[a.id()].offset == x),
    {
        match self.slot(a) {
            Some(i) => self.anchors[i].line == y && self.anchors[i].offset == x,
            None => false,
        }
    }

    /// The place that the anchor marks, where the buffer made the anchor.
    pub fn position(&self, a: &Anchor) -> (r: Option<Position>)
        ensures
            r == if self@.has_anchor(a.id()) {
                Some(self@.anchors[a.id()])
            } else {
                None
            },
    {
        match self.slot(a) {
            Some(i) => Some(self.anchors[i]),
            None => None,
        }
    }
}

/// Moves every place to the start of the text.
fn send_to_start(anchors: &mut Vec<Position>)
    ensures
        final(anchors)@ == Seq::new(old(anchors)@.len(), |a: int| Position::at(0, 0)),
{
    let mut a: usize = 0;
    while a < anchors.len()
        invariant
            a <= anchors.len(),
            anchors.len() == old(anchors).len(),
            forall|b: int| 0 <= b < a ==> anchors@[b] == Position::at(0, 0),
        decreases anchors.len() - a,
    {
        anchors.set(a, Position::new(0, 0));
        a = a + 1;
    }
    assert(anchors@ =~= Seq::new(old(anchors)@.len(), |a: int| Position::at(0, 0)));
}

/// Moves the places on line `line` up to the end of the line before it,
/// which had `len` characters.
fn carry_up(anchors: &mut Vec<Position>, line: i32, len: i32)
    requires
        line >= 1,
        len >= 0,
        forall|a: int| 0 <= a < old(anchors)@.len() ==> (#[trigger] old(anchors)@[a]).wf(),
    ensures
        final(anchors)@ == Seq::new(
            old(anchors)@.len(),
            |a: int| carried_up(old(anchors)@[a], line as int, len as int),
        ),
{
    let mut a: usize = 0;
    while a < anchors.len()
        invariant
            a <= anchors.len(),
            anchors.len() == old(anchors).len(),
            line >= 1,
            len >= 0,
            forall|b: int| 0 <= b < old(anchors)@.len() ==> (#[trigger] old(anchors)@[b]).wf(),
            forall|b: int|
                0 <= b < a ==> anchors@[b] == carried_up(old(anchors)@[b], line as int, len as int),
            forall|b: int| a <= b < anchors.len() ==> anchors@[b] == old(anchors)@[b],
        decreases anchors.len() - a,
    {
        let p = anchors[a];
        if p.line == line {
            let sum: i64 = p.offset as i64 + len as i64;
            let offset: i32 = if sum > i32::MAX as i64 {
                i32::MAX
            } else {
                sum as i32
            };
            anchors.set(a, Position::new(p.line - 1, offset));
        }
        a = a + 1;
    }
    assert(anchors@ =~= Seq::new(
        old(anchors)@.len(),
        |a: int| carried_up(old(anchors)@[a], line as int, len as int),
    ));
}

/// Moves the places on the line of `from`, at or after it, one to the left.
fn pull_left(anchors: &mut Vec<Position>, from: &Position)
    requires
        from.offset >= 1,
    ensures
        final(anchors)@ == Seq::new(
            old(anchors)@.len(),
            |a: int| pulled_left(old(anchors)@[a], *from),
        ),
{
    let mut a: usize = 0;
    while a < anchors.len()
        invariant
            a <= anchors.len(),
            anchors.len() == old(anchors).len(),
            from.offset >= 1,
            forall|b: int| 0 <= b < a ==> anchors@[b] == pulled_left(old(anchors)@[b], *from),
            forall|b: int| a <= b < anchors.len() ==> anchors@[b] == old(anchors)@[b],
        decreases anchors.len() - a,
    {
        let p = anchors[a];
        if p.line == from.line && p.offset >= from.offset {
            anchors.set(a, Position::new(p.line, p.offset - 1));
        }
        a = a + 1;
    }
    assert(anchors@ =~= Seq::new(
        old(anchors)@.len(),
        |a: int| pulled_left(old(anchors)@[a], *from),
    ));
}

/// How lines that are longer than a row are laid out.
#[derive(Debug, Clone, Copy, PartialEq, Eq, Structural)]
pub enum WrapStyle {
    /// What does not fit on the row is not shown.
    Truncate,
    Hard,
    Word,
}

#[derive(Debug, Clone, Copy, PartialEq, Eq, Structural)]
pub struct Wrap {
    pub style: WrapStyle,
    pub width: i32,
    /// Whether the cursor moves between visual lines or buffer lines.
    pub vismove: bool,
}

impl Wrap {
    /// The wrap policy of a window `width` columns wide: truncation, with the
    /// cursor moving between buffer lines.
    pub fn default(width: i32) -> (w: Wrap)
        ensures
            w == (Wrap { style: WrapStyle::Truncate, width: width, vismove: false }),
    {
        Wrap { style: WrapStyle::Truncate, width: width, vismove: false }
    }

    /// Whether the projector can draw with this policy.
    pub open spec fn supported(self) -> bool {
        self.style == WrapStyle::Truncate && !self.vismove
    }
}

} // verus!
