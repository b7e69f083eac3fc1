//! The display projector: a buffer's text and anchors as the cells of a grid.

use vstd::prelude::*;
use crate::buffer::{
    Anchor, Buffer, BufferView, Display, Symbol, Wrap, WrapStyle, comes_before,
    in_display_order, listed,
};
use crate::errors::{CrbError, CrbResult, ErrorKind, kind_text};
use crate::geometry::Size;
use crate::position::Position;
use crate::settings::Color;
use crate::text::{decimal, lemma_decimal_len_monotone, push_decimal, to_chars};

verus! {

/// The number of columns of the line-number gutter: as many as the number of
/// lines of the text has digits.
pub open spec fn gutter_width(v: BufferView) -> int {
    decimal(v.lines.len()).len() as int
}

/// What column `x` of the gutter shows beside line `line`: the line's number,
/// counted from 1, set to the right and filled up with blanks on the left.
pub open spec fn gutter_symbol(v: BufferView, line: int, x: int) -> Symbol {
    let number = decimal((line + 1) as nat);
    let blanks = gutter_width(v) - number.len();
    if x < blanks {
        Symbol::ColorChar(' ', v.settings.line_num_color)
    } else {
        Symbol::ColorChar(number[x - blanks], v.settings.line_num_color)
    }
}

/// The numbers of the anchors, among the first `n` of the table, that mark
/// the place at `offset` in line `line`, in rising order.
pub open spec fn anchors_at(anchors: Seq<Position>, n: int, line: int, offset: int) -> Seq<int>
    decreases n,
{
    if n <= 0 {
        Seq::<int>::empty()
    } else {
        let rest = anchors_at(anchors, n - 1, line, offset);
        if anchors[n - 1].line == line && anchors[n - 1].offset == offset {
            rest.push(n - 1)
        } else {
            rest
        }
    }
}

/// One marker cell at column `x` of row `y` for each of the anchors.
pub open spec fn markers(ids: Seq<int>, x: int, y: int) -> Seq<Display> {
    Seq::new(
        ids.len(),
        |k: int|
            Display {
                x: x as i32,
                y: y as i32,
                symbol: Symbol::Anchor(Anchor::numbered(ids[k])),
            },
    )
}

/// What the cell for character `i` of a line shows: the character, or
/// nothing beyond the line's end.
pub open spec fn text_symbol(line: Seq<char>, i: int) -> Symbol {
    if 0 <= i < line.len() {
        Symbol::Char(line[i])
    } else {
        Symbol::Void
    }
}

/// The cells of column `x` in row `y`, where the grid's first row shows line
/// `start`. In a row beyond the text the cell is void. In a row of the text
/// the first columns are the gutter; after them column by column comes the
/// line: a marker for every anchor at that character, then the character,
/// or a void cell beyond the line's end.
pub open spec fn column_cells(v: BufferView, start: int, x: int, y: int) -> Seq<Display> {
    let line = start + y;
    if line >= v.lines.len() {
        seq![Display { x: x as i32, y: y as i32, symbol: Symbol::Void }]
    } else if x < gutter_width(v) {
        seq![Display { x: x as i32, y: y as i32, symbol: gutter_symbol(v, line, x) }]
    } else {
        let i = x - gutter_width(v);
        markers(anchors_at(v.anchors, v.anchors.len() as int, line, i), x, y).push(
            Display { x: x as i32, y: y as i32, symbol: text_symbol(v.lines[line], i) },
        )
    }
}

/// The cells of the first `cols` columns of row `y`, from left to right.
pub open spec fn row_cells(v: BufferView, start: int, y: int, cols: int) -> Seq<Display>
    decreases cols,
{
    if cols <= 0 {
        Seq::<Display>::empty()
    } else {
        row_cells(v, start, y, cols - 1) + column_cells(v, start, cols - 1, y)
    }
}

/// The cells of the first `rows` rows of a grid `width` columns wide, from top to bottom.
pub open spec fn grid_cells(v: BufferView, start: int, width: int, rows: int) -> Seq<Display>
    decreases rows,
{
    if rows <= 0 {
        Seq::<Display>::empty()
    } else {
        grid_cells(v, start, width, rows - 1) + row_cells(v, start, rows - 1, width)
    }
}

/// Whether the place comes before column `col` of line `line` when the text is scanned.
pub open spec fn lies_before(p: Position, line: int, col: int) -> bool {
    p.line < line || (p.line == line && p.offset < col)
}

/// The first `k` anchors of the list lie before column `col` of line `line`,
/// and no other does.
pub open spec fn parted_at(order: Seq<(Anchor, Position)>, k: int, line: int, col: int) -> bool {
    &&& 0 <= k <= order.len()
    &&& forall|j: int| 0 <= j < k ==> lies_before((#[trigger] order[j]).1, line, col)
    &&& forall|j: int| k <= j < order.len() ==> !lies_before((#[trigger] order[j]).1, line, col)
}

/// A rising list of anchor numbers that holds exactly the anchors at a place
/// is the list of the anchors at that place.
proof fn lemma_anchors_at_unique(
    ids: Seq<int>,
    anchors: Seq<Position>,
    n: int,
    line: int,
    offset: int,
)
    requires
        0 <= n <= anchors.len(),
        forall|p: int, q: int| 0 <= p < q < ids.len() ==> ids[p] < ids[q],
        forall|p: int|
            0 <= p < ids.len() ==> 0 <= #[trigger] ids[p] < n && anchors[ids[p]].line == line
                && anchors[ids[p]].offset == offset,
        forall|a: int|
            0 <= a < n && (#[trigger] anchors[a]).line == line && anchors[a].offset == offset
                ==> exists|p: int| 0 <= p < ids.len() && #[trigger] ids[p] == a,
    ensures
        ids == anchors_at(anchors, n, line, offset),
    decreases n,
{
    if n == 0 {
        if ids.len() > 0 {
            assert(0 <= ids[0] < n);
        }
        assert(ids =~= Seq::<int>::empty());
    } else if anchors[n - 1].line == line && anchors[n - 1].offset == offset {
        let p = choose|p: int| 0 <= p < ids.len() && #[trigger] ids[p] == n - 1;
        if p < ids.len() - 1 {
            assert(ids[p] < ids[ids.len() - 1]);
        }
        let init = ids.drop_last();
        assert forall|a: int|
            0 <= a < n - 1 && (#[trigger] anchors[a]).line == line && anchors[a].offset
                == offset implies exists|q: int| 0 <= q < init.len() && #[trigger] init[q] == a by {
            let q = choose|q: int| 0 <= q < ids.len() && #[trigger] ids[q] == a;
            assert(init[q] == a);
        }
        assert forall|q: int| 0 <= q < init.len() implies 0 <= #[trigger] init[q] < n - 1
            && anchors[init[q]].line == line && anchors[init[q]].offset == offset by {
            assert(init[q] == ids[q]);
            assert(ids[q] < ids[ids.len() - 1]);
        }
        lemma_anchors_at_unique(init, anchors, n - 1, line, offset);
        assert(ids =~= init.push(n - 1));
    } else {
        assert forall|q: int| 0 <= q < ids.len() implies 0 <= #[trigger] ids[q] < n - 1
            && anchors[ids[q]].line == line && anchors[ids[q]].offset == offset by {
            assert(0 <= ids[q] < n);
        }
        lemma_anchors_at_unique(ids, anchors, n - 1, line, offset);
    }
}

/// Appends a marker, at column `x` of row `y`, for every anchor at offset
/// `col` of line `line`, and returns how many anchors of the list lie before
/// the next column.
fn emit_markers(
    order: &Vec<(Anchor, Position)>,
    k: usize,
    line: i32,
    col: i32,
    x: i32,
    y: i32,
    cells: &mut Vec<Display>,
    Ghost(anchors): Ghost<Seq<Position>>,
) -> (k1: usize)
    requires
        in_display_order(order@, anchors),
        parted_at(order@, k as int, line as int, col as int),
    ensures
        parted_at(order@, k1 as int, line as int, col + 1),
        final(cells)@ == old(cells)@ + markers(
            anchors_at(anchors, anchors.len() as int, line as int, col as int),
            x as int,
            y as int,
        ),
{
    let mut k1: usize = k;
    let ghost mut ids: Seq<int> = Seq::empty();
    assert(cells@ =~= old(cells)@ + markers(ids, x as int, y as int));
    while k1 < order.len() && order[k1].1.line == line && order[k1].1.offset == col
        invariant
            k <= k1 <= order.len(),
            in_display_order(order@, anchors),
            parted_at(order@, k as int, line as int, col as int),
            ids.len() == k1 - k,
            forall|p: int| 0 <= p < ids.len() ==> #[trigger] ids[p] == order@[k + p].0.id(),
            forall|j: int|
                k <= j < k1 ==> (#[trigger] order@[j]).1.line == line && order@[j].1.offset == col,
            cells@ == old(cells)@ + markers(ids, x as int, y as int),
        decreases order.len() - k1,
    {
        cells.push(Display { x: x, y: y, symbol: Symbol::Anchor(order[k1].0) });
        proof {
            order@[k1 as int].0.lemma_numbered();
            ids = ids.push(order@[k1 as int].0.id());
            assert(cells@ =~= old(cells)@ + markers(ids, x as int, y as int));
        }
        k1 = k1 + 1;
    }
    proof {
        let n = anchors.len() as int;
        assert forall|p: int, q: int| 0 <= p < q < ids.len() implies ids[p] < ids[q] by {
            assert(comes_before(order@[k + p], order@[k + q]));
        }
        assert forall|p: int| 0 <= p < ids.len() implies 0 <= #[trigger] ids[p] < n
            && anchors[ids[p]].line == line && anchors[ids[p]].offset == col by {
            assert(order@[k + p].1 == anchors[order@[k + p].0.id()]);
        }
        assert forall|j: int| k1 <= j < order.len() implies !lies_before(
            (#[trigger] order@[j]).1,
            line as int,
            col + 1,
        ) by {
            assert(!lies_before(order@[k1 as int].1, line as int, col as int));
            if j > k1 {
                assert(comes_before(order@[k1 as int], order@[j]));
            }
        }
        assert forall|a: int|
            0 <= a < n && (#[trigger] anchors[a]).line == line && anchors[a].offset
                == col implies exists|p: int| 0 <= p < ids.len() && #[trigger] ids[p] == a by {
            assert(listed(order@, a));
            let j = choose|j: int| 0 <= j < order@.len() && (#[trigger] order@[j]).0.id() == a;
            assert(order@[j].1 == anchors[a]);
            if j < k {
                assert(lies_before(order@[j].1, line as int, col as int));
            }
            if j >= k1 {
                assert(!lies_before(order@[j].1, line as int, col + 1));
                assert(!lies_before(order@[k1 as int].1, line as int, col + 1));
                if j > k1 {
                    assert(comes_before(order@[k1 as int], order@[j]));
                }
            }
            assert(ids[j - k] == a);
        }
        lemma_anchors_at_unique(ids, anchors, n, line as int, col as int);
    }
    k1
}

/// Appends row `y` of the grid where it lies beyond the text: void cells only.
fn void_row(
    cells: &mut Vec<Display>,
    width: i32,
    y: i32,
    Ghost(v): Ghost<BufferView>,
    Ghost(start): Ghost<int>,
)
    requires
        start + y >= v.lines.len(),
    ensures
        final(cells)@ == old(cells)@ + row_cells(v, start, y as int, width as int),
{
    let mut x: i32 = 0;
    assert(cells@ =~= old(cells)@ + row_cells(v, start, y as int, 0));
    while x < width
        invariant
            0 <= x,
            x <= width || x == 0,
            start + y >= v.lines.len(),
            cells@ == old(cells)@ + row_cells(v, start, y as int, x as int),
        decreases width - x,
    {
        cells.push(Display { x: x, y: y, symbol: Symbol::Void });
        x = x + 1;
        assert(cells@ =~= old(cells)@ + row_cells(v, start, y as int, x as int));
    }
    assert(row_cells(v, start, y as int, x as int) =~= row_cells(v, start, y as int, width as int));
}

/// Appends row `y` of the grid where it shows line `line` of the text, and
/// returns how many anchors of the list lie on that line or above it.
fn text_row(
    buf: &Buffer,
    order: &Vec<(Anchor, Position)>,
    k: usize,
    line: i32,
    gutter: usize,
    width: i32,
    y: i32,
    cells: &mut Vec<Display>,
    Ghost(start): Ghost<int>,
) -> (k1: usize)
    requires
        buf.wf(),
        in_display_order(order@, buf@.anchors),
        0 <= line < buf@.lines.len(),
        line == start + y,
        gutter == gutter_width(buf@),
        k <= order.len(),
        forall|j: int| 0 <= j < k ==> (#[trigger] order@[j]).1.line < line,
    ensures
        final(cells)@ == old(cells)@ + row_cells(buf@, start, y as int, width as int),
        k1 <= order.len(),
        forall|j: int| 0 <= j < k1 ==> (#[trigger] order@[j]).1.line < line + 1,
{
    let chars: Vec<char> = to_chars(buf.line(line));
    let mut number: Vec<char> = Vec::new();
    push_decimal((line as u64) + 1, &mut number);
    proof {
        lemma_decimal_len_monotone((line + 1) as nat, buf@.lines.len());
    }
    let blanks: usize = gutter - number.len();
    let color: Color = buf.settings().line_num_color;
    let mut k1: usize = k;
    while k1 < order.len() && order[k1].1.line < line
        invariant
            k1 <= order.len(),
            forall|j: int| 0 <= j < k1 ==> (#[trigger] order@[j]).1.line < line,
        decreases order.len() - k1,
    {
        k1 = k1 + 1;
    }
    proof {
        assert forall|j: int| k1 <= j < order.len() implies !lies_before(
            (#[trigger] order@[j]).1,
            line as int,
            0 - gutter,
        ) by {
            assert(order@[j].1 == buf@.anchors[order@[j].0.id()]);
            assert(buf@.anchors[order@[j].0.id()].wf());
            if j > k1 {
                assert(comes_before(order@[k1 as int], order@[j]));
            }
        }
    }
    let mut x: i32 = 0;
    assert(cells@ =~= old(cells)@ + row_cells(buf@, start, y as int, 0));
    while x < width
        invariant
            0 <= x,
            x <= width || x == 0,
            buf.wf(),
            in_display_order(order@, buf@.anchors),
            0 <= line < buf@.lines.len(),
            line == start + y,
            gutter == gutter_width(buf@),
            chars@ == buf@.lines[line as int],
            number@ == decimal((line + 1) as nat),
            blanks == gutter - number.len(),
            color == buf@.settings.line_num_color,
            parted_at(order@, k1 as int, line as int, x - gutter),
            cells@ == old(cells)@ + row_cells(buf@, start, y as int, x as int),
        decreases width - x,
    {
        let ghost before = cells@;
        if (x as usize) < gutter {
            let c: char = if (x as usize) < blanks {
                ' '
            } else {
                number[x as usize - blanks]
            };
            cells.push(Display { x: x, y: y, symbol: Symbol::ColorChar(c, color) });
            proof {
                assert(cells@ =~= before + column_cells(buf@, start, x as int, y as int));
                assert forall|j: int| 0 <= j < k1 implies lies_before(
                    (#[trigger] order@[j]).1,
                    line as int,
                    x + 1 - gutter,
                ) by {
                    assert(order@[j].1 == buf@.anchors[order@[j].0.id()]);
                    assert(buf@.anchors[order@[j].0.id()].wf());
                }
            }
        } else {
            let col: usize = x as usize - gutter;
            k1 = emit_markers(order, k1, line, col as i32, x, y, cells, Ghost(buf@.anchors));
            let ghost marks = markers(
                anchors_at(buf@.anchors, buf@.anchors.len() as int, line as int, col as int),
                x as int,
                y as int,
            );
            assert(cells@ == before + marks);
            let symbol: Symbol = if col < chars.len() {
                Symbol::Char(chars[col])
            } else {
                Symbol::Void
            };
            let cell = Display { x: x, y: y, symbol: symbol };
            cells.push(cell);
            proof {
                assert(cell.symbol == text_symbol(buf@.lines[line as int], col as int));
                assert(column_cells(buf@, start, x as int, y as int) == marks.push(cell));
                assert(cells@ =~= before + marks.push(cell));
            }
        }
        x = x + 1;
        assert(cells@ =~= old(cells)@ + row_cells(buf@, start, y as int, x as int));
    }
    assert(row_cells(buf@, start, y as int, x as int) =~= row_cells(
        buf@,
        start,
        y as int,
        width as int,
    ));
    k1
}

impl Buffer {
    /// The cells of a grid of the given size that shows the text from line
    /// `start_line` on, row by row from the top and in each row from left to
    /// right. Only a wrap policy of plain truncation can be drawn.
    pub fn display(&self, start_line: usize, size: Size, wrap: &Wrap) -> (r: CrbResult<
        Vec<Display>,
    >)
        requires
            self.wf(),
        ensures
            match r {
                Ok(cells) => wrap.supported() && cells@ == grid_cells(
                    self@,
                    start_line as int,
                    size.width as int,
                    size.height as int,
                ),
                Err(e) => !wrap.supported() && e.kind == ErrorKind::InvalidWrapConfiguration
                    && e.description@ == kind_text(e.kind),
            },
    {
        if !(wrap.style == WrapStyle::Truncate && !wrap.vismove) {
            return Err(CrbError::of_kind(ErrorKind::InvalidWrapConfiguration));
        }
        let order = self.all_anchors();
        let count: usize = self.count_lines() as usize;
        let mut digits: Vec<char> = Vec::new();
        push_decimal(count as u64, &mut digits);
        let gutter: usize = digits.len();
        let mut cells: Vec<Display> = Vec::new();
        let mut k: usize = 0;
        let mut y: i32 = 0;
        let ghost start = start_line as int;
        assert(cells@ =~= grid_cells(self@, start, size.width as int, 0));
        while y < size.height
            invariant
                0 <= y,
                y <= size.height || y == 0,
                self.wf(),
                in_display_order(order@, self@.anchors),
                count == self@.lines.len(),
                count <= i32::MAX,
                gutter == gutter_width(self@),
                start == start_line,
                k <= order.len(),
                forall|j: int| 0 <= j < k ==> (#[trigger] order@[j]).1.line < start + y,
                cells@ == grid_cells(self@, start, size.width as int, y as int),
            decreases size.height - y,
        {
            if start_line < count && (y as usize) < count - start_line {
                let line: i32 = (start_line + y as usize) as i32;
                k = text_row(
                    self,
                    &order,
                    k,
                    line,
                    gutter,
                    size.width,
                    y,
                    &mut cells,
                    Ghost(start),
                );
            } else {
                void_row(&mut cells, size.width, y, Ghost(self@), Ghost(start));
            }
            y = y + 1;
        }
        assert(grid_cells(self@, start, size.width as int, y as int) =~= grid_cells(
            self@,
            start,
            size.width as int,
            size.height as int,
        ));
        Ok(cells)
    }
}

} // verus!
