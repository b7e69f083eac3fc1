//! What a window looks like on the screen: its title bar and the glyphs of its cells.

use vstd::prelude::*;
use vstd::string::*;
use crate::buffer::{Display, Symbol};
use crate::display::grid_cells;
use crate::geometry::Point;
use crate::settings::Color;
use crate::window::{Window, WindowView, title_text};

verus! {

/// One character to put on the screen, at column `x` of row `y`, in a
/// foreground and a background colour. A glyph whose column or row is
/// negative lies off the screen.
#[derive(Debug, Clone, Copy, PartialEq, Eq, Structural)]
pub struct Glyph {
    pub x: i64,
    pub y: i64,
    pub fg: Color,
    pub bg: Color,
    pub ch: char,
}

/// A window as it is to be drawn.
#[derive(Debug)]
pub struct Frame {
    /// The text of the title bar, to be written black on white from `title_at` on.
    pub title: String,
    pub title_at: Point,
    /// The rest of the title bar, then the cells of the window in scan order.
    pub glyphs: Vec<Glyph>,
}

/// The blanks, black on white, that fill the title bar from the end of the
/// title to the window's right edge.
pub open spec fn bar_blanks(w: WindowView) -> Seq<Glyph> {
    let used = title_text(w).len() as int;
    Seq::new(
        if w.size.width > used {
            (w.size.width - used) as nat
        } else {
            0
        },
        |k: int|
            Glyph {
                x: (w.topleft.x + used + k) as i64,
                y: w.topleft.y as i64,
                fg: Color::Black,
                bg: Color::White,
                ch: ' ',
            },
    )
}

/// The glyph of a cell that is no anchor marker. The cell goes one row below
/// the title bar. It is drawn white on black, or black on white where a
/// cursor stands on it; a gutter character keeps its own colour in front.
pub open spec fn glyph_of(w: WindowView, cell: Display, inverted: bool) -> Glyph {
    let fg = if inverted {
        Color::Black
    } else {
        Color::White
    };
    let bg = if inverted {
        Color::White
    } else {
        Color::Black
    };
    let x = (cell.x + w.topleft.x) as i64;
    let y = (cell.y + w.topleft.y + 1) as i64;
    match cell.symbol {
        Symbol::Char(c) => Glyph { x: x, y: y, fg: fg, bg: bg, ch: c },
        Symbol::ColorChar(c, color) => Glyph { x: x, y: y, fg: color, bg: bg, ch: c },
        _ => Glyph { x: x, y: y, fg: fg, bg: bg, ch: ' ' },
    }
}

/// The glyphs of the first `n` cells: one for each cell that is no anchor
/// marker, in order. A cell that comes right after an anchor marker is drawn
/// inverted: that is where a cursor stands.
pub open spec fn cell_glyphs(w: WindowView, cells: Seq<Display>, n: int) -> Seq<Glyph>
    decreases n,
{
    if n <= 0 {
        Seq::<Glyph>::empty()
    } else {
        let before = cell_glyphs(w, cells, n - 1);
        if cells[n - 1].symbol is Anchor {
            before
        } else {
            before.push(glyph_of(w, cells[n - 1], n >= 2 && cells[n - 2].symbol is Anchor))
        }
    }
}

/// What to draw for the window: its title bar, then the cells of its grid
/// below the bar.
pub fn render(window: &Window) -> (frame: Frame)
    requires
        window.wf(),
    ensures
        frame.title@ == title_text(window@),
        frame.title_at == window@.topleft,
        frame.glyphs@ == bar_blanks(window@) + cell_glyphs(
            window@,
            grid_cells(
                window@.buf,
                window@.scroll as int,
                window@.size.width as int,
                window@.size.height as int,
            ),
            grid_cells(
                window@.buf,
                window@.scroll as int,
                window@.size.width as int,
                window@.size.height as int,
            ).len() as int,
        ),
{
    let title = window.title();
    let topleft = window.topleft();
    let width: i32 = window.size().width;
    let used: usize = title.as_str().unicode_len();
    let mut glyphs: Vec<Glyph> = Vec::new();
    if width > 0 && used < width as usize {
        let mut i: i32 = used as i32;
        assert(glyphs@ =~= bar_blanks(window@).take(0));
        while i < width
            invariant
                used <= i <= width,
                used == title_text(window@).len(),
                width == window@.size.width,
                topleft == window@.topleft,
                glyphs@ == bar_blanks(window@).take(i - used),
            decreases width - i,
        {
            glyphs.push(
                Glyph {
                    x: topleft.x as i64 + i as i64,
                    y: topleft.y as i64,
                    fg: Color::Black,
                    bg: Color::White,
                    ch: ' ',
                },
            );
            i = i + 1;
            assert(glyphs@ =~= bar_blanks(window@).take(i - used));
        }
        assert(bar_blanks(window@).take(i - used) =~= bar_blanks(window@));
    } else {
        assert(glyphs@ =~= bar_blanks(window@));
    }
    let cells = window.display();
    let mut inverted: bool = false;
    let mut k: usize = 0;
    assert(glyphs@ =~= bar_blanks(window@) + cell_glyphs(window@, cells@, 0));
    while k < cells.len()
        invariant
            k <= cells.len(),
            topleft == window@.topleft,
            inverted == (k >= 1 && cells@[k - 1].symbol is Anchor),
            glyphs@ == bar_blanks(window@) + cell_glyphs(window@, cells@, k as int),
        decreases cells.len() - k,
    {
        let cell = cells[k];
        let fg: Color = if inverted {
            Color::Black
        } else {
            Color::White
        };
        let bg: Color = if inverted {
            Color::White
        } else {
            Color::Black
        };
        let x: i64 = cell.x as i64 + topleft.x as i64;
        let y: i64 = cell.y as i64 + topleft.y as i64 + 1;
        match cell.symbol {
            Symbol::Anchor(_) => {
                inverted = true;
            },
            Symbol::Char(c) => {
                glyphs.push(Glyph { x: x, y: y, fg: fg, bg: bg, ch: c });
                inverted = false;
            },
            Symbol::ColorChar(c, color) => {
                glyphs.push(Glyph { x: x, y: y, fg: color, bg: bg, ch: c });
                inverted = false;
            },
            Symbol::Void => {
                glyphs.push(Glyph { x: x, y: y, fg: fg, bg: bg, ch: ' ' });
                inverted = false;
            },
        }
        k = k + 1;
        assert(glyphs@ =~= bar_blanks(window@) + cell_glyphs(window@, cells@, k as int));
    }
    Frame { title: title, title_at: topleft, glyphs: glyphs }
}

} // verus!
