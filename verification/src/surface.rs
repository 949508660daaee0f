//! The character-cell surface the rasterizer draws onto.
//!
//! A [`Surface`] is a grid of glyph-and-color cells addressed by column and
//! row, with the top-left cell at the origin. Drawing keeps a current
//! foreground/background color pair, and a draw outside the grid is ignored,
//! as a terminal ignores writes beyond its edge. A front end copies the
//! finished grid to the real terminal once per frame.

use vstd::prelude::*;

verus! {

/// A terminal cell color.
#[derive(Clone, Copy, Debug, PartialEq, Eq, Structural)]
pub enum Color {
    Black,
    Red,
    Green,
    Yellow,
    Blue,
    Magenta,
    Cyan,
    White,
}

/// One character cell: a glyph with a foreground and a background color.
#[derive(Clone, Copy, Debug, PartialEq, Eq, Structural)]
pub struct Cell {
    pub glyph: char,
    pub fg: Color,
    pub bg: Color,
}

/// The cell a cleared surface holds everywhere: a space in the default
/// white-on-black color pair.
pub open spec fn blank_cell() -> Cell {
    Cell { glyph: ' ', fg: Color::White, bg: Color::Black }
}

/// A grid of character cells with a current draw color.
pub struct Surface {
    width: usize,
    height: usize,
    cells: Vec<Cell>,
    fg: Color,
    bg: Color,
}

impl Surface {
    /// The grid is exactly `width * height` cells, and both dimensions fit
    /// the `i32` coordinates the rasterizer works in.
    pub closed spec fn wf(&self) -> bool {
        &&& self.cells@.len() == self.width * self.height
        &&& self.width * self.height <= usize::MAX
        &&& self.width <= i32::MAX
        &&& self.height <= i32::MAX
    }

    pub closed spec fn spec_width(&self) -> int {
        self.width as int
    }

    pub closed spec fn spec_height(&self) -> int {
        self.height as int
    }

    /// The cell at column `x`, row `y`.
    pub closed spec fn at(&self, x: int, y: int) -> Cell
        recommends
            self.wf(),
            0 <= x < self.spec_width(),
            0 <= y < self.spec_height(),
    {
        self.cells@[y * self.spec_width() + x]
    }

    pub closed spec fn spec_fg(&self) -> Color {
        self.fg
    }

    pub closed spec fn spec_bg(&self) -> Color {
        self.bg
    }

    /// Every cell is the blank cell.
    pub open spec fn all_blank(&self) -> bool {
        forall|x: int, y: int|
            0 <= x < self.spec_width() && 0 <= y < self.spec_height() ==> self.at(x, y)
                == blank_cell()
    }

    /// A fresh, cleared surface in the default color pair.
    pub fn new(width: usize, height: usize) -> (s: Surface)
        requires
            width * height <= usize::MAX,
            width <= i32::MAX,
            height <= i32::MAX,
        ensures
            s.wf(),
            s.spec_width() == width,
            s.spec_height() == height,
            s.all_blank(),
            s.spec_fg() == Color::White,
            s.spec_bg() == Color::Black,
    {
        let mut cells: Vec<Cell> = Vec::new();
        let n = width * height;
        let mut i: usize = 0;
        while i < n
            invariant
                i <= n,
                cells@.len() == i,
                forall|k: int| 0 <= k < i ==> cells@[k] == blank_cell(),
            decreases n - i,
        {
            cells.push(Cell { glyph: ' ', fg: Color::White, bg: Color::Black });
            i = i + 1;
        }
        let s = Surface { width, height, cells, fg: Color::White, bg: Color::Black };
        proof {
            assert forall|x: int, y: int|
                0 <= x < s.spec_width() && 0 <= y < s.spec_height() implies s.at(x, y)
                == blank_cell() by {
                lemma_grid_index(s.spec_width(), s.spec_height(), x, y);
            }
        }
        s
    }

    /// The width and height in cells.
    pub fn dimensions(&self) -> (d: (i32, i32))
        requires
            self.wf(),
        ensures
            d.0 == self.spec_width(),
            d.1 == self.spec_height(),
            d.0 >= 0,
            d.1 >= 0,
    {
        (self.width as i32, self.height as i32)
    }

    /// Set the color pair that future draws use.
    pub fn set_color(&mut self, fg: Color, bg: Color)
        requires
            old(self).wf(),
        ensures
            final(self).wf(),
            final(self).spec_fg() == fg,
            final(self).spec_bg() == bg,
            final(self).spec_width() == old(self).spec_width(),
            final(self).spec_height() == old(self).spec_height(),
            forall|x: int, y: int|
                0 <= x < final(self).spec_width() && 0 <= y < final(self).spec_height()
                    ==> final(self).at(x, y) == old(self).at(x, y),
    {
        self.fg = fg;
        self.bg = bg;
    }

    /// Put `c` in the current colors at column `x`, row `y`; a position off
    /// the grid is left untouched.
    pub fn draw(&mut self, c: char, x: i32, y: i32)
        requires
            old(self).wf(),
        ensures
            final(self).wf(),
            final(self).spec_width() == old(self).spec_width(),
            final(self).spec_height() == old(self).spec_height(),
            final(self).spec_fg() == old(self).spec_fg(),
            final(self).spec_bg() == old(self).spec_bg(),
            forall|i: int, j: int|
                0 <= i < final(self).spec_width() && 0 <= j < final(self).spec_height()
                    ==> final(self).at(i, j) == (if i == x && j == y {
                    Cell { glyph: c, fg: old(self).spec_fg(), bg: old(self).spec_bg() }
                } else {
                    old(self).at(i, j)
                }),
    {
        if 0 <= x && (x as usize) < self.width && 0 <= y && (y as usize) < self.height {
            proof {
                lemma_grid_index(self.spec_width(), self.spec_height(), x as int, y as int);
            }
            let idx: usize = (y as usize) * self.width + (x as usize);
            self.cells[idx] = Cell { glyph: c, fg: self.fg, bg: self.bg };
            proof {
                assert forall|i: int, j: int|
                    0 <= i < self.spec_width() && 0 <= j < self.spec_height() && !(i == x && j
                        == y) implies self.at(i, j) == old(self).at(i, j) by {
                    lemma_grid_index(self.spec_width(), self.spec_height(), i, j);
                    lemma_grid_index_injective(self.spec_width(), self.spec_height(), i, j, x as int, y as int);
                }
            }
        }
    }

    /// Return every cell to blank and the color pair to the default.
    pub fn clear(&mut self)
        requires
            old(self).wf(),
        ensures
            final(self).wf(),
            final(self).spec_width() == old(self).spec_width(),
            final(self).spec_height() == old(self).spec_height(),
            final(self).all_blank(),
            final(self).spec_fg() == Color::White,
            final(self).spec_bg() == Color::Black,
    {
        self.fg = Color::White;
        self.bg = Color::Black;
        let n = self.cells.len();
        let mut i: usize = 0;
        while i < n
            invariant
                i <= n,
                n == self.cells@.len(),
                self.cells@.len() == old(self).cells@.len(),
                self.width == old(self).width,
                self.height == old(self).height,
                self.fg == Color::White,
                self.bg == Color::Black,
                forall|k: int| 0 <= k < i ==> self.cells@[k] == blank_cell(),
            decreases n - i,
        {
            self.cells[i] = Cell { glyph: ' ', fg: Color::White, bg: Color::Black };
            i = i + 1;
        }
        proof {
            assert forall|x: int, y: int|
                0 <= x < self.spec_width() && 0 <= y < self.spec_height() implies self.at(x, y)
                == blank_cell() by {
                lemma_grid_index(self.spec_width(), self.spec_height(), x, y);
            }
        }
    }

    /// Read the cell at column `x`, row `y`.
    pub fn cell_at(&self, x: i32, y: i32) -> (c: Cell)
        requires
            self.wf(),
            0 <= x < self.spec_width(),
            0 <= y < self.spec_height(),
        ensures
            c == self.at(x as int, y as int),
    {
        proof {
            lemma_grid_index(self.spec_width(), self.spec_height(), x as int, y as int);
        }
        self.cells[(y as usize) * self.width + (x as usize)]
    }
}

/// A grid position's flat index lies inside the cell vector.
proof fn lemma_grid_index(w: int, h: int, x: int, y: int)
    requires
        0 <= x < w,
        0 <= y < h,
    ensures
        0 <= y * w + x < w * h,
{
    assert(0 <= y * w + x < w * h) by (nonlinear_arith)
        requires
            0 <= x < w,
            0 <= y < h,
    ;
}

/// Distinct grid positions have distinct flat indices.
proof fn lemma_grid_index_injective(w: int, h: int, x1: int, y1: int, x2: int, y2: int)
    requires
        0 <= x1 < w,
        0 <= y1 < h,
        0 <= x2 < w,
        0 <= y2 < h,
        !(x1 == x2 && y1 == y2),
    ensures
        y1 * w + x1 != y2 * w + x2,
{
    assert(y1 * w + x1 != y2 * w + x2) by (nonlinear_arith)
        requires
            0 <= x1 < w,
            0 <= y1 < h,
            0 <= x2 < w,
            0 <= y2 < h,
            !(x1 == x2 && y1 == y2),
    ;
}

} // verus!
