//! Rasterization onto a [`Surface`]: Bresenham lines, barycentric triangle
//! fill, and quads as two triangles.
//!
//! Every drawing routine is specified against an exact description of the
//! cell set it touches: a line is the set of cells whose minor coordinate is
//! the rounded ideal offset at each major-axis step, a triangle is the set
//! of cells inside the clipped bounding box whose barycentric parameters
//! `s, t` satisfy `s >= 0`, `t >= 0`, `s + t <= 1`.

use vstd::prelude::*;
use vstd::arithmetic::div_mod::{
    lemma_div_is_ordered, lemma_div_pos_is_pos, lemma_fundamental_div_mod,
    lemma_fundamental_div_mod_converse_div, lemma_mod_division_less_than_divisor,
};
use crate::num::iabs;
use crate::surface::{Cell, Color, Surface};
use crate::vec::{spec_perp_dot, IVec2};

verus! {

/// How far the minor axis has moved after `i` steps along the major axis of
/// a Bresenham walk whose major span is `dx` and whose minor span is `ady`
/// (both nonnegative, `ady <= dx`): the ideal offset `ady * i / dx` rounded
/// to the nearest whole cell, halves rounding toward zero.
pub open spec fn bres_step(ady: int, dx: int, i: int) -> int
    recommends
        0 < dx,
        0 <= ady <= dx,
{
    (2 * ady * i + dx - 1) / (2 * dx)
}

/// The row a shallow (`|dy| <= dx`) line from `(x0, y0)` to `(x1, y1)`
/// occupies at column `x`.
pub open spec fn low_line_y(x0: int, y0: int, x1: int, y1: int, x: int) -> int
    recommends
        x0 < x1,
        iabs(y1 - y0) <= x1 - x0,
        x0 <= x <= x1,
{
    y0 + (if y1 < y0 {
        -1int
    } else {
        1int
    }) * bres_step(iabs(y1 - y0), x1 - x0, x - x0)
}

/// The column a steep (`|dx| <= dy`) line from `(x0, y0)` to `(x1, y1)`
/// occupies at row `y`.
pub open spec fn high_line_x(x0: int, y0: int, x1: int, y1: int, y: int) -> int
    recommends
        y0 < y1,
        iabs(x1 - x0) <= y1 - y0,
        y0 <= y <= y1,
{
    x0 + (if x1 < x0 {
        -1int
    } else {
        1int
    }) * bres_step(iabs(x1 - x0), y1 - y0, y - y0)
}

/// Whether cell `(px, py)` belongs to the line from `(x0, y0)` to
/// `(x1, y1)`: a straight run for exactly vertical or horizontal lines, and
/// a Bresenham walk along the longer axis otherwise, walked in the
/// direction in which the major coordinate grows.
pub open spec fn on_line(x0: int, y0: int, x1: int, y1: int, px: int, py: int) -> bool {
    if x0 == x1 {
        px == x0 && (if y0 <= y1 {
            y0 <= py <= y1
        } else {
            y1 <= py <= y0
        })
    } else if y0 == y1 {
        py == y0 && (if x0 <= x1 {
            x0 <= px <= x1
        } else {
            x1 <= px <= x0
        })
    } else if iabs(y1 - y0) < iabs(x1 - x0) {
        if x0 < x1 {
            x0 <= px <= x1 && py == low_line_y(x0, y0, x1, y1, px)
        } else {
            x1 <= px <= x0 && py == low_line_y(x1, y1, x0, y0, px)
        }
    } else {
        if y0 < y1 {
            y0 <= py <= y1 && px == high_line_x(x0, y0, x1, y1, py)
        } else {
            y1 <= py <= y0 && px == high_line_x(x1, y1, x0, y0, py)
        }
    }
}

/// The glyph the line is stroked with: the original's bars for exactly
/// vertical and horizontal runs, hash marks otherwise.
pub open spec fn line_glyph(x0: int, y0: int, x1: int, y1: int) -> char {
    if x0 == x1 {
        '|'
    } else if y0 == y1 {
        '-'
    } else {
        '#'
    }
}

/// `s1` is `s0` with exactly the cells satisfying `p` replaced by `c`, and
/// the same dimensions.
pub open spec fn painted(s0: Surface, s1: Surface, p: spec_fn(int, int) -> bool, c: Cell) -> bool {
    &&& s1.spec_width() == s0.spec_width()
    &&& s1.spec_height() == s0.spec_height()
    &&& forall|i: int, j: int|
        0 <= i < s1.spec_width() && 0 <= j < s1.spec_height() ==> s1.at(i, j) == (if p(i, j) {
            c
        } else {
            s0.at(i, j)
        })
}

/// The first step of a Bresenham walk has offset zero, and a full walk of
/// `dx` steps ends at offset `ady` exactly.
proof fn lemma_bres_step_ends(ady: int, dx: int)
    requires
        0 < dx,
        0 <= ady <= dx,
    ensures
        bres_step(ady, dx, 0) == 0,
        bres_step(ady, dx, dx) == ady,
{
    let d2 = 2 * dx;
    assert(2 * ady * 0 + dx - 1 == 0 * d2 + (dx - 1)) by (nonlinear_arith);
    lemma_fundamental_div_mod_converse_div(2 * ady * 0 + dx - 1, d2, 0, dx - 1);
    assert(2 * ady * dx + dx - 1 == ady * (2 * dx) + (dx - 1)) by (nonlinear_arith);
    lemma_fundamental_div_mod_converse_div(2 * ady * dx + dx - 1, 2 * dx, ady, dx - 1);
}

/// A Bresenham offset lies between zero and the full minor span.
proof fn lemma_bres_step_bounds(ady: int, dx: int, i: int)
    requires
        0 < dx,
        0 <= ady <= dx,
        0 <= i <= dx,
    ensures
        0 <= bres_step(ady, dx, i) <= ady,
{
    let d2 = 2 * dx;
    assert(0 <= 2 * ady * i && 2 * ady * i <= 2 * ady * dx) by (nonlinear_arith)
        requires
            0 <= ady,
            0 <= i <= dx,
    ;
    lemma_div_pos_is_pos(2 * ady * i + dx - 1, d2);
    lemma_div_is_ordered(2 * ady * i + dx - 1, 2 * ady * dx + dx - 1, d2);
    lemma_bres_step_ends(ady, dx);
}

/// One step of the Bresenham walk: with `r` the offset after `i` steps and
/// `d` the error term the algorithm holds there, the offset after `i + 1`
/// steps grows by one exactly when `d` is positive; and `d` stays within
/// one major span of zero.
proof fn lemma_bres_step_next(ady: int, dx: int, i: int)
    requires
        0 < dx,
        0 <= ady <= dx,
        0 <= i,
    ensures
        ({
            let r = bres_step(ady, dx, i);
            let d = 2 * ady * (i + 1) - dx - 2 * dx * r;
            &&& 1 - 2 * dx <= d <= 2 * dx
            &&& bres_step(ady, dx, i + 1) == r + (if d > 0 {
                1int
            } else {
                0int
            })
        }),
{
    let d2 = 2 * dx;
    let a_i = 2 * ady * i + dx - 1;
    let a_n = 2 * ady * (i + 1) + dx - 1;
    assert(2 * ady * (i + 1) + dx - 1 == (2 * ady * i + dx - 1) + 2 * ady) by (nonlinear_arith);
    lemma_fundamental_div_mod(a_i, d2);
    lemma_mod_division_less_than_divisor(a_i, d2);
    let r = a_i / d2;
    let m = a_i % d2;
    let d = 2 * ady * (i + 1) - dx - 2 * dx * r;
    assert(d == m + 2 * ady - d2 + 1) by (nonlinear_arith)
        requires
            a_i == d2 * r + m,
            a_n == a_i + 2 * ady,
            d == a_n - dx + 1 - dx - d2 * r,
            d2 == 2 * dx,
    ;
    if d > 0 {
        assert(a_n == (r + 1) * d2 + (m + 2 * ady - d2)) by (nonlinear_arith)
            requires
                a_i == d2 * r + m,
                a_n == a_i + 2 * ady,
        ;
        lemma_fundamental_div_mod_converse_div(a_n, d2, r + 1, m + 2 * ady - d2);
    } else {
        assert(a_n == r * d2 + (m + 2 * ady)) by (nonlinear_arith)
            requires
                a_i == d2 * r + m,
                a_n == a_i + 2 * ady,
        ;
        lemma_fundamental_div_mod_converse_div(a_n, d2, r, m + 2 * ady);
    }
}

/// Stroke the shallow run from `(x0, y0)` to `(x1, y1)` — columns strictly
/// rising, minor span at most the major span — in hash marks with the
/// default color pair.
fn line_low(s: &mut Surface, x0: i32, y0: i32, x1: i32, y1: i32)
    requires
        old(s).wf(),
        x0 < x1,
        iabs(y1 as int - y0 as int) <= x1 as int - x0 as int,
    ensures
        final(s).wf(),
        final(s).spec_fg() == Color::White,
        final(s).spec_bg() == Color::Black,
        painted(
            *old(s),
            *final(s),
            (|px: int, py: int|
                x0 <= px <= x1 && py == low_line_y(
                    x0 as int,
                    y0 as int,
                    x1 as int,
                    y1 as int,
                    px,
                )),
            Cell { glyph: '#', fg: Color::White, bg: Color::Black },
        ),
{
    s.set_color(Color::White, Color::Black);
    let ghost s0 = *s;
    let dx: i64 = x1 as i64 - x0 as i64;
    let dy: i64 = y1 as i64 - y0 as i64;
    let ady: i64 = if dy < 0 {
        -dy
    } else {
        dy
    };
    let yi: i64 = if dy < 0 {
        -1
    } else {
        1
    };
    let mut y: i64 = y0 as i64;
    let mut d: i64 = 2 * ady - dx;
    let mut i: i64 = 0;
    proof {
        lemma_bres_step_ends(ady as int, dx as int);
        assert(2 * (ady as int) * 1 == 2 * (ady as int) && 2 * (dx as int) * 0 == 0)
            by (nonlinear_arith);
    }
    while i <= dx
        invariant
            s.wf(),
            s.spec_width() == s0.spec_width(),
            s.spec_height() == s0.spec_height(),
            s.spec_fg() == Color::White,
            s.spec_bg() == Color::Black,
            dx == x1 as int - x0 as int,
            dy == y1 as int - y0 as int,
            0 < dx,
            0 <= ady <= dx,
            ady == iabs(dy as int),
            yi == (if dy < 0 {
                -1int
            } else {
                1int
            }),
            0 <= i <= dx + 1,
            y == y0 + (if dy < 0 {
                -bres_step(ady as int, dx as int, i as int)
            } else {
                bres_step(ady as int, dx as int, i as int)
            }),
            d == 2 * (ady as int) * (i + 1) - dx - 2 * (dx as int) * bres_step(
                ady as int,
                dx as int,
                i as int,
            ),
            1 - 2 * dx <= d <= 2 * dx,
            forall|a: int, b: int|
                0 <= a < s.spec_width() && 0 <= b < s.spec_height() ==> s.at(a, b) == (if x0 <= a
                    < x0 + i && b == low_line_y(x0 as int, y0 as int, x1 as int, y1 as int, a) {
                    Cell { glyph: '#', fg: Color::White, bg: Color::Black }
                } else {
                    s0.at(a, b)
                }),
        decreases dx + 1 - i,
    {
        proof {
            lemma_bres_step_bounds(ady as int, dx as int, i as int);
        }
        let px: i32 = (x0 as i64 + i) as i32;
        let py: i32 = y as i32;
        let ghost sp = *s;
        s.draw('#', px, py);
        proof {
            lemma_bres_step_next(ady as int, dx as int, i as int);
            let r = bres_step(ady as int, dx as int, i as int);
            assert(2 * (ady as int) * ((i as int) + 2) == 2 * (ady as int) * ((i as int) + 1) + 2
                * (ady as int)) by (nonlinear_arith);
            assert(2 * (dx as int) * (r + 1) == 2 * (dx as int) * r + 2 * (dx as int))
                by (nonlinear_arith);
            if (y1 as int) < (y0 as int) {
                assert((-1int) * r == -r) by (nonlinear_arith);
            } else {
                assert((1int) * r == r) by (nonlinear_arith);
            }
            assert(py as int == low_line_y(x0 as int, y0 as int, x1 as int, y1 as int, px as int));
            assert forall|a: int, b: int|
                0 <= a < s.spec_width() && 0 <= b < s.spec_height() implies s.at(a, b) == (if x0
                <= a < x0 + i + 1 && b == low_line_y(x0 as int, y0 as int, x1 as int, y1 as int, a) {
                Cell { glyph: '#', fg: Color::White, bg: Color::Black }
            } else {
                s0.at(a, b)
            }) by {
                if a == px as int && b == py as int {
                } else {
                    assert(s.at(a, b) == sp.at(a, b));
                    if a == px as int && b != py as int {
                        assert(b != low_line_y(x0 as int, y0 as int, x1 as int, y1 as int, a));
                    }
                }
            }
        }
        if d > 0 {
            y = y + yi;
            d = d - 2 * dx;
        }
        d = d + 2 * ady;
        i = i + 1;
    }
}

/// Stroke the steep run from `(x0, y0)` to `(x1, y1)` — rows strictly
/// rising, minor span at most the major span — in hash marks with the
/// default color pair.
fn line_high(s: &mut Surface, x0: i32, y0: i32, x1: i32, y1: i32)
    requires
        old(s).wf(),
        y0 < y1,
        iabs(x1 as int - x0 as int) <= y1 as int - y0 as int,
    ensures
        final(s).wf(),
        final(s).spec_fg() == Color::White,
        final(s).spec_bg() == Color::Black,
        painted(
            *old(s),
            *final(s),
            (|px: int, py: int|
                y0 <= py <= y1 && px == high_line_x(
                    x0 as int,
                    y0 as int,
                    x1 as int,
                    y1 as int,
                    py,
                )),
            Cell { glyph: '#', fg: Color::White, bg: Color::Black },
        ),
{
    s.set_color(Color::White, Color::Black);
    let ghost s0 = *s;
    let dy: i64 = y1 as i64 - y0 as i64;
    let dx: i64 = x1 as i64 - x0 as i64;
    let adx: i64 = if dx < 0 {
        -dx
    } else {
        dx
    };
    let xi: i64 = if dx < 0 {
        -1
    } else {
        1
    };
    let mut x: i64 = x0 as i64;
    let mut d: i64 = 2 * adx - dy;
    let mut i: i64 = 0;
    proof {
        lemma_bres_step_ends(adx as int, dy as int);
        assert(2 * (adx as int) * 1 == 2 * (adx as int) && 2 * (dy as int) * 0 == 0)
            by (nonlinear_arith);
    }
    while i <= dy
        invariant
            s.wf(),
            s.spec_width() == s0.spec_width(),
            s.spec_height() == s0.spec_height(),
            s.spec_fg() == Color::White,
            s.spec_bg() == Color::Black,
            dy == y1 as int - y0 as int,
            dx == x1 as int - x0 as int,
            0 < dy,
            0 <= adx <= dy,
            adx == iabs(dx as int),
            xi == (if dx < 0 {
                -1int
            } else {
                1int
            }),
            0 <= i <= dy + 1,
            x == x0 + (if dx < 0 {
                -bres_step(adx as int, dy as int, i as int)
            } else {
                bres_step(adx as int, dy as int, i as int)
            }),
            d == 2 * (adx as int) * (i + 1) - dy - 2 * (dy as int) * bres_step(
                adx as int,
                dy as int,
                i as int,
            ),
            1 - 2 * dy <= d <= 2 * dy,
            forall|a: int, b: int|
                0 <= a < s.spec_width() && 0 <= b < s.spec_height() ==> s.at(a, b) == (if y0 <= b
                    < y0 + i && a == high_line_x(x0 as int, y0 as int, x1 as int, y1 as int, b) {
                    Cell { glyph: '#', fg: Color::White, bg: Color::Black }
                } else {
                    s0.at(a, b)
                }),
        decreases dy + 1 - i,
    {
        proof {
            lemma_bres_step_bounds(adx as int, dy as int, i as int);
        }
        let px: i32 = x as i32;
        let py: i32 = (y0 as i64 + i) as i32;
        let ghost sp = *s;
        s.draw('#', px, py);
        proof {
            lemma_bres_step_next(adx as int, dy as int, i as int);
            let r = bres_step(adx as int, dy as int, i as int);
            assert(2 * (adx as int) * ((i as int) + 2) == 2 * (adx as int) * ((i as int) + 1) + 2
                * (adx as int)) by (nonlinear_arith);
            assert(2 * (dy as int) * (r + 1) == 2 * (dy as int) * r + 2 * (dy as int))
                by (nonlinear_arith);
            if (x1 as int) < (x0 as int) {
                assert((-1int) * r == -r) by (nonlinear_arith);
            } else {
                assert((1int) * r == r) by (nonlinear_arith);
            }
            assert(px as int == high_line_x(x0 as int, y0 as int, x1 as int, y1 as int, py as int));
            assert forall|a: int, b: int|
                0 <= a < s.spec_width() && 0 <= b < s.spec_height() implies s.at(a, b) == (if y0
                <= b < y0 + i + 1 && a == high_line_x(x0 as int, y0 as int, x1 as int, y1 as int, b) {
                Cell { glyph: '#', fg: Color::White, bg: Color::Black }
            } else {
                s0.at(a, b)
            }) by {
                if a == px as int && b == py as int {
                } else {
                    assert(s.at(a, b) == sp.at(a, b));
                    if b == py as int && a != px as int {
                        assert(a != high_line_x(x0 as int, y0 as int, x1 as int, y1 as int, b));
                    }
                }
            }
        }
        if d > 0 {
            x = x + xi;
            d = d - 2 * dy;
        }
        d = d + 2 * adx;
        i = i + 1;
    }
}

/// Put one glyph at column `x`, row `y` of the surface, in its current
/// colors; the top-left cell is the origin.
pub fn draw_cell(s: &mut Surface, c: char, x: i32, y: i32)
    requires
        old(s).wf(),
    ensures
        final(s).wf(),
        final(s).spec_width() == old(s).spec_width(),
        final(s).spec_height() == old(s).spec_height(),
        final(s).spec_fg() == old(s).spec_fg(),
        final(s).spec_bg() == old(s).spec_bg(),
        forall|i: int, j: int|
            0 <= i < final(s).spec_width() && 0 <= j < final(s).spec_height()
                ==> final(s).at(i, j) == (if i == x && j == y {
                Cell { glyph: c, fg: old(s).spec_fg(), bg: old(s).spec_bg() }
            } else {
                old(s).at(i, j)
            }),
{
    s.draw(c, x, y);
}

/// Stroke the line from `(x0, y0)` to `(x1, y1)`, both endpoints included.
///
/// An exactly vertical or horizontal line is drawn as a straight run of
/// `'|'` or `'-'` in the current color pair; every other line is a
/// Bresenham walk of `'#'` in the default white-on-black pair, which then
/// remains the surface's current pair.
pub fn draw_line(s: &mut Surface, x0: i32, y0: i32, x1: i32, y1: i32)
    requires
        old(s).wf(),
    ensures
        final(s).wf(),
        final(s).spec_fg() == (if x0 == x1 || y0 == y1 {
            old(s).spec_fg()
        } else {
            Color::White
        }),
        final(s).spec_bg() == (if x0 == x1 || y0 == y1 {
            old(s).spec_bg()
        } else {
            Color::Black
        }),
        painted(
            *old(s),
            *final(s),
            (|px: int, py: int| on_line(x0 as int, y0 as int, x1 as int, y1 as int, px, py)),
            (Cell {
                glyph: line_glyph(x0 as int, y0 as int, x1 as int, y1 as int),
                fg: if x0 == x1 || y0 == y1 {
                    old(s).spec_fg()
                } else {
                    Color::White
                },
                bg: if x0 == x1 || y0 == y1 {
                    old(s).spec_bg()
                } else {
                    Color::Black
                },
            }),
        ),
{
    let ghost s0 = *old(s);
    if x0 == x1 {
        let lo: i32 = if y0 <= y1 {
            y0
        } else {
            y1
        };
        let hi: i32 = if y0 <= y1 {
            y1
        } else {
            y0
        };
        let mut yy: i64 = lo as i64;
        while yy <= hi as i64
            invariant
                s.wf(),
                s.spec_width() == s0.spec_width(),
                s.spec_height() == s0.spec_height(),
                s.spec_fg() == s0.spec_fg(),
                s.spec_bg() == s0.spec_bg(),
                lo as int <= yy <= hi as int + 1,
                forall|a: int, b: int|
                    0 <= a < s.spec_width() && 0 <= b < s.spec_height() ==> s.at(a, b) == (if a
                        == x0 && lo <= b < yy {
                        Cell { glyph: '|', fg: s0.spec_fg(), bg: s0.spec_bg() }
                    } else {
                        s0.at(a, b)
                    }),
            decreases hi - yy + 1,
        {
            s.draw('|', x0, yy as i32);
            yy = yy + 1;
        }
    } else if y0 == y1 {
        let lo: i32 = if x0 <= x1 {
            x0
        } else {
            x1
        };
        let hi: i32 = if x0 <= x1 {
            x1
        } else {
            x0
        };
        let mut xx: i64 = lo as i64;
        while xx <= hi as i64
            invariant
                s.wf(),
                s.spec_width() == s0.spec_width(),
                s.spec_height() == s0.spec_height(),
                s.spec_fg() == s0.spec_fg(),
                s.spec_bg() == s0.spec_bg(),
                lo as int <= xx <= hi as int + 1,
                forall|a: int, b: int|
                    0 <= a < s.spec_width() && 0 <= b < s.spec_height() ==> s.at(a, b) == (if b
                        == y0 && lo <= a < xx {
                        Cell { glyph: '-', fg: s0.spec_fg(), bg: s0.spec_bg() }
                    } else {
                        s0.at(a, b)
                    }),
            decreases hi - xx + 1,
        {
            s.draw('-', xx as i32, y0);
            xx = xx + 1;
        }
    } else {
        let dx64: i64 = (x1 as i64) - (x0 as i64);
        let dxa: i64 = if dx64 < 0 {
            -dx64
        } else {
            dx64
        };
        let dy64: i64 = (y1 as i64) - (y0 as i64);
        let dya: i64 = if dy64 < 0 {
            -dy64
        } else {
            dy64
        };
        if dya < dxa {
            if x0 > x1 {
                line_low(s, x1, y1, x0, y0);
            } else {
                line_low(s, x0, y0, x1, y1);
            }
        } else {
            if y0 > y1 {
                line_high(s, x1, y1, x0, y0);
            } else {
                line_high(s, x0, y0, x1, y1);
            }
        }
    }
}

/// The least of three values.
pub open spec fn min3(a: int, b: int, c: int) -> int {
    if b < a {
        if c < b {
            c
        } else {
            b
        }
    } else {
        if c < a {
            c
        } else {
            a
        }
    }
}

/// The greatest of three values.
pub open spec fn max3(a: int, b: int, c: int) -> int {
    if b > a {
        if c > b {
            c
        } else {
            b
        }
    } else {
        if c > a {
            c
        } else {
            a
        }
    }
}

/// A bounding-box coordinate clipped against a surface axis of `limit`
/// cells: forced up to zero, then down to the last valid index.
pub open spec fn clip_coord(limit: int, a: int) -> int {
    let e = limit - 1;
    let lo = if a < 0 {
        0int
    } else {
        a
    };
    if lo > e {
        e
    } else {
        lo
    }
}

/// Whether the point `(px, py)` lies inside the triangle `v1 v2 v3` by the
/// barycentric edge test: with `d` the perp-dot of the two edge vectors out
/// of `v1`, and `sn`, `tn` the perp-dots of the point against those edges,
/// the parameters `s = sn/d` and `t = tn/d` must satisfy `s >= 0`,
/// `t >= 0`, `s + t <= 1`. A degenerate triangle (`d == 0`) contains no
/// point.
pub open spec fn in_tri(v1: IVec2, v2: IVec2, v3: IVec2, px: int, py: int) -> bool {
    let d = spec_perp_dot(v2.x - v1.x, v2.y - v1.y, v3.x - v1.x, v3.y - v1.y);
    let sn = spec_perp_dot(px - v1.x, py - v1.y, v3.x - v1.x, v3.y - v1.y);
    let tn = spec_perp_dot(v2.x - v1.x, v2.y - v1.y, px - v1.x, py - v1.y);
    if d > 0 {
        sn >= 0 && tn >= 0 && sn + tn <= d
    } else if d < 0 {
        sn <= 0 && tn <= 0 && sn + tn >= d
    } else {
        false
    }
}

/// Whether the triangle fill of `v1 v2 v3` on a `w` by `h` surface marks
/// cell `(px, py)`: the cell lies in the triangle's bounding box clipped to
/// the surface, and inside the triangle itself.
pub open spec fn tri_cell(v1: IVec2, v2: IVec2, v3: IVec2, w: int, h: int, px: int, py: int) -> bool {
    &&& clip_coord(w, min3(v1.x as int, v2.x as int, v3.x as int)) <= px <= clip_coord(
        w,
        max3(v1.x as int, v2.x as int, v3.x as int),
    )
    &&& clip_coord(h, min3(v1.y as int, v2.y as int, v3.y as int)) <= py <= clip_coord(
        h,
        max3(v1.y as int, v2.y as int, v3.y as int),
    )
    &&& in_tri(v1, v2, v3, px, py)
}

/// Whether the quad fill of `a b c d` marks cell `(px, py)`: the quad is
/// split along the diagonal `a c` into the triangles `a b c` and `a d c`.
pub open spec fn quad_cell(a: IVec2, b: IVec2, c: IVec2, d: IVec2, w: int, h: int, px: int, py: int) -> bool {
    tri_cell(a, b, c, w, h, px, py) || tri_cell(a, d, c, w, h, px, py)
}

/// The perp-dot of two vectors with entries well inside `i64`, computed
/// without overflow.
fn perp_dot_wide(ax: i64, ay: i64, bx: i64, by: i64) -> (r: i128)
    requires
        iabs(ax as int) <= 0x2_0000_0000,
        iabs(ay as int) <= 0x2_0000_0000,
        iabs(bx as int) <= 0x2_0000_0000,
        iabs(by as int) <= 0x2_0000_0000,
    ensures
        r == spec_perp_dot(ax as int, ay as int, bx as int, by as int),
        iabs(r as int) <= 0x8_0000_0000_0000_0000,
{
    proof {
        assert(iabs(ay as int * bx as int) <= 0x4_0000_0000_0000_0000 && iabs(
            ax as int * by as int,
        ) <= 0x4_0000_0000_0000_0000) by (nonlinear_arith)
            requires
                iabs(ax as int) <= 0x2_0000_0000,
                iabs(ay as int) <= 0x2_0000_0000,
                iabs(bx as int) <= 0x2_0000_0000,
                iabs(by as int) <= 0x2_0000_0000,
        ;
    }
    (ay as i128) * (bx as i128) - (ax as i128) * (by as i128)
}

/// The bounding box of the three vertices, as
/// `(minimum x, maximum x, minimum y, maximum y)`.
pub fn tri_bounding_box(v1: IVec2, v2: IVec2, v3: IVec2) -> (r: (i32, i32, i32, i32))
    ensures
        r.0 == min3(v1.x as int, v2.x as int, v3.x as int),
        r.1 == max3(v1.x as int, v2.x as int, v3.x as int),
        r.2 == min3(v1.y as int, v2.y as int, v3.y as int),
        r.3 == max3(v1.y as int, v2.y as int, v3.y as int),
{
    let mut min_x = v1.x;
    let mut max_x = v1.x;
    let mut min_y = v1.y;
    let mut max_y = v1.y;

    if v2.x < min_x {
        min_x = v2.x;
    } else if v2.x > max_x {
        max_x = v2.x;
    }
    if v2.y < min_y {
        min_y = v2.y;
    } else if v2.y > max_y {
        max_y = v2.y;
    }
    if v3.x < min_x {
        min_x = v3.x;
    } else if v3.x > max_x {
        max_x = v3.x;
    }
    if v3.y < min_y {
        min_y = v3.y;
    } else if v3.y > max_y {
        max_y = v3.y;
    }

    (min_x, max_x, min_y, max_y)
}

/// A bounding-box coordinate clipped to a surface axis of `limit` cells.
fn clip_exec(limit: i32, a: i32) -> (r: i32)
    requires
        limit >= 0,
    ensures
        r == clip_coord(limit as int, a as int),
{
    let e = limit - 1;
    let lo = if a < 0 {
        0
    } else {
        a
    };
    if lo > e {
        e
    } else {
        lo
    }
}

/// Fill the triangle `v1 v2 v3` in hash marks, foreground `color` on
/// black: every cell of the clipped bounding box that passes the
/// barycentric inside test is painted, and nothing else.
pub fn draw_tri(s: &mut Surface, color: Color, v1: IVec2, v2: IVec2, v3: IVec2)
    requires
        old(s).wf(),
    ensures
        final(s).wf(),
        final(s).spec_fg() == color,
        final(s).spec_bg() == Color::Black,
        painted(
            *old(s),
            *final(s),
            (|px: int, py: int|
                tri_cell(v1, v2, v3, old(s).spec_width(), old(s).spec_height(), px, py)),
            Cell { glyph: '#', fg: color, bg: Color::Black },
        ),
{
    let (w, h) = s.dimensions();
    let (bminx, bmaxx, bminy, bmaxy) = tri_bounding_box(v1, v2, v3);
    let cminx = clip_exec(w, bminx);
    let cmaxx = clip_exec(w, bmaxx);
    let cminy = clip_exec(h, bminy);
    let cmaxy = clip_exec(h, bmaxy);

    let vs1x: i64 = v2.x as i64 - v1.x as i64;
    let vs1y: i64 = v2.y as i64 - v1.y as i64;
    let vs2x: i64 = v3.x as i64 - v1.x as i64;
    let vs2y: i64 = v3.y as i64 - v1.y as i64;
    let det = perp_dot_wide(vs1x, vs1y, vs2x, vs2y);

    s.set_color(color, Color::Black);
    let ghost s0 = *s;
    let ghost gw = s0.spec_width();
    let ghost gh = s0.spec_height();

    let mut xx: i64 = cminx as i64;
    while xx <= cmaxx as i64
        invariant
            s.wf(),
            s.spec_width() == gw,
            s.spec_height() == gh,
            gw == w as int,
            gh == h as int,
            s.spec_fg() == color,
            s.spec_bg() == Color::Black,
            cminx as int <= xx <= cmaxx as int + 1,
            cminx == clip_coord(gw, min3(v1.x as int, v2.x as int, v3.x as int)),
            cmaxx == clip_coord(gw, max3(v1.x as int, v2.x as int, v3.x as int)),
            cminy == clip_coord(gh, min3(v1.y as int, v2.y as int, v3.y as int)),
            cmaxy == clip_coord(gh, max3(v1.y as int, v2.y as int, v3.y as int)),
            vs1x == v2.x - v1.x,
            vs1y == v2.y - v1.y,
            vs2x == v3.x - v1.x,
            vs2y == v3.y - v1.y,
            det == spec_perp_dot(
                v2.x - v1.x,
                v2.y - v1.y,
                v3.x - v1.x,
                v3.y - v1.y,
            ),
            forall|a: int, b: int|
                0 <= a < gw && 0 <= b < gh ==> s.at(a, b) == (if tri_cell(v1, v2, v3, gw, gh, a, b)
                    && a < xx {
                    Cell { glyph: '#', fg: color, bg: Color::Black }
                } else {
                    s0.at(a, b)
                }),
        decreases cmaxx as int + 1 - xx,
    {
        let mut yy: i64 = cminy as i64;
        while yy <= cmaxy as i64
            invariant
                s.wf(),
                s.spec_width() == gw,
                s.spec_height() == gh,
                gw == w as int,
                gh == h as int,
                s.spec_fg() == color,
                s.spec_bg() == Color::Black,
                cminx as int <= xx <= cmaxx as int,
                cminy as int <= yy <= cmaxy as int + 1,
                cminx == clip_coord(gw, min3(v1.x as int, v2.x as int, v3.x as int)),
                cmaxx == clip_coord(gw, max3(v1.x as int, v2.x as int, v3.x as int)),
                cminy == clip_coord(gh, min3(v1.y as int, v2.y as int, v3.y as int)),
                cmaxy == clip_coord(gh, max3(v1.y as int, v2.y as int, v3.y as int)),
                vs1x == v2.x - v1.x,
                vs1y == v2.y - v1.y,
                vs2x == v3.x - v1.x,
                vs2y == v3.y - v1.y,
                det == spec_perp_dot(
                    v2.x - v1.x,
                    v2.y - v1.y,
                    v3.x - v1.x,
                    v3.y - v1.y,
                ),
                forall|a: int, b: int|
                    0 <= a < gw && 0 <= b < gh ==> s.at(a, b) == (if tri_cell(
                        v1,
                        v2,
                        v3,
                        gw,
                        gh,
                        a,
                        b,
                    ) && (a < xx || (a == xx && b < yy)) {
                        Cell { glyph: '#', fg: color, bg: Color::Black }
                    } else {
                        s0.at(a, b)
                    }),
            decreases cmaxy as int + 1 - yy,
        {
            let qx: i64 = xx - v1.x as i64;
            let qy: i64 = yy - v1.y as i64;
            let sn = perp_dot_wide(qx, qy, vs2x, vs2y);
            let tn = perp_dot_wide(vs1x, vs1y, qx, qy);
            let inside: bool = if det > 0 {
                sn >= 0 && tn >= 0 && sn + tn <= det
            } else if det < 0 {
                sn <= 0 && tn <= 0 && sn + tn >= det
            } else {
                false
            };
            proof {
                assert(inside == in_tri(v1, v2, v3, xx as int, yy as int));
            }
            let ghost sp = *s;
            if inside {
                s.draw('#', xx as i32, yy as i32);
            }
            proof {
                assert forall|a: int, b: int|
                    0 <= a < gw && 0 <= b < gh implies s.at(a, b) == (if tri_cell(
                    v1,
                    v2,
                    v3,
                    gw,
                    gh,
                    a,
                    b,
                ) && (a < xx || (a == xx && b < yy + 1)) {
                    Cell { glyph: '#', fg: color, bg: Color::Black }
                } else {
                    s0.at(a, b)
                }) by {
                    if a == xx as int && b == yy as int {
                    } else {
                        assert(s.at(a, b) == sp.at(a, b));
                    }
                }
            }
            yy = yy + 1;
        }
        proof {
            assert forall|a: int, b: int|
                0 <= a < gw && 0 <= b < gh implies s.at(a, b) == (if tri_cell(
                v1,
                v2,
                v3,
                gw,
                gh,
                a,
                b,
            ) && a < xx + 1 {
                Cell { glyph: '#', fg: color, bg: Color::Black }
            } else {
                s0.at(a, b)
            }) by {
            }
        }
        xx = xx + 1;
    }
}

/// Fill the quad `a b c d` by splitting it along the diagonal `a c` into
/// the triangles `a b c` and `a d c`, both in `color` on black.
pub fn draw_quad(s: &mut Surface, color: Color, a: IVec2, b: IVec2, c: IVec2, d: IVec2)
    requires
        old(s).wf(),
    ensures
        final(s).wf(),
        final(s).spec_fg() == color,
        final(s).spec_bg() == Color::Black,
        painted(
            *old(s),
            *final(s),
            (|px: int, py: int|
                quad_cell(a, b, c, d, old(s).spec_width(), old(s).spec_height(), px, py)),
            Cell { glyph: '#', fg: color, bg: Color::Black },
        ),
{
    let ghost s0 = *old(s);
    draw_tri(s, color, a, b, c);
    let ghost s1 = *s;
    draw_tri(s, color, a, d, c);
    proof {
        assert forall|px: int, py: int|
            0 <= px < s.spec_width() && 0 <= py < s.spec_height() implies s.at(px, py) == (
        if quad_cell(a, b, c, d, s0.spec_width(), s0.spec_height(), px, py) {
            Cell { glyph: '#', fg: color, bg: Color::Black }
        } else {
            s0.at(px, py)
        }) by {
        }
    }
}

} // verus!
