use term3d::raster::{draw_cell, draw_line, draw_quad, draw_tri, tri_bounding_box};
use term3d::surface::{Cell, Color, Surface};
use term3d::vec::IVec2;

fn blank() -> Cell {
    Cell { glyph: ' ', fg: Color::White, bg: Color::Black }
}

fn glyph_at(s: &Surface, x: i32, y: i32) -> char {
    s.cell_at(x, y).glyph
}

#[test]
fn diagonal_line_draws_exactly_the_diagonal() {
    let mut s = Surface::new(10, 10);
    draw_line(&mut s, 0, 0, 7, 7);
    for x in 0..10 {
        for y in 0..10 {
            if x == y && x <= 7 {
                assert_eq!(glyph_at(&s, x, y), '#', "cell ({}, {}) should be on the line", x, y);
            } else {
                assert_eq!(s.cell_at(x, y), blank(), "cell ({}, {}) should be untouched", x, y);
            }
        }
    }
}

#[test]
fn horizontal_line_uses_the_straight_run() {
    let mut s = Surface::new(10, 4);
    draw_line(&mut s, 0, 0, 5, 0);
    for x in 0..10 {
        for y in 0..4 {
            if y == 0 && x <= 5 {
                // The '-' glyph comes only from the special-cased
                // horizontal path.
                assert_eq!(glyph_at(&s, x, y), '-');
            } else {
                assert_eq!(s.cell_at(x, y), blank());
            }
        }
    }
}

#[test]
fn vertical_line_uses_the_straight_run() {
    let mut s = Surface::new(4, 10);
    draw_line(&mut s, 2, 1, 2, 6);
    for x in 0..4 {
        for y in 0..10 {
            if x == 2 && 1 <= y && y <= 6 {
                assert_eq!(glyph_at(&s, x, y), '|');
            } else {
                assert_eq!(s.cell_at(x, y), blank());
            }
        }
    }
}

#[test]
fn shallow_line_steps_once_per_column() {
    let mut s = Surface::new(8, 8);
    draw_line(&mut s, 0, 0, 5, 2);
    // Bresenham on a 5-by-2 span: rows 0,0,1,1,2,2.
    let expected = [(0, 0), (1, 0), (2, 1), (3, 1), (4, 2), (5, 2)];
    for x in 0..8 {
        for y in 0..8 {
            if expected.contains(&(x, y)) {
                assert_eq!(glyph_at(&s, x, y), '#');
            } else {
                assert_eq!(s.cell_at(x, y), blank());
            }
        }
    }
}

#[test]
fn steep_line_steps_once_per_row() {
    let mut s = Surface::new(8, 8);
    draw_line(&mut s, 0, 0, 2, 5);
    // Bresenham on a 2-by-5 span, walked along y: columns 0,0,1,1,2,2.
    let expected = [(0, 0), (0, 1), (1, 2), (1, 3), (2, 4), (2, 5)];
    for x in 0..8 {
        for y in 0..8 {
            if expected.contains(&(x, y)) {
                assert_eq!(glyph_at(&s, x, y), '#');
            } else {
                assert_eq!(s.cell_at(x, y), blank());
            }
        }
    }
}

#[test]
fn reversed_endpoints_draw_the_same_shallow_line() {
    let mut a = Surface::new(8, 8);
    let mut b = Surface::new(8, 8);
    draw_line(&mut a, 0, 0, 5, 2);
    draw_line(&mut b, 5, 2, 0, 0);
    for x in 0..8 {
        for y in 0..8 {
            assert_eq!(a.cell_at(x, y), b.cell_at(x, y));
        }
    }
}

#[test]
fn line_off_the_surface_is_clipped_silently() {
    let mut s = Surface::new(4, 4);
    draw_line(&mut s, -3, -3, 2, 2);
    for x in 0..4 {
        for y in 0..4 {
            if x == y && x <= 2 {
                assert_eq!(glyph_at(&s, x, y), '#');
            } else {
                assert_eq!(s.cell_at(x, y), blank());
            }
        }
    }
}

#[test]
fn triangle_fill_inside_and_outside() {
    let mut s = Surface::new(8, 8);
    draw_tri(
        &mut s,
        Color::Red,
        IVec2::new(0, 0),
        IVec2::new(4, 0),
        IVec2::new(0, 4),
    );
    // (1, 1) is inside (1 + 1 <= 4, scaled); (3, 3) is outside.
    assert_eq!(glyph_at(&s, 1, 1), '#');
    assert_eq!(s.cell_at(1, 1).fg, Color::Red);
    assert_eq!(s.cell_at(3, 3), blank());
    // The hypotenuse cells are inside (s + t == 1 exactly).
    assert_eq!(glyph_at(&s, 4, 0), '#');
    assert_eq!(glyph_at(&s, 2, 2), '#');
    assert_eq!(glyph_at(&s, 0, 4), '#');
    // Just beyond the hypotenuse is outside.
    assert_eq!(s.cell_at(3, 2), blank());
}

#[test]
fn degenerate_triangle_fills_nothing() {
    let mut s = Surface::new(6, 6);
    draw_tri(
        &mut s,
        Color::Green,
        IVec2::new(1, 1),
        IVec2::new(3, 3),
        IVec2::new(5, 5),
    );
    for x in 0..6 {
        for y in 0..6 {
            assert_eq!(s.cell_at(x, y), blank());
        }
    }
}

#[test]
fn quad_fills_both_triangles() {
    let mut s = Surface::new(8, 8);
    draw_quad(
        &mut s,
        Color::Blue,
        IVec2::new(1, 1),
        IVec2::new(5, 1),
        IVec2::new(5, 5),
        IVec2::new(1, 5),
    );
    for x in 0..8 {
        for y in 0..8 {
            if 1 <= x && x <= 5 && 1 <= y && y <= 5 {
                assert_eq!(glyph_at(&s, x, y), '#');
                assert_eq!(s.cell_at(x, y).fg, Color::Blue);
            } else {
                assert_eq!(s.cell_at(x, y), blank());
            }
        }
    }
}

#[test]
fn bounding_box_of_three_points() {
    let (minx, maxx, miny, maxy) = tri_bounding_box(
        IVec2::new(3, -1),
        IVec2::new(-2, 4),
        IVec2::new(1, 1),
    );
    assert_eq!((minx, maxx, miny, maxy), (-2, 3, -1, 4));
}

#[test]
fn draw_cell_respects_bounds_and_color() {
    let mut s = Surface::new(3, 3);
    s.set_color(Color::Yellow, Color::Blue);
    draw_cell(&mut s, 'x', 1, 2);
    draw_cell(&mut s, 'y', 5, 5);
    draw_cell(&mut s, 'z', -1, 0);
    assert_eq!(
        s.cell_at(1, 2),
        Cell { glyph: 'x', fg: Color::Yellow, bg: Color::Blue }
    );
    assert_eq!(s.cell_at(0, 0).glyph, ' ');
}

#[test]
fn clear_resets_cells_and_colors() {
    let mut s = Surface::new(4, 2);
    s.set_color(Color::Magenta, Color::Black);
    draw_cell(&mut s, '#', 0, 0);
    s.clear();
    for x in 0..4 {
        for y in 0..2 {
            assert_eq!(s.cell_at(x, y), blank());
        }
    }
    assert_eq!(s.dimensions(), (4, 2));
}
