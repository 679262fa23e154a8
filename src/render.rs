//! What a grid looks like on screen: the shapes that paint it, in painting
//! order.
use vstd::prelude::*;
use crate::geometry::{CellLayout, FracPos, FracRect, Rect, cell_rect_in, frac_pos, layout_of, whole};
use crate::grid::GridView;
use crate::tile::{Rgb, tile_color};

verus! {

/// Thickness of the grid lines.
pub const GRID_LINE_WIDTH: u32 = 1;

/// One drawing primitive.
#[derive(Debug, Clone, Copy, PartialEq, Eq, Structural)]
pub enum Shape {
    /// A solid rectangle.
    Fill { rect: FracRect, color: Rgb },
    /// A straight line `GRID_LINE_WIDTH` thick.
    Line { from: FracPos, to: FracPos, color: Rgb },
}

/// Colour of the whole viewport behind the grid.
pub open spec fn background_color() -> Rgb {
    Rgb { r: 16, g: 18, b: 22 }
}

/// Colour of the grid lines.
pub open spec fn grid_line_color() -> Rgb {
    Rgb { r: 40, g: 44, b: 52 }
}

/// One filled rectangle per cell, in row-major order.
pub open spec fn tile_fills(g: GridView, l: CellLayout) -> Seq<Shape> {
    Seq::new(
        g.rows * g.cols,
        |i: int|
            Shape::Fill {
                rect: cell_rect_in(l, i / (g.cols as int), i % (g.cols as int)),
                color: tile_color(g.cells[i]),
            },
    )
}

/// The `rows + 1` horizontal grid lines, top to bottom, each spanning the
/// grid's width.
pub open spec fn row_lines(rows: nat, cols: nat, l: CellLayout) -> Seq<Shape> {
    Seq::new(
        rows + 1,
        |r: int|
            {
                let y = l.origin_y + r * l.side;
                Shape::Line {
                    from: frac_pos(l.origin_x as int, y, l.unit as int),
                    to: frac_pos(l.origin_x + cols * l.side, y, l.unit as int),
                    color: grid_line_color(),
                }
            },
    )
}

/// The `cols + 1` vertical grid lines, left to right, each spanning the
/// grid's height.
pub open spec fn col_lines(rows: nat, cols: nat, l: CellLayout) -> Seq<Shape> {
    Seq::new(
        cols + 1,
        |c: int|
            {
                let x = l.origin_x + c * l.side;
                Shape::Line {
                    from: frac_pos(x, l.origin_y as int, l.unit as int),
                    to: frac_pos(x, l.origin_y + rows * l.side, l.unit as int),
                    color: grid_line_color(),
                }
            },
    )
}

/// Everything painted for grid `g` in viewport `v`: the background over the
/// whole viewport, then, when there is a layout, every cell and the grid
/// lines.
pub open spec fn draw_plan(g: GridView, v: Rect) -> Seq<Shape> {
    seq![Shape::Fill { rect: whole(v), color: background_color() }] + match layout_of(g.rows, g.cols, v) {
        None => Seq::empty(),
        Some(l) => tile_fills(g, l) + row_lines(g.rows, g.cols, l) + col_lines(g.rows, g.cols, l),
    }
}

} // verus!
