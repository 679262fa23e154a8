//! Screen geometry: integer points and viewports, exact rational points and
//! rectangles, and the layout of square cells inside a viewport.
use vstd::prelude::*;

verus! {

/// A point in whole screen units (x grows to the right, y downwards).
#[derive(Debug, Clone, Copy, PartialEq, Eq, Structural)]
pub struct Pos {
    pub x: i32,
    pub y: i32,
}

/// An axis-aligned rectangle from its top-left corner `min` to its
/// bottom-right corner `max`, in whole screen units.
#[derive(Debug, Clone, Copy, PartialEq, Eq, Structural)]
pub struct Rect {
    pub min: Pos,
    pub max: Pos,
}

/// The exact point `(x / den, y / den)`.
#[derive(Debug, Clone, Copy, PartialEq, Eq, Structural)]
pub struct FracPos {
    pub x: i128,
    pub y: i128,
    pub den: i128,
}

/// An axis-aligned rectangle with exact corners.
#[derive(Debug, Clone, Copy, PartialEq, Eq, Structural)]
pub struct FracRect {
    pub min: FracPos,
    pub max: FracPos,
}

/// Where the grid's cells lie in a viewport, every length measured in
/// `1 / unit` of a screen unit: each (square) cell is `side / unit` wide, and
/// the grid's top-left corner is `(origin_x / unit, origin_y / unit)`.
#[derive(Debug, Clone, Copy, PartialEq, Eq, Structural)]
pub struct CellLayout {
    pub side: i128,
    pub origin_x: i128,
    pub origin_y: i128,
    pub unit: i128,
}

pub open spec fn frac_pos(x: int, y: int, den: int) -> FracPos {
    FracPos { x: x as i128, y: y as i128, den: den as i128 }
}

/// The viewport itself as an exact rectangle.
pub open spec fn whole(v: Rect) -> FracRect {
    FracRect { min: frac_pos(v.min.x as int, v.min.y as int, 1), max: frac_pos(v.max.x as int, v.max.y as int, 1) }
}

impl Rect {
    pub open spec fn width_spec(self) -> int {
        self.max.x - self.min.x
    }

    pub open spec fn height_spec(self) -> int {
        self.max.y - self.min.y
    }

    pub fn new(min: Pos, max: Pos) -> (r: Rect)
        ensures
            r == (Rect { min, max }),
    {
        Rect { min, max }
    }

    pub fn width(&self) -> (w: i64)
        ensures
            w == self.width_spec(),
    {
        self.max.x as i64 - self.min.x as i64
    }

    pub fn height(&self) -> (h: i64)
        ensures
            h == self.height_spec(),
    {
        self.max.y as i64 - self.min.y as i64
    }
}

/// The layout of a `rows` by `cols` grid in `v`. The cell side is
/// `min(w / cols, h / rows)` for the viewport's width `w` and height `h`,
/// the largest with which the whole grid fits; it is written `num / den`,
/// with `den` the columns when the width limits it and the rows otherwise.
/// The grid is centred: its top-left corner is the viewport's plus half of
/// what the grid leaves free on each axis. `None` for an empty grid or when
/// that side is not positive.
pub open spec fn layout_of(rows: nat, cols: nat, v: Rect) -> Option<CellLayout> {
    if rows == 0 || cols == 0 || side_num(rows, cols, v) <= 0 {
        None
    } else {
        Some(
            CellLayout {
                side: (2 * side_num(rows, cols, v)) as i128,
                origin_x: origin_x_num(rows, cols, v) as i128,
                origin_y: origin_y_num(rows, cols, v) as i128,
                unit: (2 * side_den(rows, cols, v)) as i128,
            },
        )
    }
}

/// Whether the width limits the cell side: `w / cols <= h / rows`.
pub open spec fn width_limits(rows: nat, cols: nat, v: Rect) -> bool {
    v.width_spec() * rows <= v.height_spec() * cols
}

/// Numerator of the cell side `min(w / cols, h / rows)`.
pub open spec fn side_num(rows: nat, cols: nat, v: Rect) -> int {
    if width_limits(rows, cols, v) {
        v.width_spec()
    } else {
        v.height_spec()
    }
}

/// Denominator of the cell side `min(w / cols, h / rows)`.
pub open spec fn side_den(rows: nat, cols: nat, v: Rect) -> int {
    if width_limits(rows, cols, v) {
        cols as int
    } else {
        rows as int
    }
}

/// `2 * side_den` times the grid's left edge
/// `v.min.x + (w - cols * side) / 2`.
pub open spec fn origin_x_num(rows: nat, cols: nat, v: Rect) -> int {
    let den = side_den(rows, cols, v);
    2 * den * v.min.x + den * v.width_spec() - cols * side_num(rows, cols, v)
}

/// `2 * side_den` times the grid's top edge
/// `v.min.y + (h - rows * side) / 2`.
pub open spec fn origin_y_num(rows: nat, cols: nat, v: Rect) -> int {
    let den = side_den(rows, cols, v);
    2 * den * v.min.y + den * v.height_spec() - rows * side_num(rows, cols, v)
}

/// The rectangle of cell `(row, col)` under layout `l`.
pub open spec fn cell_rect_in(l: CellLayout, row: int, col: int) -> FracRect {
    let x = l.origin_x + col * l.side;
    let y = l.origin_y + row * l.side;
    FracRect { min: frac_pos(x, y, l.unit as int), max: frac_pos(x + l.side, y + l.side, l.unit as int) }
}

/// The rectangle of cell `(row, col)` of a `rows` by `cols` grid laid out in
/// `v`; `None` for an out-of-range address or when there is no layout.
pub open spec fn cell_rect_of(rows: nat, cols: nat, v: Rect, row: int, col: int) -> Option<FracRect> {
    match layout_of(rows, cols, v) {
        Some(l) if 0 <= row < rows && 0 <= col < cols => Some(cell_rect_in(l, row, col)),
        _ => None,
    }
}

/// The cell of a `rows` by `cols` grid laid out in `v` that contains the
/// point `(px / pd, py / pd)`: with `local` the point's offset from the grid's
/// corner, column `floor(local.x / side)` and row `floor(local.y / side)`, so
/// that each cell owns its top and left edges. `None` when the point lies
/// outside the grid, when there is no layout, or when `pd` is not positive.
pub open spec fn cell_at(rows: nat, cols: nat, v: Rect, px: int, py: int, pd: int) -> Option<(usize, usize)> {
    if pd <= 0 {
        None
    } else {
        match layout_of(rows, cols, v) {
            None => None,
            Some(l) => {
                // local offsets, measured in 1 / (unit * pd)
                let lx = px * l.unit - l.origin_x * pd;
                let ly = py * l.unit - l.origin_y * pd;
                if lx < 0 || ly < 0 {
                    None
                } else {
                    let c = lx / (l.side * pd);
                    let r = ly / (l.side * pd);
                    if r < rows && c < cols {
                        Some((r as usize, c as usize))
                    } else {
                        None
                    }
                }
            },
        }
    }
}

pub proof fn lemma_mul_within(a: int, b: int, ma: int, mb: int)
    requires
        -ma <= a <= ma,
        -mb <= b <= mb,
    ensures
        -(ma * mb) <= a * b <= ma * mb,
{
    assert(-(ma * mb) <= a * b <= ma * mb) by (nonlinear_arith)
        requires
            -ma <= a <= ma,
            -mb <= b <= mb,
    ;
}

/// The layout is the exact one: there is none just when the grid or the
/// viewport is empty; otherwise the cell side is `min(w / cols, h / rows)`
/// (the grid fits on both axes and fills one of them), and the free space
/// left and right of the grid is equal, as is that above and below it.
pub proof fn lemma_layout_exact(rows: nat, cols: nat, v: Rect)
    requires
        rows <= usize::MAX,
        cols <= usize::MAX,
    ensures
        layout_of(rows, cols, v) is None <==> (rows == 0 || cols == 0 || v.width_spec() <= 0
            || v.height_spec() <= 0),
        layout_of(rows, cols, v) matches Some(l) ==> {
            let w = v.width_spec();
            let h = v.height_spec();
            &&& l.unit > 0
            &&& l.side > 0
            &&& cols * l.side <= w * l.unit
            &&& rows * l.side <= h * l.unit
            &&& (cols * l.side == w * l.unit || rows * l.side == h * l.unit)
            &&& l.origin_x - v.min.x * l.unit == v.max.x * l.unit - (l.origin_x + cols * l.side)
            &&& l.origin_y - v.min.y * l.unit == v.max.y * l.unit - (l.origin_y + rows * l.side)
            &&& v.min.x * l.unit <= l.origin_x
            &&& v.min.y * l.unit <= l.origin_y
        },
{
    if rows > 0 && cols > 0 {
        let w = v.width_spec();
        let h = v.height_spec();
        let r = rows as int;
        let c = cols as int;
        let mx = v.min.x as int;
        let my = v.min.y as int;
        lemma_layout_ranges(rows, cols, v);
        if w * r <= h * c {
            assert((w <= 0 || h <= 0) ==> w <= 0) by (nonlinear_arith)
                requires
                    w * r <= h * c,
                    r > 0,
                    c > 0,
            ;
            if w > 0 {
                let l = layout_of(rows, cols, v)->0;
                assert(l.side == 2 * w && l.unit == 2 * c && l.origin_x == 2 * c * mx + c * w - c * w
                    && l.origin_y == 2 * c * my + c * h - r * w);
                assert(c * (2 * w) == w * (2 * c) && r * (2 * w) <= h * (2 * c) && (2 * c * mx + c * w
                    - c * w) - mx * (2 * c) == (mx + w) * (2 * c) - ((2 * c * mx + c * w - c * w) + c
                    * (2 * w)) && (2 * c * my + c * h - r * w) - my * (2 * c) == (my + h) * (2 * c)
                    - ((2 * c * my + c * h - r * w) + r * (2 * w)) && mx * (2 * c) <= 2 * c * mx + c
                    * w - c * w && my * (2 * c) <= 2 * c * my + c * h - r * w) by (nonlinear_arith)
                    requires
                        w * r <= h * c,
                        w > 0,
                        r > 0,
                        c > 0,
                ;
            }
        } else {
            assert((w <= 0 || h <= 0) ==> h <= 0) by (nonlinear_arith)
                requires
                    h * c < w * r,
                    r > 0,
                    c > 0,
            ;
            if h > 0 {
                let l = layout_of(rows, cols, v)->0;
                assert(l.side == 2 * h && l.unit == 2 * r && l.origin_x == 2 * r * mx + r * w - c * h
                    && l.origin_y == 2 * r * my + r * h - r * h);
                assert(c * (2 * h) <= w * (2 * r) && r * (2 * h) == h * (2 * r) && (2 * r * mx + r * w
                    - c * h) - mx * (2 * r) == (mx + w) * (2 * r) - ((2 * r * mx + r * w - c * h) + c
                    * (2 * h)) && (2 * r * my + r * h - r * h) - my * (2 * r) == (my + h) * (2 * r)
                    - ((2 * r * my + r * h - r * h) + r * (2 * h)) && mx * (2 * r) <= 2 * r * mx + r
                    * w - c * h && my * (2 * r) <= 2 * r * my + r * h - r * h) by (nonlinear_arith)
                    requires
                        h * c < w * r,
                        h > 0,
                        r > 0,
                        c > 0,
                ;
            }
        }
    }
}

/// The numbers `layout_of` forms stay well inside `i128`.
pub proof fn lemma_layout_ranges(rows: nat, cols: nat, v: Rect)
    requires
        rows <= usize::MAX,
        cols <= usize::MAX,
    ensures
        -0x1_0000_0000_0000_0000_0000_0000 <= v.width_spec() * rows <= 0x1_0000_0000_0000_0000_0000_0000,
        -0x1_0000_0000_0000_0000_0000_0000 <= v.height_spec() * cols <= 0x1_0000_0000_0000_0000_0000_0000,
        -0x2_0000_0000 <= side_num(rows, cols, v) <= 0x2_0000_0000,
        0 <= side_den(rows, cols, v) <= 0x1_0000_0000_0000_0000,
        -0x2_0000_0000_0000_0000_0000_0000 <= 2 * side_den(rows, cols, v) * v.min.x <= 0x2_0000_0000_0000_0000_0000_0000,
        -0x2_0000_0000_0000_0000_0000_0000 <= 2 * side_den(rows, cols, v) * v.min.y <= 0x2_0000_0000_0000_0000_0000_0000,
        -0x2_0000_0000_0000_0000_0000_0000 <= side_den(rows, cols, v) * v.width_spec() <= 0x2_0000_0000_0000_0000_0000_0000,
        -0x2_0000_0000_0000_0000_0000_0000 <= side_den(rows, cols, v) * v.height_spec() <= 0x2_0000_0000_0000_0000_0000_0000,
        -0x2_0000_0000_0000_0000_0000_0000 <= cols * side_num(rows, cols, v) <= 0x2_0000_0000_0000_0000_0000_0000,
        -0x2_0000_0000_0000_0000_0000_0000 <= rows * side_num(rows, cols, v) <= 0x2_0000_0000_0000_0000_0000_0000,
        -0x8_0000_0000_0000_0000_0000_0000 <= origin_x_num(rows, cols, v) <= 0x8_0000_0000_0000_0000_0000_0000,
        -0x8_0000_0000_0000_0000_0000_0000 <= origin_y_num(rows, cols, v) <= 0x8_0000_0000_0000_0000_0000_0000,
        layout_of(rows, cols, v) matches Some(l) ==> {
            &&& l.side == 2 * side_num(rows, cols, v)
            &&& l.unit == 2 * side_den(rows, cols, v)
            &&& l.origin_x == origin_x_num(rows, cols, v)
            &&& l.origin_y == origin_y_num(rows, cols, v)
            &&& 0 < l.side <= 0x4_0000_0000
            &&& 0 < l.unit <= 0x2_0000_0000_0000_0000
            &&& -0x8_0000_0000_0000_0000_0000_0000 <= l.origin_x <= 0x8_0000_0000_0000_0000_0000_0000
            &&& -0x8_0000_0000_0000_0000_0000_0000 <= l.origin_y <= 0x8_0000_0000_0000_0000_0000_0000
        },
{
    let w = v.width_spec();
    let h = v.height_spec();
    let b64: int = 0x1_0000_0000_0000_0000;
    let b33: int = 0x2_0000_0000;
    let b32: int = 0x1_0000_0000;
    assert(usize::MAX < b64);
    lemma_mul_within(w, rows as int, b32, b64);
    lemma_mul_within(h, cols as int, b32, b64);
    let num = side_num(rows, cols, v);
    let den = side_den(rows, cols, v);
    lemma_mul_within(2 * den, v.min.x as int, 2 * b64, b32);
    lemma_mul_within(2 * den, v.min.y as int, 2 * b64, b32);
    lemma_mul_within(den, w, b64, b32);
    lemma_mul_within(den, h, b64, b32);
    lemma_mul_within(cols as int, num, b64, b32);
    lemma_mul_within(rows as int, num, b64, b32);
}

} // verus!
