//! The grid: a dense row-major store of cells with bounds-checked access, and
//! the geometry that places it in a viewport.
use vstd::prelude::*;
use crate::geometry::{
    CellLayout, FracPos, FracRect, Pos, Rect, cell_at, cell_rect_of, layout_of,
    lemma_layout_ranges, lemma_mul_within, whole,
};
use crate::render::{
    Shape, background_color, col_lines, draw_plan, row_lines, tile_fills,
};
use crate::tile::{Rgb, Tile, default_tile, tile_color};
use vstd::arithmetic::div_mod::lemma_fundamental_div_mod_converse;

verus! {

/// One position of the grid.
#[derive(Debug, Clone, Copy)]
pub struct Cell {
    tile: Tile,
}

impl View for Cell {
    type V = Tile;

    closed spec fn view(&self) -> Tile {
        self.tile
    }
}

impl Default for Cell {
    fn default() -> (c: Cell)
        ensures
            c@ == default_tile(),
    {
        Cell { tile: Tile::Ground }
    }
}

impl Cell {
    /// The tile this cell holds.
    pub fn tile(&self) -> (t: Tile)
        ensures
            t == self@,
    {
        self.tile
    }
}

/// What a grid holds: its dimensions and its tiles in row-major order.
pub struct GridView {
    pub rows: nat,
    pub cols: nat,
    pub cells: Seq<Tile>,
}

impl GridView {
    pub open spec fn in_range(self, row: int, col: int) -> bool {
        0 <= row < self.rows && 0 <= col < self.cols
    }

    /// Position of `(row, col)` in the row-major sequence.
    pub open spec fn index(self, row: int, col: int) -> int {
        row * self.cols + col
    }

    pub open spec fn tile_at(self, row: int, col: int) -> Option<Tile> {
        if self.in_range(row, col) {
            Some(self.cells[self.index(row, col)])
        } else {
            None
        }
    }

    /// The grid with the tile at `(row, col)` replaced; unchanged when the
    /// address is out of range.
    pub open spec fn with_tile(self, row: int, col: int, t: Tile) -> GridView {
        if self.in_range(row, col) {
            GridView { cells: self.cells.update(self.index(row, col), t), ..self }
        } else {
            self
        }
    }

    /// The grid with these dimensions and row-major tiles, when they describe
    /// a non-empty grid with one tile per cell.
    pub open spec fn from_parts(rows: nat, cols: nat, tiles: Seq<Tile>) -> Option<GridView> {
        if rows > 0 && cols > 0 && tiles.len() == rows * cols {
            Some(GridView { rows, cols, cells: tiles })
        } else {
            None
        }
    }

    /// A `rows` by `cols` grid of default tiles.
    pub open spec fn fresh(rows: nat, cols: nat) -> GridView {
        GridView { rows, cols, cells: Seq::new(rows * cols, |i: int| default_tile()) }
    }
}

proof fn lemma_index_bounds(rows: int, cols: int, row: int, col: int)
    requires
        0 <= row < rows,
        0 <= col < cols,
    ensures
        0 <= row * cols + col < rows * cols,
{
    assert(0 <= row * cols + col < rows * cols) by (nonlinear_arith)
        requires
            0 <= row < rows,
            0 <= col < cols,
    ;
}

/// The tiles held by a sequence of cells.
pub closed spec fn tiles_of(m: Seq<Cell>) -> Seq<Tile> {
    m.map_values(|x: Cell| x@)
}

proof fn lemma_cells_update(m: Seq<Cell>, i: int)
    requires
        0 <= i < m.len(),
    ensures
        forall|c: Cell| #[trigger] tiles_of(m.update(i, c)) == tiles_of(m).update(i, c@),
{
    assert forall|c: Cell| #[trigger] tiles_of(m.update(i, c)) == tiles_of(m).update(i, c@) by {
        assert(tiles_of(m.update(i, c)) =~= tiles_of(m).update(i, c@));
    }
}

/// A rectangle of `rows` by `cols` cells stored in row-major order.
pub struct Grid {
    rows: usize,
    cols: usize,
    matrix: Vec<Cell>,
}

impl View for Grid {
    type V = GridView;

    closed spec fn view(&self) -> GridView {
        GridView {
            rows: self.rows as nat,
            cols: self.cols as nat,
            cells: tiles_of(self.matrix@),
        }
    }
}

impl Grid {
    /// Holds one cell per address, and the cell count fits in memory.
    pub open spec fn wf(&self) -> bool {
        &&& self@.cells.len() == self@.rows * self@.cols
        &&& self@.rows * self@.cols <= usize::MAX
    }

    /// A grid of `rows` by `cols` cells, each holding the default tile.
    pub fn new(rows: usize, cols: usize) -> (g: Grid)
        requires
            rows * cols <= usize::MAX,
        ensures
            g.wf(),
            g@ == GridView::fresh(rows as nat, cols as nat),
    {
        let n: usize = rows * cols;
        let mut matrix: Vec<Cell> = Vec::with_capacity(n);
        let mut i: usize = 0;
        while i < n
            invariant
                i <= n,
                matrix@.len() == i,
                forall|j: int| 0 <= j < i ==> (#[trigger] matrix@[j])@ == default_tile(),
            decreases n - i,
        {
            matrix.push(Cell::default());
            i = i + 1;
        }
        let g = Grid { rows, cols, matrix };
        assert(g@.cells =~= GridView::fresh(rows as nat, cols as nat).cells);
        g
    }

    pub fn rows(&self) -> (r: usize)
        ensures
            r == self@.rows,
    {
        self.rows
    }

    pub fn cols(&self) -> (c: usize)
        ensures
            c == self@.cols,
    {
        self.cols
    }

    #[inline]
    fn index(&self, row: usize, col: usize) -> (i: usize)
        requires
            self.wf(),
            self@.in_range(row as int, col as int),
        ensures
            i == self@.index(row as int, col as int),
            i < self.matrix@.len(),
    {
        proof {
            lemma_index_bounds(self.rows as int, self.cols as int, row as int, col as int);
        }
        row * self.cols + col
    }

    /// The cell at `(row, col)`, or `None` when the address is out of range.
    pub fn get(&self, row: usize, col: usize) -> (r: Option<&Cell>)
        requires
            self.wf(),
        ensures
            r.is_some() <==> self@.in_range(row as int, col as int),
            r matches Some(c) ==> Some(c@) == self@.tile_at(row as int, col as int),
    {
        if row < self.rows && col < self.cols {
            Some(&self.matrix[self.index(row, col)])
        } else {
            None
        }
    }

    /// Mutable access to the cell at `(row, col)`, or `None` when the address
    /// is out of range (the grid is then left as it was).
    pub fn get_mut(&mut self, row: usize, col: usize) -> (r: Option<&mut Cell>)
        requires
            old(self).wf(),
        ensures
            r.is_some() <==> old(self)@.in_range(row as int, col as int),
            r matches Some(c) ==> {
                &&& Some(c@) == old(self)@.tile_at(row as int, col as int)
                &&& final(self)@ == old(self)@.with_tile(row as int, col as int, final(c)@)
            },
            r is None ==> *final(self) == *old(self),
    {
        if row < self.rows && col < self.cols {
            let i = self.index(row, col);
            proof {
                lemma_cells_update(self.matrix@, i as int);
            }
            Some(&mut self.matrix[i])
        } else {
            None
        }
    }

    /// Paints `tile` into cell `(row, col)`; an out-of-range address leaves
    /// the grid unchanged.
    pub fn set_tile(&mut self, row: usize, col: usize, tile: Tile)
        requires
            old(self).wf(),
        ensures
            final(self).wf(),
            final(self)@ == old(self)@.with_tile(row as int, col as int, tile),
    {
        if row < self.rows && col < self.cols {
            let i = self.index(row, col);
            proof {
                lemma_cells_update(self.matrix@, i as int);
            }
            self.matrix.set(i, Cell { tile });
        }
    }

    /// The tile at `(row, col)`, or `None` when the address is out of range.
    pub fn tile(&self, row: usize, col: usize) -> (t: Option<Tile>)
        requires
            self.wf(),
        ensures
            t == self@.tile_at(row as int, col as int),
    {
        match self.get(row, col) {
            Some(cell) => Some(cell.tile),
            None => None,
        }
    }

    /// Cell side and grid origin for the viewport `view`; the single source
    /// of geometry for hit-testing and rendering.
    pub fn layout(&self, view: Rect) -> (l: Option<CellLayout>)
        ensures
            l == layout_of(self@.rows, self@.cols, view),
    {
        if self.rows == 0 || self.cols == 0 {
            return None;
        }
        proof {
            lemma_layout_ranges(self@.rows, self@.cols, view);
        }
        let w: i128 = view.width() as i128;
        let h: i128 = view.height() as i128;
        let r: i128 = self.rows as i128;
        let c: i128 = self.cols as i128;
        let across: bool = w * r <= h * c;
        let num: i128 = if across { w } else { h };
        let den: i128 = if across { c } else { r };
        if num <= 0 {
            return None;
        }
        let unit: i128 = 2 * den;
        let ox: i128 = unit * (view.min.x as i128) + den * w - c * num;
        let oy: i128 = unit * (view.min.y as i128) + den * h - r * num;
        Some(CellLayout { side: 2 * num, origin_x: ox, origin_y: oy, unit })
    }

    /// The exact on-screen rectangle of cell `(row, col)` in the viewport
    /// `view`; `None` for an out-of-range address or when there is no layout.
    pub fn cell_rect(&self, view: Rect, row: usize, col: usize) -> (r: Option<FracRect>)
        requires
            self.wf(),
        ensures
            r == cell_rect_of(self@.rows, self@.cols, view, row as int, col as int),
    {
        if row >= self.rows || col >= self.cols {
            return None;
        }
        let l = match self.layout(view) {
            Some(l) => l,
            None => return None,
        };
        proof {
            lemma_layout_ranges(self@.rows, self@.cols, view);
        }
        let (x, y) = cell_corner(l, row, col);
        Some(
            FracRect {
                min: FracPos { x, y, den: l.unit },
                max: FracPos { x: x + l.side, y: y + l.side, den: l.unit },
            },
        )
    }

    /// The cell under the pointer position `p` in the viewport `view`, or
    /// `None` when `p` lies outside the grid or there is no layout.
    pub fn pos_to_cell(&self, view: Rect, p: Pos) -> (r: Option<(usize, usize)>)
        ensures
            r == cell_at(self@.rows, self@.cols, view, p.x as int, p.y as int, 1),
    {
        let l = match self.layout(view) {
            Some(l) => l,
            None => return None,
        };
        proof {
            lemma_layout_ranges(self@.rows, self@.cols, view);
            lemma_mul_within(p.x as int, l.unit as int, 0x8000_0000, 0x4_0000_0000_0000_0000);
            lemma_mul_within(p.y as int, l.unit as int, 0x8000_0000, 0x4_0000_0000_0000_0000);
        }
        let lx: i128 = p.x as i128 * l.unit - l.origin_x;
        let ly: i128 = p.y as i128 * l.unit - l.origin_y;
        if lx < 0 || ly < 0 {
            return None;
        }
        let c: u128 = lx as u128 / l.side as u128;
        let r: u128 = ly as u128 / l.side as u128;
        if r < self.rows as u128 && c < self.cols as u128 {
            Some((r as usize, c as usize))
        } else {
            None
        }
    }
}

/// The top-left corner of cell `(row, col)` under a layout of the grid, in
/// `1 / l.unit` of a screen unit.
fn cell_corner(l: CellLayout, row: usize, col: usize) -> (xy: (i128, i128))
    requires
        0 < l.side <= 0x4_0000_0000,
        -0x8_0000_0000_0000_0000_0000_0000 <= l.origin_x <= 0x8_0000_0000_0000_0000_0000_0000,
        -0x8_0000_0000_0000_0000_0000_0000 <= l.origin_y <= 0x8_0000_0000_0000_0000_0000_0000,
    ensures
        xy.0 == l.origin_x + col * l.side,
        xy.1 == l.origin_y + row * l.side,
        -0x10_0000_0000_0000_0000_0000_0000 <= xy.0 <= 0x10_0000_0000_0000_0000_0000_0000,
        -0x10_0000_0000_0000_0000_0000_0000 <= xy.1 <= 0x10_0000_0000_0000_0000_0000_0000,
{
    proof {
        assert(usize::MAX < 0x1_0000_0000_0000_0000);
        lemma_mul_within(col as int, l.side as int, 0x1_0000_0000_0000_0000, 0x4_0000_0000);
        lemma_mul_within(row as int, l.side as int, 0x1_0000_0000_0000_0000, 0x4_0000_0000);
    }
    (l.origin_x + col as i128 * l.side, l.origin_y + row as i128 * l.side)
}

impl Grid {
    /// The tiles of every cell in row-major order, for saving.
    pub fn to_tiles(&self) -> (tiles: Vec<Tile>)
        requires
            self.wf(),
        ensures
            tiles@ == self@.cells,
    {
        let mut tiles: Vec<Tile> = Vec::new();
        let mut i: usize = 0;
        while i < self.matrix.len()
            invariant
                i <= self.matrix@.len(),
                tiles@ =~= self@.cells.take(i as int),
                self@.cells.len() == self.matrix@.len(),
            decreases self.matrix@.len() - i,
        {
            tiles.push(self.matrix[i].tile);
            proof {
                assert(self@.cells.take(i + 1) =~= self@.cells.take(i as int).push(
                    self@.cells[i as int],
                ));
            }
            i = i + 1;
        }
        proof {
            assert(self@.cells.take(self@.cells.len() as int) =~= self@.cells);
        }
        tiles
    }

    /// Rebuilds a saved grid from its dimensions and row-major tiles; `None`
    /// when either dimension is zero or the tile count is not `rows * cols`.
    pub fn from_tiles(rows: usize, cols: usize, tiles: Vec<Tile>) -> (r: Option<Grid>)
        ensures
            r is Some <==> GridView::from_parts(rows as nat, cols as nat, tiles@) is Some,
            r matches Some(g) ==> g.wf() && Some(g@) == GridView::from_parts(
                rows as nat,
                cols as nat,
                tiles@,
            ),
    {
        if rows == 0 || cols == 0 {
            return None;
        }
        let len: usize = tiles.len();
        match rows.checked_mul(cols) {
            None => None,
            Some(n) => {
                if len != n {
                    return None;
                }
                let mut matrix: Vec<Cell> = Vec::with_capacity(n);
                let mut i: usize = 0;
                while i < n
                    invariant
                        i <= n,
                        n == tiles@.len(),
                        tiles_of(matrix@) =~= tiles@.take(i as int),
                    decreases n - i,
                {
                    let ghost before = matrix@;
                    matrix.push(Cell { tile: tiles[i] });
                    proof {
                        assert(tiles_of(matrix@) =~= tiles_of(before).push(tiles@[i as int]));
                        assert(tiles@.take(i + 1) =~= tiles@.take(i as int).push(tiles@[i as int]));
                    }
                    i = i + 1;
                }
                proof {
                    assert(tiles@.take(n as int) =~= tiles@);
                }
                Some(Grid { rows, cols, matrix })
            },
        }
    }

    /// The shapes that paint this grid into the viewport `view`, in order:
    /// the background over the whole viewport, then (when there is a layout)
    /// every cell in row-major order filled with its tile's colour, the
    /// horizontal grid lines top to bottom and the vertical ones left to right.
    pub fn draw(&self, view: Rect) -> (shapes: Vec<Shape>)
        requires
            self.wf(),
        ensures
            shapes@ == draw_plan(self@, view),
    {
        let mut out: Vec<Shape> = Vec::new();
        let background = FracRect {
            min: FracPos { x: view.min.x as i128, y: view.min.y as i128, den: 1 },
            max: FracPos { x: view.max.x as i128, y: view.max.y as i128, den: 1 },
        };
        out.push(Shape::Fill { rect: background, color: Rgb::new(16, 18, 22) });
        let l = match self.layout(view) {
            Some(l) => l,
            None => {
                assert(out@ =~= draw_plan(self@, view));
                return out;
            },
        };
        proof {
            lemma_layout_ranges(self@.rows, self@.cols, view);
        }
        let ghost head = out@;
        let ghost fills = tile_fills(self@, l);
        let rows = self.rows;
        let cols = self.cols;
        let mut row: usize = 0;
        while row < rows
            invariant
                self.wf(),
                rows == self@.rows,
                cols == self@.cols,
                cols > 0,
                l == layout_of(self@.rows, self@.cols, view)->0,
                0 < l.side <= 0x4_0000_0000,
                -0x8_0000_0000_0000_0000_0000_0000 <= l.origin_x <= 0x8_0000_0000_0000_0000_0000_0000,
                -0x8_0000_0000_0000_0000_0000_0000 <= l.origin_y <= 0x8_0000_0000_0000_0000_0000_0000,
                row <= rows,
                out@ =~= head + fills.take(row * cols),
                fills == tile_fills(self@, l),
            decreases rows - row,
        {
            let mut col: usize = 0;
            while col < cols
                invariant
                    self.wf(),
                    rows == self@.rows,
                    cols == self@.cols,
                    0 < l.side <= 0x4_0000_0000,
                    -0x8_0000_0000_0000_0000_0000_0000 <= l.origin_x <= 0x8_0000_0000_0000_0000_0000_0000,
                    -0x8_0000_0000_0000_0000_0000_0000 <= l.origin_y <= 0x8_0000_0000_0000_0000_0000_0000,
                    row < rows,
                    col <= cols,
                    out@ =~= head + fills.take(row * cols + col),
                    fills == tile_fills(self@, l),
                decreases cols - col,
            {
                let i = self.index(row, col);
                proof {
                    lemma_fundamental_div_mod_converse(i as int, cols as int, row as int, col as int);
                    lemma_index_bounds(rows as int, cols as int, row as int, col as int);
                }
                let (x, y) = cell_corner(l, row, col);
                let rect = FracRect {
                    min: FracPos { x, y, den: l.unit },
                    max: FracPos { x: x + l.side, y: y + l.side, den: l.unit },
                };
                out.push(Shape::Fill { rect, color: self.matrix[i].tile.color() });
                proof {
                    assert(fills[i as int] == Shape::Fill { rect, color: tile_color(self@.cells[i as int]) });
                    assert(fills.take(i + 1) =~= fills.take(i as int).push(fills[i as int]));
                }
                col = col + 1;
            }
            proof {
                assert(row * cols + cols == (row + 1) * cols) by (nonlinear_arith);
            }
            row = row + 1;
        }
        proof {
            assert(fills.take(rows * cols) =~= fills);
        }
        let ghost with_fills = out@;
        let ghost hl = row_lines(self@.rows, self@.cols, l);
        let mut r: usize = 0;
        loop
            invariant_except_break
                out@ =~= with_fills + hl.take(r as int),
            invariant
                r <= rows,
                hl == row_lines(self@.rows, self@.cols, l),
                rows == self@.rows,
                cols == self@.cols,
                0 < l.side <= 0x4_0000_0000,
                -0x8_0000_0000_0000_0000_0000_0000 <= l.origin_x <= 0x8_0000_0000_0000_0000_0000_0000,
                -0x8_0000_0000_0000_0000_0000_0000 <= l.origin_y <= 0x8_0000_0000_0000_0000_0000_0000,
            ensures
                out@ =~= with_fills + hl,
            decreases rows - r,
        {
            let (x0, y) = cell_corner(l, r, 0);
            let (x1, _) = cell_corner(l, r, cols);
            out.push(
                Shape::Line {
                    from: FracPos { x: x0, y, den: l.unit },
                    to: FracPos { x: x1, y, den: l.unit },
                    color: Rgb::new(40, 44, 52),
                },
            );
            proof {
                assert(hl.take(r + 1) =~= hl.take(r as int).push(hl[r as int]));
            }
            if r == rows {
                assert(hl.take(rows + 1) =~= hl);
                break;
            }
            r = r + 1;
        }
        let ghost with_rows = out@;
        let ghost vl = col_lines(self@.rows, self@.cols, l);
        let mut c: usize = 0;
        loop
            invariant_except_break
                out@ =~= with_rows + vl.take(c as int),
            invariant
                c <= cols,
                vl == col_lines(self@.rows, self@.cols, l),
                rows == self@.rows,
                cols == self@.cols,
                0 < l.side <= 0x4_0000_0000,
                -0x8_0000_0000_0000_0000_0000_0000 <= l.origin_x <= 0x8_0000_0000_0000_0000_0000_0000,
                -0x8_0000_0000_0000_0000_0000_0000 <= l.origin_y <= 0x8_0000_0000_0000_0000_0000_0000,
            ensures
                out@ =~= with_rows + vl,
            decreases cols - c,
        {
            let (x, y0) = cell_corner(l, 0, c);
            let (_, y1) = cell_corner(l, rows, c);
            out.push(
                Shape::Line {
                    from: FracPos { x, y: y0, den: l.unit },
                    to: FracPos { x, y: y1, den: l.unit },
                    color: Rgb::new(40, 44, 52),
                },
            );
            proof {
                assert(vl.take(c + 1) =~= vl.take(c as int).push(vl[c as int]));
            }
            if c == cols {
                assert(vl.take(cols + 1) =~= vl);
                break;
            }
            c = c + 1;
        }
        assert(out@ =~= draw_plan(self@, view));
        out
    }
}

/// For every in-range cell, the exact centre of its rectangle maps back to
/// that cell; the rectangle exists whenever the grid has a layout in the
/// viewport.
pub proof fn lemma_center_round_trip(g: Grid, view: Rect, row: usize, col: usize)
    requires
        g.wf(),
        g@.in_range(row as int, col as int),
    ensures
        layout_of(g@.rows, g@.cols, view) is Some ==> cell_rect_of(
            g@.rows,
            g@.cols,
            view,
            row as int,
            col as int,
        ) is Some,
        cell_rect_of(g@.rows, g@.cols, view, row as int, col as int) matches Some(rc) ==> cell_at(
            g@.rows,
            g@.cols,
            view,
            rc.min.x + rc.max.x,
            rc.min.y + rc.max.y,
            2 * rc.min.den,
        ) == Some((row, col)),
{
    if let Some(l) = layout_of(g@.rows, g@.cols, view) {
        lemma_layout_ranges(g@.rows, g@.cols, view);
        assert(usize::MAX < 0x1_0000_0000_0000_0000);
        lemma_mul_within(col as int, l.side as int, 0x1_0000_0000_0000_0000, 0x4_0000_0000);
        lemma_mul_within(row as int, l.side as int, 0x1_0000_0000_0000_0000, 0x4_0000_0000);
        let s = l.side as int;
        let u = l.unit as int;
        let k = s * u;
        assert(k > 0) by (nonlinear_arith)
            requires
                s > 0,
                u > 0,
                k == s * u,
        ;
        let ox = l.origin_x as int;
        let oy = l.origin_y as int;
        // the centre is (2 * corner + side) / (2 * unit)
        assert((2 * (ox + col * s) + s) * u - ox * (2 * u) == col * (2 * k) + k) by (nonlinear_arith)
            requires
                k == s * u,
        ;
        assert((2 * (oy + row * s) + s) * u - oy * (2 * u) == row * (2 * k) + k) by (nonlinear_arith)
            requires
                k == s * u,
        ;
        assert(s * (2 * u) == 2 * k) by (nonlinear_arith)
            requires
                k == s * u,
        ;
        lemma_fundamental_div_mod_converse(col * (2 * k) + k, 2 * k, col as int, k);
        lemma_fundamental_div_mod_converse(row * (2 * k) + k, 2 * k, row as int, k);
    }
}

/// Out-of-range addresses give no tile and no rectangle, and painting at
/// one changes nothing.
pub proof fn lemma_out_of_range(g: Grid, view: Rect, row: int, col: int, t: Tile)
    requires
        g.wf(),
        !g@.in_range(row, col),
    ensures
        g@.tile_at(row, col) is None,
        cell_rect_of(g@.rows, g@.cols, view, row, col) is None,
        g@.with_tile(row, col, t) == g@,
{
}

/// The shapes painted are fixed by the grid's contents and the viewport:
/// drawing an unchanged grid into the same viewport again paints the same.
pub proof fn lemma_draw_repeatable(g1: Grid, g2: Grid, view: Rect)
    requires
        g1@ == g2@,
    ensures
        draw_plan(g1@, view) == draw_plan(g2@, view),
{
}

/// A grid without rows or without columns has no layout: drawing it paints
/// only the background, and no position or address maps to a cell.
pub proof fn lemma_empty_grid(g: Grid, view: Rect, px: int, py: int, pd: int, row: int, col: int)
    requires
        g.wf(),
        g@.rows == 0 || g@.cols == 0,
    ensures
        layout_of(g@.rows, g@.cols, view) is None,
        draw_plan(g@, view) == seq![Shape::Fill { rect: whole(view), color: background_color() }],
        cell_at(g@.rows, g@.cols, view, px, py, pd) is None,
        cell_rect_of(g@.rows, g@.cols, view, row, col) is None,
{
    assert(draw_plan(g@, view) =~= seq![Shape::Fill { rect: whole(view), color: background_color() }]);
}

/// A newly built grid holds the default tile at every address, whatever grid
/// it replaces.
pub proof fn lemma_fresh_grid(rows: nat, cols: nat, row: int, col: int)
    requires
        0 <= row < rows,
        0 <= col < cols,
    ensures
        GridView::fresh(rows, cols).tile_at(row, col) == Some(default_tile()),
{
    lemma_index_bounds(rows as int, cols as int, row, col);
}

/// Saving a grid as its dimensions and row-major tiles and rebuilding it from
/// them gives back the same grid.
pub proof fn lemma_parts_round_trip(g: Grid)
    requires
        g.wf(),
        g@.rows > 0,
        g@.cols > 0,
    ensures
        GridView::from_parts(g@.rows, g@.cols, g@.cells) == Some(g@),
{
}

} // verus!
