//! The editor's state: the grid being painted and the brush painting it, and
//! what a pointer press over the canvas does to them.
use vstd::prelude::*;
use crate::geometry::{Pos, Rect, cell_at};
use crate::grid::{Grid, GridView};
use crate::tile::Tile;

verus! {

/// Rows of the grid the editor starts with when nothing usable was saved.
pub const DEFAULT_ROWS: usize = 100;

/// Columns of the grid the editor starts with when nothing usable was saved.
pub const DEFAULT_COLS: usize = 100;

/// What a pointer press does to the cell under it.
#[derive(Debug, Clone, Copy, PartialEq, Eq, Structural)]
pub enum Brush {
    /// Paint the cell with this tile.
    Paint(Tile),
}

pub open spec fn default_brush() -> Brush {
    Brush::Paint(Tile::Wall)
}

impl Default for Brush {
    fn default() -> (b: Brush)
        ensures
            b == default_brush(),
    {
        Brush::Paint(Tile::Wall)
    }
}

/// The grid the editor starts with: the saved one when it has cells,
/// otherwise a fresh default-sized grid.
pub open spec fn startup_grid(saved: Option<GridView>) -> GridView {
    match saved {
        Some(g) if g.rows > 0 && g.cols > 0 => g,
        _ => GridView::fresh(DEFAULT_ROWS as nat, DEFAULT_COLS as nat),
    }
}

/// The grid after the pointer presses at `p` over the canvas `view` with
/// `brush`: the cell under the pointer, if any, takes the brush's tile.
pub open spec fn painted(g: GridView, view: Rect, p: Pos, brush: Brush) -> GridView {
    match cell_at(g.rows, g.cols, view, p.x as int, p.y as int, 1) {
        Some((r, c)) => match brush {
            Brush::Paint(t) => g.with_tile(r as int, c as int, t),
        },
        None => g,
    }
}

/// The editor: a grid and the selected brush. Only the grid is saved.
pub struct TemplateApp {
    grid: Grid,
    brush: Brush,
}

impl TemplateApp {
    pub closed spec fn grid_view(&self) -> GridView {
        self.grid@
    }

    pub closed spec fn brush_spec(&self) -> Brush {
        self.brush
    }

    pub closed spec fn wf(&self) -> bool {
        self.grid.wf()
    }

    /// Starts the editor from the grid restored from saved state, if any.
    /// A saved grid without rows or columns is replaced by a fresh
    /// `DEFAULT_ROWS` by `DEFAULT_COLS` grid; the brush always starts at its
    /// default.
    pub fn new(saved: Option<Grid>) -> (app: TemplateApp)
        requires
            saved matches Some(g) ==> g.wf(),
        ensures
            app.wf(),
            app.grid_view() == startup_grid(
                match saved {
                    Some(g) => Some(g@),
                    None => None,
                },
            ),
            app.brush_spec() == default_brush(),
    {
        let grid = match saved {
            Some(g) => {
                if g.rows() == 0 || g.cols() == 0 {
                    Grid::new(DEFAULT_ROWS, DEFAULT_COLS)
                } else {
                    g
                }
            },
            None => Grid::new(DEFAULT_ROWS, DEFAULT_COLS),
        };
        TemplateApp { grid, brush: Brush::default() }
    }

    pub fn grid(&self) -> (g: &Grid)
        requires
            self.wf(),
        ensures
            g.wf(),
            g@ == self.grid_view(),
    {
        &self.grid
    }

    pub fn brush(&self) -> (b: Brush)
        ensures
            b == self.brush_spec(),
    {
        self.brush
    }

    pub fn set_brush(&mut self, brush: Brush)
        ensures
            final(self).brush_spec() == brush,
            final(self).grid_view() == old(self).grid_view(),
            final(self).wf() == old(self).wf(),
    {
        self.brush = brush;
    }

    /// A pointer press at `p` over the canvas `view`: paints the cell under
    /// the pointer with the brush, and does nothing when no cell is there.
    pub fn paint_at(&mut self, view: Rect, p: Pos)
        requires
            old(self).wf(),
        ensures
            final(self).wf(),
            final(self).grid_view() == painted(old(self).grid_view(), view, p, old(self).brush_spec()),
            final(self).brush_spec() == old(self).brush_spec(),
    {
        if let Some((row, col)) = self.grid.pos_to_cell(view, p) {
            let Brush::Paint(tile) = self.brush;
            self.grid.set_tile(row, col, tile);
        }
    }
}

/// A saved non-empty grid comes back unchanged when the editor restarts from
/// its dimensions and row-major tiles.
pub proof fn lemma_restart_keeps_grid(g: Grid)
    requires
        g.wf(),
        g@.rows > 0,
        g@.cols > 0,
    ensures
        startup_grid(GridView::from_parts(g@.rows, g@.cols, g@.cells)) == g@,
{
    crate::grid::lemma_parts_round_trip(g);
}

} // verus!
