use tile_editor::editor::{Brush, DEFAULT_COLS, DEFAULT_ROWS};
use tile_editor::geometry::{CellLayout, FracPos, FracRect, Pos, Rect};
use tile_editor::grid::Cell;
use tile_editor::render::Shape;
use tile_editor::tile::{Rgb, Tile};
use tile_editor::{Grid, TemplateApp};

fn p(x: i32, y: i32) -> Pos {
    Pos { x, y }
}

fn rect(x0: i32, y0: i32, x1: i32, y1: i32) -> Rect {
    Rect::new(p(x0, y0), p(x1, y1))
}

fn fp(x: i128, y: i128, den: i128) -> FracPos {
    FracPos { x, y, den }
}

fn frect(x0: i128, y0: i128, x1: i128, y1: i128, den: i128) -> FracRect {
    FracRect { min: fp(x0, y0, den), max: fp(x1, y1, den) }
}

fn layout(side: i128, origin_x: i128, origin_y: i128, unit: i128) -> CellLayout {
    CellLayout { side, origin_x, origin_y, unit }
}

#[test]
fn tile_costs() {
    assert_eq!(Tile::Wall.cost(), None);
    assert_eq!(Tile::Ground.cost(), Some(10));
    assert_eq!(Tile::Water.cost(), Some(30));
    assert_eq!(Tile::Path.cost(), Some(8));
    assert_eq!(Tile::Road.cost(), Some(6));
}

#[test]
fn tile_colors() {
    assert_eq!(Tile::Wall.color(), Rgb::new(80, 86, 96));
    assert_eq!(Tile::Ground.color(), Rgb::new(28, 32, 38));
    assert_eq!(Tile::Water.color(), Rgb::new(45, 85, 150));
    assert_eq!(Tile::Path.color(), Rgb::new(90, 75, 50));
    assert_eq!(Tile::Road.color(), Rgb::new(70, 70, 70));
}

#[test]
fn defaults() {
    assert_eq!(Tile::default(), Tile::Ground);
    assert_eq!(Cell::default().tile(), Tile::Ground);
    assert_eq!(Brush::default(), Brush::Paint(Tile::Wall));
}

#[test]
fn new_grid_is_all_ground() {
    let g = Grid::new(3, 4);
    assert_eq!(g.rows(), 3);
    assert_eq!(g.cols(), 4);
    for r in 0..3 {
        for c in 0..4 {
            assert_eq!(g.tile(r, c), Some(Tile::Ground));
        }
    }
    assert_eq!(g.to_tiles().len(), 12);
}

#[test]
fn set_and_get_in_range() {
    let mut g = Grid::new(3, 4);
    g.set_tile(2, 3, Tile::Water);
    g.set_tile(0, 1, Tile::Road);
    assert_eq!(g.tile(2, 3), Some(Tile::Water));
    assert_eq!(g.get(0, 1).map(|c| c.tile()), Some(Tile::Road));
    assert_eq!(g.tile(1, 1), Some(Tile::Ground));
    let tiles = g.to_tiles();
    assert_eq!(tiles[11], Tile::Water);
    assert_eq!(tiles[1], Tile::Road);
}

#[test]
fn out_of_range_is_no_result() {
    let mut g = Grid::new(3, 4);
    g.set_tile(1, 1, Tile::Path);
    let before = g.to_tiles();
    assert!(g.get(3, 0).is_none());
    assert!(g.get(0, 4).is_none());
    assert!(g.tile(usize::MAX, usize::MAX).is_none());
    assert!(g.get_mut(3, 0).is_none());
    assert!(g.get_mut(0, 4).is_none());
    let view = rect(0, 0, 400, 300);
    assert!(g.cell_rect(view, 3, 0).is_none());
    assert!(g.cell_rect(view, 0, 4).is_none());
    g.set_tile(3, 0, Tile::Wall);
    g.set_tile(0, 4, Tile::Wall);
    g.set_tile(100, 100, Tile::Wall);
    assert_eq!(g.to_tiles(), before);
}

#[test]
fn get_mut_reads_the_cell() {
    let mut g = Grid::new(2, 2);
    g.set_tile(1, 0, Tile::Water);
    assert_eq!(g.get_mut(1, 0).map(|c| c.tile()), Some(Tile::Water));
}

#[test]
fn scenario_wide_viewport() {
    let g = Grid::new(100, 100);
    let view = rect(0, 0, 1000, 500);
    // side 1000/200 = 5, origin (50000/200, 0) = (250, 0)
    assert_eq!(g.layout(view), Some(layout(1000, 50000, 0, 200)));
    assert_eq!(g.pos_to_cell(view, p(252, 3)), Some((0, 0)));
    assert_eq!(g.pos_to_cell(view, p(10, 10)), None);
    assert_eq!(g.pos_to_cell(view, p(249, 10)), None);
    assert_eq!(g.pos_to_cell(view, p(749, 499)), Some((99, 99)));
    assert_eq!(g.pos_to_cell(view, p(750, 10)), None);
    assert_eq!(g.cell_rect(view, 0, 0), Some(frect(50000, 0, 51000, 1000, 200)));
    assert_eq!(g.cell_rect(view, 99, 99), Some(frect(149000, 99000, 150000, 100000, 200)));
}

#[test]
fn side_is_not_rounded() {
    let g = Grid::new(100, 100);
    let view = rect(0, 0, 1001, 501);
    // side 501/100 = 5.01 fills the height; origin x = (1001 - 501) / 2 = 250
    assert_eq!(g.layout(view), Some(layout(1002, 50000, 0, 200)));
    assert_eq!(g.pos_to_cell(view, p(250, 0)), Some((0, 0)));
    assert_eq!(g.pos_to_cell(view, p(255, 0)), Some((0, 0)));
    assert_eq!(g.pos_to_cell(view, p(256, 0)), Some((0, 1)));
    assert_eq!(g.pos_to_cell(view, p(750, 500)), Some((99, 99)));
    assert_eq!(g.pos_to_cell(view, p(751, 500)), None);
}

#[test]
fn cell_edges_belong_to_the_cell_starting_there() {
    let g = Grid::new(4, 4);
    let view = rect(0, 0, 40, 40);
    assert_eq!(g.pos_to_cell(view, p(10, 0)), Some((0, 1)));
    assert_eq!(g.pos_to_cell(view, p(9, 0)), Some((0, 0)));
    assert_eq!(g.pos_to_cell(view, p(39, 39)), Some((3, 3)));
    assert_eq!(g.pos_to_cell(view, p(40, 39)), None);
    assert_eq!(g.pos_to_cell(view, p(-1, 5)), None);
}

#[test]
fn centers_map_back_to_their_cells() {
    let g = Grid::new(7, 5);
    let views = [rect(0, 0, 333, 211), rect(-50, -20, 101, 77), rect(10, 10, 31, 40)];
    for view in views {
        assert!(g.layout(view).is_some());
        for r in 0..7 {
            for c in 0..5 {
                let cr = g.cell_rect(view, r, c).unwrap();
                // cells here are at least two units wide, so the whole unit at
                // or left of the exact centre still lies in the cell
                let den = 2 * cr.min.den;
                let x = (cr.min.x + cr.max.x).div_euclid(den) as i32;
                let y = (cr.min.y + cr.max.y).div_euclid(den) as i32;
                assert_eq!(g.pos_to_cell(view, p(x, y)), Some((r, c)));
            }
        }
    }
}

#[test]
fn layout_centres_grid() {
    let g = Grid::new(2, 3);
    let view = rect(10, 20, 110, 70);
    // side 100/4 = 25; origin (90/4, 80/4) = (22.5, 20): 12.5 free on each side
    assert_eq!(g.layout(view), Some(layout(100, 90, 80, 4)));
    assert_eq!(view.width(), 100);
    assert_eq!(view.height(), 50);
    assert_eq!(g.pos_to_cell(view, p(22, 20)), None);
    assert_eq!(g.pos_to_cell(view, p(23, 20)), Some((0, 0)));
    assert_eq!(g.pos_to_cell(view, p(97, 69)), Some((1, 2)));
    assert_eq!(g.pos_to_cell(view, p(98, 69)), None);
}

#[test]
fn narrow_viewport_still_has_layout() {
    let g = Grid::new(10, 10);
    let view = rect(0, 0, 9, 100);
    // side 18/20 = 0.9; origin y = (100 - 9) / 2 = 45.5
    assert_eq!(g.layout(view), Some(layout(18, 0, 910, 20)));
    assert_eq!(g.pos_to_cell(view, p(0, 45)), None);
    assert_eq!(g.pos_to_cell(view, p(0, 46)), Some((0, 0)));
    assert_eq!(g.pos_to_cell(view, p(8, 54)), Some((9, 8)));
    assert_eq!(g.pos_to_cell(view, p(9, 54)), None);
    assert_eq!(g.cell_rect(view, 0, 0), Some(frect(0, 910, 18, 928, 20)));
    assert_eq!(g.draw(view).len(), 1 + 100 + 11 + 11);
}

#[test]
fn empty_viewport_has_no_layout() {
    let g = Grid::new(10, 10);
    for view in [rect(5, 5, 5, 5), rect(50, 50, 0, 0), rect(0, 0, 100, 0)] {
        assert_eq!(g.layout(view), None);
        assert_eq!(g.pos_to_cell(view, p(0, 0)), None);
        assert_eq!(g.cell_rect(view, 0, 0), None);
        assert_eq!(g.draw(view).len(), 1);
    }
}

#[test]
fn empty_grid_draws_only_background() {
    for g in [Grid::new(0, 5), Grid::new(5, 0)] {
        let view = rect(0, 0, 100, 100);
        assert_eq!(g.layout(view), None);
        assert_eq!(g.pos_to_cell(view, p(50, 50)), None);
        assert_eq!(g.cell_rect(view, 0, 0), None);
        let shapes = g.draw(view);
        assert_eq!(
            shapes,
            vec![Shape::Fill { rect: frect(0, 0, 100, 100, 1), color: Rgb::new(16, 18, 22) }]
        );
    }
}

#[test]
fn draw_order_and_contents() {
    let mut g = Grid::new(2, 3);
    g.set_tile(1, 2, Tile::Road);
    let view = rect(0, 0, 30, 20);
    let shapes = g.draw(view);
    assert_eq!(shapes.len(), 1 + 6 + 3 + 4);
    let bg = Rgb::new(16, 18, 22);
    assert_eq!(shapes[0], Shape::Fill { rect: frect(0, 0, 30, 20, 1), color: bg });
    // cells are 60/6 = 10 wide
    assert_eq!(
        shapes[1],
        Shape::Fill { rect: frect(0, 0, 60, 60, 6), color: Tile::Ground.color() }
    );
    assert_eq!(
        shapes[6],
        Shape::Fill { rect: frect(120, 60, 180, 120, 6), color: Tile::Road.color() }
    );
    let line = Rgb::new(40, 44, 52);
    assert_eq!(shapes[7], Shape::Line { from: fp(0, 0, 6), to: fp(180, 0, 6), color: line });
    assert_eq!(shapes[9], Shape::Line { from: fp(0, 120, 6), to: fp(180, 120, 6), color: line });
    assert_eq!(shapes[10], Shape::Line { from: fp(0, 0, 6), to: fp(0, 120, 6), color: line });
    assert_eq!(shapes[13], Shape::Line { from: fp(180, 0, 6), to: fp(180, 120, 6), color: line });
}

#[test]
fn draw_twice_is_identical() {
    let mut g = Grid::new(6, 4);
    g.set_tile(2, 2, Tile::Path);
    let view = rect(3, 7, 211, 99);
    assert_eq!(g.draw(view), g.draw(view));
}

#[test]
fn reconstruct_discards_cells() {
    let mut g = Grid::new(100, 100);
    g.set_tile(3, 4, Tile::Wall);
    g.set_tile(49, 49, Tile::Water);
    g = Grid::new(50, 50);
    assert_eq!(g.rows(), 50);
    assert!(g.to_tiles().iter().all(|t| *t == Tile::Ground));
    assert_eq!(g.tile(3, 4), Some(Tile::Ground));
    assert_eq!(g.tile(50, 0), None);
}

#[test]
fn save_and_restore_round_trip() {
    let mut g = Grid::new(10, 8);
    g.set_tile(3, 4, Tile::Water);
    let mut app = TemplateApp::new(Some(g));
    app.set_brush(Brush::Paint(Tile::Road));
    let saved = (app.grid().rows(), app.grid().cols(), app.grid().to_tiles());
    let restored = Grid::from_tiles(saved.0, saved.1, saved.2).unwrap();
    let app2 = TemplateApp::new(Some(restored));
    assert_eq!(app2.grid().tile(3, 4), Some(Tile::Water));
    assert_eq!(app2.grid().rows(), 10);
    assert_eq!(app2.grid().cols(), 8);
    assert_eq!(app2.brush(), Brush::Paint(Tile::Wall));
}

#[test]
fn from_tiles_rejects_bad_parts() {
    assert!(Grid::from_tiles(0, 3, vec![]).is_none());
    assert!(Grid::from_tiles(3, 0, vec![]).is_none());
    assert!(Grid::from_tiles(2, 2, vec![Tile::Wall; 3]).is_none());
    assert!(Grid::from_tiles(usize::MAX, 2, vec![Tile::Wall; 3]).is_none());
    let g = Grid::from_tiles(1, 2, vec![Tile::Wall, Tile::Path]).unwrap();
    assert_eq!(g.tile(0, 1), Some(Tile::Path));
}

#[test]
fn startup_falls_back_to_default_grid() {
    for saved in [None, Some(Grid::new(0, 7)), Some(Grid::new(7, 0))] {
        let app = TemplateApp::new(saved);
        assert_eq!(app.grid().rows(), DEFAULT_ROWS);
        assert_eq!(app.grid().cols(), DEFAULT_COLS);
        assert_eq!(app.grid().rows(), 100);
        assert_eq!(app.brush(), Brush::Paint(Tile::Wall));
    }
}

#[test]
fn paint_at_uses_brush() {
    let mut app = TemplateApp::new(None);
    let view = rect(0, 0, 1000, 500);
    app.paint_at(view, p(252, 3));
    assert_eq!(app.grid().tile(0, 0), Some(Tile::Wall));
    app.set_brush(Brush::Paint(Tile::Water));
    app.paint_at(view, p(749, 499));
    assert_eq!(app.grid().tile(99, 99), Some(Tile::Water));
    let before = app.grid().to_tiles();
    app.paint_at(view, p(10, 10));
    assert_eq!(app.grid().to_tiles(), before);
}
