//! A tile-grid editor core: a dense row-major grid of tiles, the square-cell
//! layout that centres it inside a viewport, the mapping between pointer
//! positions and cells, and the list of shapes that renders it.

pub mod tile;
pub mod geometry;
pub mod grid;
pub mod render;
pub mod editor;

pub use crate::editor::TemplateApp;
pub use crate::grid::Grid;
