//! The catalogue of tile kinds: each has a fixed display colour and, unless it
//! is impassable, a traversal cost.
use vstd::prelude::*;

verus! {

/// A colour as red, green and blue channels.
#[derive(Debug, Clone, Copy, PartialEq, Eq, Structural)]
pub struct Rgb {
    pub r: u8,
    pub g: u8,
    pub b: u8,
}

impl Rgb {
    pub fn new(r: u8, g: u8, b: u8) -> (c: Rgb)
        ensures
            c == (Rgb { r, g, b }),
    {
        Rgb { r, g, b }
    }
}

/// The kinds of terrain a cell can hold.
#[derive(Debug, Clone, Copy, PartialEq, Eq, Structural)]
pub enum Tile {
    Wall,
    Ground,
    Water,
    Path,
    Road,
}

/// The tile every fresh cell holds.
pub open spec fn default_tile() -> Tile {
    Tile::Ground
}

/// Traversal cost of a tile; `None` for impassable tiles.
pub open spec fn tile_cost(t: Tile) -> Option<u32> {
    match t {
        Tile::Wall => None,
        Tile::Ground => Some(10),
        Tile::Path => Some(8),
        Tile::Road => Some(6),
        Tile::Water => Some(30),
    }
}

/// Display colour of a tile.
pub open spec fn tile_color(t: Tile) -> Rgb {
    match t {
        Tile::Wall => Rgb { r: 80, g: 86, b: 96 },
        Tile::Ground => Rgb { r: 28, g: 32, b: 38 },
        Tile::Water => Rgb { r: 45, g: 85, b: 150 },
        Tile::Path => Rgb { r: 90, g: 75, b: 50 },
        Tile::Road => Rgb { r: 70, g: 70, b: 70 },
    }
}

impl Default for Tile {
    fn default() -> (t: Tile)
        ensures
            t == default_tile(),
    {
        Tile::Ground
    }
}

impl Tile {
    /// The cost of crossing this tile, lower being cheaper; `None` if it cannot
    /// be crossed.
    pub fn cost(self) -> (c: Option<u32>)
        ensures
            c == tile_cost(self),
    {
        match self {
            Tile::Wall => None,
            Tile::Ground => Some(10),
            Tile::Path => Some(8),
            Tile::Road => Some(6),
            Tile::Water => Some(30),
        }
    }

    /// The colour this tile is painted with.
    pub fn color(self) -> (c: Rgb)
        ensures
            c == tile_color(self),
    {
        match self {
            Tile::Wall => Rgb::new(80, 86, 96),
            Tile::Ground => Rgb::new(28, 32, 38),
            Tile::Water => Rgb::new(45, 85, 150),
            Tile::Path => Rgb::new(90, 75, 50),
            Tile::Road => Rgb::new(70, 70, 70),
        }
    }
}

} // verus!
