//! Materials and tiles.

use vstd::prelude::*;

verus! {

/// The material a tile holds. `Air` is the vacant material.
#[derive(Clone, Copy, Debug, PartialEq, Eq, Structural)]
pub enum TileType {
    Air,
    Sand,
    Water,
    Stone,
}

/// A display colour. Each channel is given in thousandths of full intensity,
/// so `1000` is a fully lit (or fully opaque) channel.
#[derive(Clone, Copy, Debug, PartialEq, Eq, Structural)]
pub struct Rgba {
    pub red: u16,
    pub green: u16,
    pub blue: u16,
    pub alpha: u16,
}

/// The colour each material is drawn in.
pub open spec fn color_of(material: TileType) -> Rgba {
    match material {
        TileType::Air => Rgba { red: 0, green: 0, blue: 0, alpha: 1000 },
        TileType::Sand => Rgba { red: 990, green: 980, blue: 0, alpha: 1000 },
        TileType::Water => Rgba { red: 0, green: 0, blue: 800, alpha: 1000 },
        TileType::Stone => Rgba { red: 502, green: 502, blue: 502, alpha: 1000 },
    }
}

/// Whether a material is subject to a movement rule. `Air` and `Stone` never move.
pub open spec fn movable(material: TileType) -> bool {
    material == TileType::Sand || material == TileType::Water
}

/// The material a brush switches to after `material`: sand, water and stone
/// follow each other in a cycle, and an erasing brush (`Air`) enters it at sand.
pub open spec fn brush_after(material: TileType) -> TileType {
    match material {
        TileType::Air => TileType::Sand,
        TileType::Sand => TileType::Water,
        TileType::Water => TileType::Stone,
        TileType::Stone => TileType::Sand,
    }
}

impl TileType {
    /// The fixed display colour of this material.
    pub fn color(&self) -> (c: Rgba)
        ensures
            c == color_of(*self),
    {
        match self {
            TileType::Air => Rgba { red: 0, green: 0, blue: 0, alpha: 1000 },
            TileType::Sand => Rgba { red: 990, green: 980, blue: 0, alpha: 1000 },
            TileType::Water => Rgba { red: 0, green: 0, blue: 800, alpha: 1000 },
            TileType::Stone => Rgba { red: 502, green: 502, blue: 502, alpha: 1000 },
        }
    }

    /// The material's name, as it is shown to a user.
    pub fn name(&self) -> (s: &'static str)
        ensures
            s@ == match *self {
                TileType::Air => "Air"@,
                TileType::Sand => "Sand"@,
                TileType::Water => "Water"@,
                TileType::Stone => "Stone"@,
            },
    {
        match self {
            TileType::Air => "Air",
            TileType::Sand => "Sand",
            TileType::Water => "Water",
            TileType::Stone => "Stone",
        }
    }

    /// Whether a movement rule applies to this material.
    pub fn is_movable(&self) -> (b: bool)
        ensures
            b == movable(*self),
    {
        match self {
            TileType::Sand => true,
            TileType::Water => true,
            _ => false,
        }
    }

    /// The brush material that follows this one when the user cycles the brush.
    pub fn next_brush(&self) -> (next: TileType)
        ensures
            next == brush_after(*self),
    {
        match self {
            TileType::Air => TileType::Sand,
            TileType::Sand => TileType::Water,
            TileType::Water => TileType::Stone,
            TileType::Stone => TileType::Sand,
        }
    }
}

/// One location of the world. It holds exactly one material, and its colour is
/// always the colour of that material.
#[derive(Clone, Copy, Debug, PartialEq, Eq, Structural)]
pub struct Tile {
    pub filled: TileType,
}

impl Tile {
    /// A tile that holds `filled`.
    pub fn new(filled: TileType) -> (tile: Tile)
        ensures
            tile.filled == filled,
    {
        Tile { filled }
    }

    /// The colour this tile is drawn in: that of its material.
    pub fn color(&self) -> (c: Rgba)
        ensures
            c == color_of(self.filled),
    {
        self.filled.color()
    }
}

} // verus!
