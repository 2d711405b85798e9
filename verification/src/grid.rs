//! The mathematical model of a world, and the bounds-safe access to its tiles.

use vstd::prelude::*;
use crate::tile::{Tile, TileType};

verus! {

/// The materials of a tile buffer, column by column: `materials(t)[x][y]` is
/// the material at column `x`, row `y`.
pub open spec fn materials(tiles: Seq<Vec<Tile>>) -> Seq<Seq<TileType>> {
    Seq::new(tiles.len(), |x: int| Seq::new(tiles[x]@.len(), |y: int| tiles[x]@[y].filled))
}

/// A grid of `width` columns, each of `height` rows, with at least one cell.
pub open spec fn rectangular(grid: Seq<Seq<TileType>>, width: int, height: int) -> bool {
    &&& 0 < width
    &&& 0 < height
    &&& grid.len() == width
    &&& forall|x: int| 0 <= x < width ==> (#[trigger] grid[x]).len() == height
}

/// The width of a grid: its number of columns.
pub open spec fn width_of(grid: Seq<Seq<TileType>>) -> int {
    grid.len() as int
}

/// The height of a grid: the number of rows of its first column.
pub open spec fn height_of(grid: Seq<Seq<TileType>>) -> int {
    grid[0].len() as int
}

/// A grid that is rectangular in its own dimensions.
pub open spec fn well_formed(grid: Seq<Seq<TileType>>) -> bool {
    grid.len() > 0 && rectangular(grid, width_of(grid), height_of(grid))
}

/// Whether `after` is a well-formed grid of the dimensions of `before`.
pub open spec fn same_shape(before: Seq<Seq<TileType>>, after: Seq<Seq<TileType>>) -> bool {
    &&& well_formed(after)
    &&& width_of(after) == width_of(before)
    &&& height_of(after) == height_of(before)
}

/// Whether `(x, y)` names a cell of the grid.
pub open spec fn in_grid(grid: Seq<Seq<TileType>>, x: int, y: int) -> bool {
    0 <= x < width_of(grid) && 0 <= y < height_of(grid)
}

/// `value` moved to the nearest point of `[0, len)`.
pub open spec fn clamp_index(value: int, len: int) -> int {
    if value < 0 {
        0
    } else if value >= len {
        len - 1
    } else {
        value
    }
}

/// The material seen at `(x, y)`, where a coordinate off the grid is read as
/// the nearest cell on it.
pub open spec fn sample(grid: Seq<Seq<TileType>>, x: int, y: int) -> TileType {
    grid[clamp_index(x, width_of(grid))][clamp_index(y, height_of(grid))]
}

/// The grid with the cell `(x, y)` set to `material`.
pub open spec fn with_cell(grid: Seq<Seq<TileType>>, x: int, y: int, material: TileType) -> Seq<
    Seq<TileType>,
> {
    grid.update(x, grid[x].update(y, material))
}

/// A movement commit: `mover` leaves `(x, y)` for `(tx, ty)` if that cell is
/// vacant, and the grid is unchanged if it is not.
pub open spec fn commit(
    grid: Seq<Seq<TileType>>,
    mover: TileType,
    x: int,
    y: int,
    tx: int,
    ty: int,
) -> Seq<Seq<TileType>> {
    if grid[tx][ty] == TileType::Air {
        with_cell(with_cell(grid, tx, ty, mover), x, y, TileType::Air)
    } else {
        grid
    }
}

/// The cell that an offset from `(x, y)` names, each coordinate clamped onto the grid.
pub open spec fn target_of(grid: Seq<Seq<TileType>>, x: int, y: int, dx: int, dy: int) -> (int, int) {
    (clamp_index(x + dx, width_of(grid)), clamp_index(y + dy, height_of(grid)))
}

/// The size of `delta` without its sign.
pub(crate) fn magnitude(delta: isize) -> (size: usize)
    ensures
        size == if delta >= 0 {
            delta as int
        } else {
            -(delta as int)
        },
{
    if delta >= 0 {
        delta as usize
    } else if delta == isize::MIN {
        isize::MAX as usize + 1
    } else {
        (-delta) as usize
    }
}

/// `pos` moved by `size` steps, forward or back, to the nearest index below `len`.
pub(crate) fn stepped(pos: usize, forward: bool, size: usize, len: usize) -> (index: usize)
    requires
        len > 0,
    ensures
        index == clamp_index(
            if forward {
                pos + size
            } else {
                pos - size
            },
            len as int,
        ),
{
    if forward {
        if pos >= len - 1 {
            len - 1
        } else if size >= len - 1 - pos {
            len - 1
        } else {
            pos + size
        }
    } else if size >= pos {
        0
    } else if pos - size >= len {
        len - 1
    } else {
        pos - size
    }
}

/// `pos + delta`, moved to the nearest index below `len`.
pub(crate) fn shifted(pos: usize, delta: isize, len: usize) -> (index: usize)
    requires
        len > 0,
    ensures
        index == clamp_index(pos + delta, len as int),
{
    stepped(pos, delta >= 0, magnitude(delta), len)
}

impl Tile {
    /// Whether `(x, y)` names a tile of the buffer.
    pub fn is_within_bounds(&self, tiles: &Vec<Vec<Tile>>, x: usize, y: usize) -> (inside: bool)
        requires
            tiles.len() > 0,
        ensures
            inside == in_grid(materials(tiles@), x as int, y as int),
    {
        x < tiles.len() && y < tiles[0].len()
    }

    /// The material seen from `(x, y)` at the offset `(dx, dy)`. A coordinate
    /// that leaves the grid is read as the nearest cell on it, so a tile at an
    /// edge may see itself as its own neighbour.
    pub fn tile_type_safe_index(
        &self,
        tiles: &Vec<Vec<Tile>>,
        x: usize,
        y: usize,
        dx: isize,
        dy: isize,
    ) -> (seen: TileType)
        requires
            well_formed(materials(tiles@)),
        ensures
            seen == sample(materials(tiles@), x + dx, y + dy),
    {
        let x_index = shifted(x, dx, tiles.len());
        let y_index = shifted(y, dy, tiles[0].len());
        assert(materials(tiles@)[x_index as int].len() == height_of(materials(tiles@)));
        tiles[x_index][y_index].filled
    }

    /// Commits a move of this tile from `(x, y)` to `(target_x, target_y)`:
    /// if the target is vacant it takes this tile's material and the source
    /// becomes vacant; otherwise nothing changes.
    pub fn move_tile(
        &mut self,
        tiles: &mut Vec<Vec<Tile>>,
        x: usize,
        y: usize,
        target_x: usize,
        target_y: usize,
    )
        requires
            well_formed(materials(old(tiles)@)),
            in_grid(materials(old(tiles)@), x as int, y as int),
            in_grid(materials(old(tiles)@), target_x as int, target_y as int),
        ensures
            *final(self) == *old(self),
            materials(final(tiles)@) == commit(
                materials(old(tiles)@),
                old(self).filled,
                x as int,
                y as int,
                target_x as int,
                target_y as int,
            ),
            same_shape(materials(old(tiles)@), materials(final(tiles)@)),
    {
        let ghost before = materials(tiles@);
        assert(before[target_x as int].len() == height_of(before));
        assert(before[x as int].len() == height_of(before));
        if tiles[target_x][target_y].filled == TileType::Air {
            tiles[target_x][target_y] = *self;
            assert(materials(tiles@) =~~= with_cell(
                before,
                target_x as int,
                target_y as int,
                self.filled,
            ));
            tiles[x][y].filled = TileType::Air;
            assert(materials(tiles@) =~~= with_cell(
                with_cell(before, target_x as int, target_y as int, self.filled),
                x as int,
                y as int,
                TileType::Air,
            ));
        }
    }
}

} // verus!
