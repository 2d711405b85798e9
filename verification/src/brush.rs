//! The brush that paints tiles into a world.

use vstd::prelude::*;
use crate::grid::{height_of, width_of};
use crate::tile::TileType;
use crate::world::TileWorld;

verus! {

/// The smallest side a brush can have, in tiles.
pub const SMALLEST_BRUSH: usize = 1;

/// The largest side a brush can have, in tiles.
pub const LARGEST_BRUSH: usize = 20;

/// The side of the brush after one turn of the wheel: a turn up (`wheel > 0`)
/// widens it by one tile up to the largest side, a turn down (`wheel < 0`)
/// narrows it by one tile down to the smallest, and no turn leaves it.
pub open spec fn brush_size_after(brush_size: int, wheel: int) -> int {
    if wheel > 0 && brush_size < LARGEST_BRUSH {
        brush_size + 1
    } else if wheel < 0 && brush_size > SMALLEST_BRUSH {
        brush_size - 1
    } else {
        brush_size
    }
}

/// The side of the brush after one turn of the wheel.
pub fn resize_brush(brush_size: usize, wheel: i32) -> (resized: usize)
    ensures
        resized == brush_size_after(brush_size as int, wheel as int),
{
    if wheel > 0 && brush_size < LARGEST_BRUSH {
        brush_size + 1
    } else if wheel < 0 && brush_size > SMALLEST_BRUSH {
        brush_size - 1
    } else {
        brush_size
    }
}

/// Whether the square brush of side `brush_size`, held over the tile
/// `(cell_x, cell_y)`, covers `(x, y)`. The brush reaches half its side, rounded
/// down, to the left of and above the tile it is held over.
pub open spec fn brush_covers(cell_x: int, cell_y: int, brush_size: int, x: int, y: int) -> bool {
    let reach = brush_size / 2;
    &&& cell_x - reach <= x < cell_x - reach + brush_size
    &&& cell_y - reach <= y < cell_y - reach + brush_size
}

/// The grid after the cells of the first `columns` columns that the brush
/// covers, and those of the first `rows` rows of the next column, have been
/// set to `material`.
pub open spec fn painted_up_to(
    grid: Seq<Seq<TileType>>,
    cell_x: int,
    cell_y: int,
    brush_size: int,
    material: TileType,
    columns: int,
    rows: int,
) -> Seq<Seq<TileType>> {
    Seq::new(
        grid.len(),
        |x: int|
            Seq::new(
                grid[x].len(),
                |y: int|
                    if brush_covers(cell_x, cell_y, brush_size, x, y) && (x < columns || (x
                        == columns && y < rows)) {
                        material
                    } else {
                        grid[x][y]
                    },
            ),
    )
}

/// The grid after every cell that the brush covers has been set to `material`.
pub open spec fn painted(
    grid: Seq<Seq<TileType>>,
    cell_x: int,
    cell_y: int,
    brush_size: int,
    material: TileType,
) -> Seq<Seq<TileType>> {
    painted_up_to(grid, cell_x, cell_y, brush_size, material, width_of(grid), 0)
}

/// The first index of a world that a brush covers when held over `cell`.
spec fn brush_start_of(cell: int, brush_size: int) -> int {
    if cell >= brush_size / 2 {
        cell - brush_size / 2
    } else {
        0
    }
}

/// The end of what a brush covers when held over `cell`, cut off at `len`.
spec fn brush_end_of(cell: int, brush_size: int, len: int) -> int {
    if cell - brush_size / 2 + brush_size >= len {
        len
    } else {
        cell - brush_size / 2 + brush_size
    }
}

/// The first index of a world that a brush of side `brush_size` covers when
/// held over `cell`.
fn brush_start(cell: usize, brush_size: usize) -> (start: usize)
    ensures
        start == brush_start_of(cell as int, brush_size as int),
{
    let reach = brush_size / 2;
    if cell >= reach {
        cell - reach
    } else {
        0
    }
}

/// The end of what a brush of side `brush_size` covers when held over `cell`,
/// cut off at `len`.
fn brush_end(cell: usize, brush_size: usize, len: usize) -> (end: usize)
    ensures
        end == brush_end_of(cell as int, brush_size as int, len as int),
{
    let ahead = brush_size - brush_size / 2;
    if cell >= len {
        len
    } else if ahead >= len - cell {
        len
    } else {
        cell + ahead
    }
}

impl TileWorld {
    /// Paints with a square brush of side `brush_size` held over the tile
    /// `(cell_x, cell_y)`: every tile of the world that the brush covers is
    /// set to `tile_type`, and what the brush covers beyond the world is
    /// ignored.
    pub fn modify_tiles(
        &mut self,
        cell_x: usize,
        cell_y: usize,
        tile_type: TileType,
        brush_size: usize,
    )
        requires
            old(self).wf(),
        ensures
            final(self).wf(),
            final(self)@ == painted(
                old(self)@,
                cell_x as int,
                cell_y as int,
                brush_size as int,
                tile_type,
            ),
    {
        let width = self.width();
        let height = self.height();
        let ghost start = self@;
        let x_start = brush_start(cell_x, brush_size);
        let x_end = brush_end(cell_x, brush_size, width);
        let y_start = brush_start(cell_y, brush_size);
        let y_end = brush_end(cell_y, brush_size, height);
        assert(self@ =~~= painted_up_to(
            start,
            cell_x as int,
            cell_y as int,
            brush_size as int,
            tile_type,
            x_start as int,
            0,
        ));
        let mut x = x_start;
        while x < x_end
            invariant
                x_start <= x,
                x_end <= width,
                y_end <= height,
                start.len() == width,
                forall|cx: int| 0 <= cx < width ==> (#[trigger] start[cx]).len() == height,
                x_start == brush_start_of(cell_x as int, brush_size as int),
                y_start == brush_start_of(cell_y as int, brush_size as int),
                x_end == brush_end_of(cell_x as int, brush_size as int, width as int),
                y_end == brush_end_of(cell_y as int, brush_size as int, height as int),
                self.wf(),
                width == width_of(self@),
                height == height_of(self@),
                self@ == painted_up_to(
                    start,
                    cell_x as int,
                    cell_y as int,
                    brush_size as int,
                    tile_type,
                    x as int,
                    0,
                ),
            decreases x_end - x,
        {
            assert(self@ =~~= painted_up_to(
                start,
                cell_x as int,
                cell_y as int,
                brush_size as int,
                tile_type,
                x as int,
                y_start as int,
            ));
            let mut y = y_start;
            while y < y_end
                invariant
                    x_start <= x < x_end,
                    y_start <= y,
                    x_end <= width,
                    y_end <= height,
                    start.len() == width,
                    forall|cx: int| 0 <= cx < width ==> (#[trigger] start[cx]).len() == height,
                    x_start == brush_start_of(cell_x as int, brush_size as int),
                    y_start == brush_start_of(cell_y as int, brush_size as int),
                    x_end == brush_end_of(cell_x as int, brush_size as int, width as int),
                    y_end == brush_end_of(cell_y as int, brush_size as int, height as int),
                    self.wf(),
                    width == width_of(self@),
                    height == height_of(self@),
                    self@ == painted_up_to(
                        start,
                        cell_x as int,
                        cell_y as int,
                        brush_size as int,
                        tile_type,
                        x as int,
                        y as int,
                    ),
                decreases y_end - y,
            {
                let ghost before = self@;
                let _ = self.set(x, y, tile_type);
                assert(self@ =~~= painted_up_to(
                    start,
                    cell_x as int,
                    cell_y as int,
                    brush_size as int,
                    tile_type,
                    x as int,
                    y + 1,
                )) by {
                    assert(before[x as int].len() == height);
                }
                y += 1;
            }
            assert(self@ =~~= painted_up_to(
                start,
                cell_x as int,
                cell_y as int,
                brush_size as int,
                tile_type,
                x + 1,
                0,
            ));
            x += 1;
        }
        assert(self@ =~~= painted(
            start,
            cell_x as int,
            cell_y as int,
            brush_size as int,
            tile_type,
        ));
    }
}

} // verus!
