//! The world: a rectangular buffer of tiles with fixed dimensions.

use vstd::prelude::*;
use crate::grid::{height_of, in_grid, materials, sample, well_formed, width_of, with_cell};
use crate::laws::{
    lemma_scan_column_reads_prefix, lemma_scan_columns_reads_prefix, lemma_step_conserves,
    lemma_step_keeps_stone,
};
use crate::rules::{direction_in_range, slide_in_range, visit};
use crate::step::{count_in_grid, draws_fit, scan_column, scan_columns, step};
use crate::tile::{Tile, TileType};

verus! {

/// Why an operation on a world was refused.
#[derive(Clone, Copy, Debug, PartialEq, Eq, Structural)]
pub enum WorldError {
    /// A world was asked for with no columns or no rows.
    InvalidDimensions,
    /// A coordinate names no tile of the world.
    OutOfBounds,
}

/// A world of `width` columns and `height` rows. Its dimensions are fixed
/// when it is made, and every coordinate within them names exactly one tile.
#[derive(Clone, Debug, PartialEq, Eq)]
pub struct TileWorld {
    tiles: Vec<Vec<Tile>>,
    width: usize,
    height: usize,
}

impl View for TileWorld {
    type V = Seq<Seq<TileType>>;

    /// The materials of the world, column by column.
    closed spec fn view(&self) -> Seq<Seq<TileType>> {
        materials(self.tiles@)
    }
}

impl TileWorld {
    /// The number of columns that the world records for itself.
    pub closed spec fn recorded_width(&self) -> int {
        self.width as int
    }

    /// The number of rows that the world records for itself.
    pub closed spec fn recorded_height(&self) -> int {
        self.height as int
    }

    /// The invariant of a world: its tiles form a rectangle with at least one
    /// cell, of the dimensions that the world records. `create` establishes it
    /// and every operation keeps it.
    pub open spec fn wf(&self) -> bool {
        &&& well_formed(self@)
        &&& self.recorded_width() == width_of(self@)
        &&& self.recorded_height() == height_of(self@)
    }

    /// Makes a world of the given dimensions with every tile vacant. A world
    /// needs at least one column and one row.
    pub fn create(width: usize, height: usize) -> (made: Result<TileWorld, WorldError>)
        ensures
            made is Ok <==> width > 0 && height > 0,
            made is Err ==> made->Err_0 == WorldError::InvalidDimensions,
            made is Ok ==> {
                let world = made->Ok_0;
                &&& world.wf()
                &&& width_of(world@) == width
                &&& height_of(world@) == height
                &&& forall|x: int, y: int|
                    in_grid(world@, x, y) ==> #[trigger] world@[x][y] == TileType::Air
            },
    {
        if width == 0 || height == 0 {
            return Err(WorldError::InvalidDimensions);
        }
        let mut tiles: Vec<Vec<Tile>> = Vec::new();
        let mut x: usize = 0;
        while x < width
            invariant
                x <= width,
                tiles@.len() == x,
                forall|cx: int| 0 <= cx < x ==> (#[trigger] tiles@[cx])@.len() == height,
                forall|cx: int, cy: int|
                    0 <= cx < x && 0 <= cy < height ==> (#[trigger] tiles@[cx]@[cy]).filled
                        == TileType::Air,
            decreases width - x,
        {
            let mut column: Vec<Tile> = Vec::new();
            let mut y: usize = 0;
            while y < height
                invariant
                    y <= height,
                    column@.len() == y,
                    forall|cy: int| 0 <= cy < y ==> (#[trigger] column@[cy]).filled == TileType::Air,
                decreases height - y,
            {
                column.push(Tile::new(TileType::Air));
                y += 1;
            }
            tiles.push(column);
            x += 1;
        }
        Ok(TileWorld { tiles, width, height })
    }

    /// The number of columns.
    pub fn width(&self) -> (width: usize)
        requires
            self.wf(),
        ensures
            width == width_of(self@),
    {
        self.width
    }

    /// The number of rows.
    pub fn height(&self) -> (height: usize)
        requires
            self.wf(),
        ensures
            height == height_of(self@),
    {
        self.height
    }

    /// The material at `(x, y)`, or `OutOfBounds` where the coordinate names
    /// no tile.
    pub fn get(&self, x: usize, y: usize) -> (found: Result<TileType, WorldError>)
        requires
            self.wf(),
        ensures
            found == if in_grid(self@, x as int, y as int) {
                Ok::<TileType, WorldError>(self@[x as int][y as int])
            } else {
                Err::<TileType, WorldError>(WorldError::OutOfBounds)
            },
    {
        if x < self.width && y < self.height {
            assert(materials(self.tiles@)[x as int].len() == self.height);
            Ok(self.tiles[x][y].filled)
        } else {
            Err(WorldError::OutOfBounds)
        }
    }

    /// Sets the tile at `(x, y)` to `material`. Where the coordinate names no
    /// tile the world is left as it is and `OutOfBounds` is returned.
    pub fn set(&mut self, x: usize, y: usize, material: TileType) -> (done: Result<(), WorldError>)
        requires
            old(self).wf(),
        ensures
            final(self).wf(),
            done == if in_grid(old(self)@, x as int, y as int) {
                Ok::<(), WorldError>(())
            } else {
                Err::<(), WorldError>(WorldError::OutOfBounds)
            },
            final(self)@ == if in_grid(old(self)@, x as int, y as int) {
                with_cell(old(self)@, x as int, y as int, material)
            } else {
                old(self)@
            },
    {
        if x < self.width && y < self.height {
            let ghost before = materials(self.tiles@);
            assert(before[x as int].len() == self.height);
            self.tiles[x][y].filled = material;
            assert(materials(self.tiles@) =~~= with_cell(before, x as int, y as int, material));
            Ok(())
        } else {
            Err(WorldError::OutOfBounds)
        }
    }

    /// The material seen from `(x, y)` at the offset `(dx, dy)`, where a
    /// coordinate that leaves the world is read as the nearest tile in it.
    pub fn sample(&self, x: usize, y: usize, dx: isize, dy: isize) -> (seen: TileType)
        requires
            self.wf(),
        ensures
            seen == sample(self@, x + dx, y + dy),
    {
        let probe = Tile::new(TileType::Air);
        probe.tile_type_safe_index(&self.tiles, x, y, dx, dy)
    }
    /// Advances the simulation by one tick. Every cell is visited once, column
    /// by column and from the top of each column down; a cell that held sand
    /// or water when the tick began follows its rule against the world as the
    /// earlier visits have left it, with draws from the generator of the
    /// current thread.
    ///
    /// Whatever is drawn, the world becomes what [`step`] gives for some table
    /// of draws in range. So no material is made or lost, and stone stays
    /// where it is.
    pub fn update_sim(&mut self)
        requires
            old(self).wf(),
        ensures
            final(self).wf(),
            width_of(final(self)@) == width_of(old(self)@),
            height_of(final(self)@) == height_of(old(self)@),
            exists|draws: Seq<Seq<(int, int)>>|
                draws_fit(old(self)@, draws) && final(self)@ == #[trigger] step(old(self)@, draws),
            forall|counted: TileType| #[trigger]
                count_in_grid(final(self)@, counted) == count_in_grid(old(self)@, counted),
            forall|x: int, y: int|
                in_grid(old(self)@, x, y) ==> ((#[trigger] final(self)@[x][y] == TileType::Stone)
                    <==> old(self)@[x][y] == TileType::Stone),
    {
        let snapshot = self.tiles.clone();
        let width = self.width;
        let height = self.height;
        let ghost start = materials(self.tiles@);
        assert(materials(snapshot@) =~~= start);
        let ghost mut draws: Seq<Seq<(int, int)>> = Seq::empty();
        let mut x: usize = 0;
        while x < width
            invariant
                x <= width,
                well_formed(start),
                width == width_of(start),
                height == height_of(start),
                self.width == width,
                self.height == height,
                materials(snapshot@) == start,
                well_formed(materials(self.tiles@)),
                width_of(materials(self.tiles@)) == width,
                height_of(materials(self.tiles@)) == height,
                draws.len() == x,
                forall|cx: int| 0 <= cx < x ==> (#[trigger] draws[cx]).len() == height,
                forall|cx: int, cy: int|
                    0 <= cx < x && 0 <= cy < height ==> direction_in_range(
                        (#[trigger] draws[cx][cy]).0,
                    ) && slide_in_range(draws[cx][cy].1),
                materials(self.tiles@) == scan_columns(start, draws, x as nat),
            decreases width - x,
        {
            let ghost column_start = materials(self.tiles@);
            let ghost mut column_draws: Seq<(int, int)> = Seq::empty();
            let mut y: usize = 0;
            while y < height
                invariant
                    x < width,
                    y <= height,
                    well_formed(start),
                    width == width_of(start),
                    height == height_of(start),
                    self.width == width,
                    self.height == height,
                    materials(snapshot@) == start,
                    well_formed(materials(self.tiles@)),
                    width_of(materials(self.tiles@)) == width,
                    height_of(materials(self.tiles@)) == height,
                    column_draws.len() == y,
                    forall|cy: int|
                        0 <= cy < y ==> direction_in_range((#[trigger] column_draws[cy]).0)
                            && slide_in_range(column_draws[cy].1),
                    materials(self.tiles@) == scan_column(
                        column_start,
                        start,
                        x as int,
                        column_draws,
                        y as nat,
                    ),
                decreases height - y,
            {
                assert(start[x as int].len() == height);
                assert(start[x as int][y as int] == snapshot@[x as int]@[y as int].filled);
                let mut tile = snapshot[x][y];
                let ghost before = materials(self.tiles@);
                tile.update_tile_pos(&mut self.tiles, x, y);
                proof {
                    let (direction_draw, slide_draw) = choose|direction_draw: int, slide_draw: int|
                        direction_in_range(direction_draw) && slide_in_range(slide_draw)
                            && materials(self.tiles@) == #[trigger] visit(
                            before,
                            tile.filled,
                            x as int,
                            y as int,
                            direction_draw,
                            slide_draw,
                        );
                    let longer = column_draws.push((direction_draw, slide_draw));
                    lemma_scan_column_reads_prefix(
                        column_start,
                        start,
                        x as int,
                        column_draws,
                        longer,
                        y as nat,
                    );
                    column_draws = longer;
                }
                y += 1;
            }
            proof {
                let longer = draws.push(column_draws);
                lemma_scan_columns_reads_prefix(start, draws, longer, x as nat);
                draws = longer;
            }
            x += 1;
        }
        proof {
            assert(draws_fit(start, draws));
            assert(materials(self.tiles@) == step(start, draws));
            assert forall|counted: TileType| #[trigger]
                count_in_grid(materials(self.tiles@), counted) == count_in_grid(
                    start,
                    counted,
                ) by {
                lemma_step_conserves(start, draws, counted);
            }
            assert forall|cx: int, cy: int| in_grid(start, cx, cy) implies ((#[trigger] materials(
                self.tiles@,
            )[cx][cy] == TileType::Stone) <==> start[cx][cy] == TileType::Stone) by {
                lemma_step_keeps_stone(start, draws, cx, cy);
            }
        }
    }
}

} // verus!
