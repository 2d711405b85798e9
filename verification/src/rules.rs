//! The movement rules: where a tile of a movable material goes in one visit.
//!
//! Each rule is a function of the grid, the visited cell and the random draws
//! made for it. The functions that draw state what holds for every outcome; the
//! functions that take the draws as arguments say exactly what the grid becomes.

use vstd::prelude::*;
use rand::rngs::ThreadRng;
use crate::grid::{
    commit, in_grid, magnitude, materials, same_shape, sample, shifted, stepped, target_of,
    well_formed,
};
use crate::rng::gen_range;
use crate::tile::{Tile, TileType};

verus! {

/// A direction is drawn from `[0, DIRECTION_DRAW_END)`.
pub const DIRECTION_DRAW_END: isize = 10;

/// A direction draw above this threshold means right, any other means left.
/// Over `[0, 10)` the threshold `5` sends four draws in ten to the right.
pub const LATERAL_BIAS_THRESHOLD: isize = 5;

/// The slide of water with a vacant cell beside it is drawn from
/// `[SLIDE_DRAW_START, SLIDE_DRAW_END)`.
pub const SLIDE_DRAW_START: isize = 2;

/// The first distance that no slide draw reaches.
pub const SLIDE_DRAW_END: isize = 6;

/// Whether a direction draw means right.
pub open spec fn heads_right(direction_draw: int) -> bool {
    direction_draw > LATERAL_BIAS_THRESHOLD
}

/// A direction draw that the generator can produce.
pub open spec fn direction_in_range(direction_draw: int) -> bool {
    0 <= direction_draw < DIRECTION_DRAW_END
}

/// A slide draw that the generator can produce.
pub open spec fn slide_in_range(slide_draw: int) -> bool {
    SLIDE_DRAW_START <= slide_draw < SLIDE_DRAW_END
}

/// `distance` cells to the drawn side: positive to the right, negative to the left.
pub open spec fn toward(direction_draw: int, distance: int) -> int {
    if heads_right(direction_draw) {
        distance
    } else {
        -distance
    }
}

/// Whether the cell under `(x, y)` is seen as vacant.
pub open spec fn can_fall(grid: Seq<Seq<TileType>>, x: int, y: int) -> bool {
    sample(grid, x, y + 1) == TileType::Air
}

/// The offset that sand at `(x, y)` tries: straight down where that is vacant,
/// else the lower neighbour on the drawn side.
pub open spec fn sand_offset(grid: Seq<Seq<TileType>>, x: int, y: int, direction_draw: int) -> (
    int,
    int,
) {
    if can_fall(grid, x, y) {
        (0, 1)
    } else {
        (toward(direction_draw, 1), 1)
    }
}

/// Whether a cell directly beside `(x, y)` is seen as vacant.
pub open spec fn has_vacant_side(grid: Seq<Seq<TileType>>, x: int, y: int) -> bool {
    sample(grid, x + 1, y) == TileType::Air || sample(grid, x - 1, y) == TileType::Air
}

/// How far water at `(x, y)` slides when it cannot fall: the drawn distance
/// where a cell directly beside it is vacant, else one cell.
pub open spec fn slide_distance(grid: Seq<Seq<TileType>>, x: int, y: int, slide_draw: int) -> int {
    if has_vacant_side(grid, x, y) {
        slide_draw
    } else {
        1
    }
}

/// The offset that water at `(x, y)` tries: straight down where that is
/// vacant, else the slide distance to the drawn side in its own row.
pub open spec fn water_offset(
    grid: Seq<Seq<TileType>>,
    x: int,
    y: int,
    direction_draw: int,
    slide_draw: int,
) -> (int, int) {
    if can_fall(grid, x, y) {
        (0, 1)
    } else {
        (toward(direction_draw, slide_distance(grid, x, y, slide_draw)), 0)
    }
}

/// The grid after `mover` at `(x, y)` has tried `offset`: the offset is
/// clamped onto the grid, and the move is committed if that cell is vacant.
pub open spec fn attempt(
    grid: Seq<Seq<TileType>>,
    mover: TileType,
    x: int,
    y: int,
    offset: (int, int),
) -> Seq<Seq<TileType>> {
    let target = target_of(grid, x, y, offset.0, offset.1);
    commit(grid, mover, x, y, target.0, target.1)
}

/// The grid after the sand rule has been applied at `(x, y)`.
pub open spec fn sand_step(
    grid: Seq<Seq<TileType>>,
    mover: TileType,
    x: int,
    y: int,
    direction_draw: int,
) -> Seq<Seq<TileType>> {
    attempt(grid, mover, x, y, sand_offset(grid, x, y, direction_draw))
}

/// The grid after the water rule has been applied at `(x, y)`.
pub open spec fn water_step(
    grid: Seq<Seq<TileType>>,
    mover: TileType,
    x: int,
    y: int,
    direction_draw: int,
    slide_draw: int,
) -> Seq<Seq<TileType>> {
    attempt(grid, mover, x, y, water_offset(grid, x, y, direction_draw, slide_draw))
}

/// The grid after a tile of material `mover` has been visited at `(x, y)`:
/// sand and water follow their rules, the other materials leave the grid as it is.
pub open spec fn visit(
    grid: Seq<Seq<TileType>>,
    mover: TileType,
    x: int,
    y: int,
    direction_draw: int,
    slide_draw: int,
) -> Seq<Seq<TileType>> {
    match mover {
        TileType::Sand => sand_step(grid, mover, x, y, direction_draw),
        TileType::Water => water_step(grid, mover, x, y, direction_draw, slide_draw),
        _ => grid,
    }
}

impl Tile {
    /// Tries the offset `(dx, dy)` from `(x, y)`: the tile moves to the cell
    /// that the offset names, clamped onto the grid, if that cell is vacant.
    fn try_offset(&mut self, tiles: &mut Vec<Vec<Tile>>, x: usize, y: usize, dx: isize, dy: isize)
        requires
            well_formed(materials(old(tiles)@)),
            in_grid(materials(old(tiles)@), x as int, y as int),
        ensures
            *final(self) == *old(self),
            materials(final(tiles)@) == attempt(
                materials(old(tiles)@),
                old(self).filled,
                x as int,
                y as int,
                (dx as int, dy as int),
            ),
            same_shape(materials(old(tiles)@), materials(final(tiles)@)),
    {
        let target_x = shifted(x, dx, tiles.len());
        let target_y = shifted(y, dy, tiles[0].len());
        self.move_tile(tiles, x, y, target_x, target_y);
    }

    /// Whether the cell under `(x, y)` is seen as vacant.
    fn sees_vacant_below(&self, tiles: &Vec<Vec<Tile>>, x: usize, y: usize) -> (vacant: bool)
        requires
            well_formed(materials(tiles@)),
        ensures
            vacant == can_fall(materials(tiles@), x as int, y as int),
    {
        self.tile_type_safe_index(tiles, x, y, 0, 1) == TileType::Air
    }

    /// Whether a cell directly beside `(x, y)` is seen as vacant.
    fn sees_vacant_side(&self, tiles: &Vec<Vec<Tile>>, x: usize, y: usize) -> (vacant: bool)
        requires
            well_formed(materials(tiles@)),
        ensures
            vacant == has_vacant_side(materials(tiles@), x as int, y as int),
    {
        self.tile_type_safe_index(tiles, x, y, 1, 0) == TileType::Air || self.tile_type_safe_index(
            tiles,
            x,
            y,
            -1,
            0,
        ) == TileType::Air
    }

    /// Applies the sand rule to this tile at `(x, y)` with the given direction
    /// draw. The draw is read only where the cell below is not vacant.
    pub fn move_sand(&mut self, tiles: &mut Vec<Vec<Tile>>, x: usize, y: usize, direction_draw: isize)
        requires
            well_formed(materials(old(tiles)@)),
            in_grid(materials(old(tiles)@), x as int, y as int),
        ensures
            *final(self) == *old(self),
            materials(final(tiles)@) == sand_step(
                materials(old(tiles)@),
                old(self).filled,
                x as int,
                y as int,
                direction_draw as int,
            ),
            same_shape(materials(old(tiles)@), materials(final(tiles)@)),
    {
        if self.sees_vacant_below(tiles, x, y) {
            self.try_offset(tiles, x, y, 0, 1);
        } else if direction_draw > LATERAL_BIAS_THRESHOLD {
            self.try_offset(tiles, x, y, 1, 1);
        } else {
            self.try_offset(tiles, x, y, -1, 1);
        }
    }

    /// Applies the water rule to this tile at `(x, y)` with the given draws.
    /// The direction draw is read only where the cell below is not vacant, the
    /// slide draw only where, besides, a cell directly beside the tile is vacant.
    pub fn move_water(
        &mut self,
        tiles: &mut Vec<Vec<Tile>>,
        x: usize,
        y: usize,
        direction_draw: isize,
        slide_draw: isize,
    )
        requires
            well_formed(materials(old(tiles)@)),
            in_grid(materials(old(tiles)@), x as int, y as int),
        ensures
            *final(self) == *old(self),
            materials(final(tiles)@) == water_step(
                materials(old(tiles)@),
                old(self).filled,
                x as int,
                y as int,
                direction_draw as int,
                slide_draw as int,
            ),
            same_shape(materials(old(tiles)@), materials(final(tiles)@)),
    {
        if self.sees_vacant_below(tiles, x, y) {
            self.try_offset(tiles, x, y, 0, 1);
        } else {
            let distance: isize = if self.sees_vacant_side(tiles, x, y) {
                slide_draw
            } else {
                1
            };
            let forward = (distance >= 0) == (direction_draw > LATERAL_BIAS_THRESHOLD);
            let target_x = stepped(x, forward, magnitude(distance), tiles.len());
            self.move_tile(tiles, x, y, target_x, y);
        }
    }
    /// Visits this tile at `(x, y)` with the given draws: sand and water follow
    /// their rules, a tile of another material leaves the buffer as it is.
    pub fn apply_rule(
        &mut self,
        tiles: &mut Vec<Vec<Tile>>,
        x: usize,
        y: usize,
        direction_draw: isize,
        slide_draw: isize,
    )
        requires
            well_formed(materials(old(tiles)@)),
            in_grid(materials(old(tiles)@), x as int, y as int),
        ensures
            *final(self) == *old(self),
            materials(final(tiles)@) == visit(
                materials(old(tiles)@),
                old(self).filled,
                x as int,
                y as int,
                direction_draw as int,
                slide_draw as int,
            ),
            same_shape(materials(old(tiles)@), materials(final(tiles)@)),
    {
        match self.filled {
            TileType::Sand => self.move_sand(tiles, x, y, direction_draw),
            TileType::Water => self.move_water(tiles, x, y, direction_draw, slide_draw),
            _ => {},
        }
    }

    /// Applies the sand rule with a direction drawn from `rng`. A draw is made
    /// only where the cell below is not vacant.
    fn update_sand(&mut self, rng: ThreadRng, tiles: &mut Vec<Vec<Tile>>, x: usize, y: usize)
        requires
            well_formed(materials(old(tiles)@)),
            in_grid(materials(old(tiles)@), x as int, y as int),
        ensures
            *final(self) == *old(self),
            exists|direction_draw: int|
                direction_in_range(direction_draw) && materials(final(tiles)@) == #[trigger] sand_step(
                    materials(old(tiles)@),
                    old(self).filled,
                    x as int,
                    y as int,
                    direction_draw,
                ),
            same_shape(materials(old(tiles)@), materials(final(tiles)@)),
    {
        let mut rng = rng;
        let direction_draw: isize = if self.sees_vacant_below(tiles, x, y) {
            0
        } else {
            gen_range(&mut rng, 0, DIRECTION_DRAW_END)
        };
        self.move_sand(tiles, x, y, direction_draw);
        assert(direction_in_range(direction_draw as int));
    }

    /// Applies the water rule with draws from `rng`. A direction is drawn only
    /// where the cell below is not vacant, and a slide only where, besides, a
    /// cell directly beside the tile is vacant.
    fn update_water(&mut self, rng: ThreadRng, tiles: &mut Vec<Vec<Tile>>, x: usize, y: usize)
        requires
            well_formed(materials(old(tiles)@)),
            in_grid(materials(old(tiles)@), x as int, y as int),
        ensures
            *final(self) == *old(self),
            exists|direction_draw: int, slide_draw: int|
                direction_in_range(direction_draw) && slide_in_range(slide_draw) && materials(
                    final(tiles)@,
                ) == #[trigger] water_step(
                    materials(old(tiles)@),
                    old(self).filled,
                    x as int,
                    y as int,
                    direction_draw,
                    slide_draw,
                ),
            same_shape(materials(old(tiles)@), materials(final(tiles)@)),
    {
        let mut rng = rng;
        let blocked = !self.sees_vacant_below(tiles, x, y);
        let direction_draw: isize = if blocked {
            gen_range(&mut rng, 0, DIRECTION_DRAW_END)
        } else {
            0
        };
        let slide_draw: isize = if blocked && self.sees_vacant_side(tiles, x, y) {
            gen_range(&mut rng, SLIDE_DRAW_START, SLIDE_DRAW_END)
        } else {
            SLIDE_DRAW_START
        };
        self.move_water(tiles, x, y, direction_draw, slide_draw);
        assert(direction_in_range(direction_draw as int) && slide_in_range(slide_draw as int));
    }

    /// Visits this tile at `(x, y)`: a tile of sand or water follows its rule,
    /// with draws from the generator of the current thread, and a tile of
    /// another material leaves the buffer as it is. Whatever is drawn, the
    /// buffer becomes what [`visit`] gives for some direction and slide in range.
    pub fn update_tile_pos(&mut self, tiles: &mut Vec<Vec<Tile>>, x: usize, y: usize)
        requires
            well_formed(materials(old(tiles)@)),
            in_grid(materials(old(tiles)@), x as int, y as int),
        ensures
            *final(self) == *old(self),
            exists|direction_draw: int, slide_draw: int|
                direction_in_range(direction_draw) && slide_in_range(slide_draw) && materials(
                    final(tiles)@,
                ) == #[trigger] visit(
                    materials(old(tiles)@),
                    old(self).filled,
                    x as int,
                    y as int,
                    direction_draw,
                    slide_draw,
                ),
            same_shape(materials(old(tiles)@), materials(final(tiles)@)),
    {
        let ghost before = materials(tiles@);
        if self.filled == TileType::Air {
            assert(materials(tiles@) == visit(before, self.filled, x as int, y as int, 0, 2));
            return ;
        }
        let rng = rand::thread_rng();
        match self.filled {
            TileType::Sand => {
                self.update_sand(rng, tiles, x, y);
                let ghost d = choose|d: int|
                    direction_in_range(d) && materials(tiles@) == #[trigger] sand_step(
                        before,
                        self.filled,
                        x as int,
                        y as int,
                        d,
                    );
                assert(materials(tiles@) == visit(before, self.filled, x as int, y as int, d, 2));
            },
            TileType::Water => {
                self.update_water(rng, tiles, x, y);
                let ghost (d, s) = choose|d: int, s: int|
                    direction_in_range(d) && slide_in_range(s) && materials(tiles@)
                        == #[trigger] water_step(before, self.filled, x as int, y as int, d, s);
                assert(materials(tiles@) == visit(before, self.filled, x as int, y as int, d, s));
            },
            _ => {
                assert(materials(tiles@) == visit(before, self.filled, x as int, y as int, 0, 2));
            },
        }
    }
}

} // verus!
