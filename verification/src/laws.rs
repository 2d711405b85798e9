//! What holds of every tick: material is conserved, stone stays where it is,
//! and a grid without sand or water does not change.

use vstd::prelude::*;
use crate::grid::{
    commit, height_of, in_grid, same_shape, target_of, well_formed, width_of, with_cell,
};
use crate::rules::{
    can_fall, has_vacant_side, sand_offset, sand_step, slide_in_range, toward, visit, water_offset,
    water_step,
};
use crate::step::{
    at_rest, count_in_column, count_in_grid, full_of_stone, run, scan_column, scan_columns, step,
};
use crate::tile::{movable, TileType};

verus! {

/// `1` where the two materials are the same, else `0`.
pub open spec fn one_if(a: TileType, b: TileType) -> int {
    if a == b {
        1
    } else {
        0
    }
}

/// Replacing one cell of a column changes each count by what left and what came.
proof fn lemma_count_column_update(
    column: Seq<TileType>,
    y: int,
    material: TileType,
    counted: TileType,
)
    requires
        0 <= y < column.len(),
    ensures
        count_in_column(column.update(y, material), counted) == count_in_column(column, counted)
            - one_if(column[y], counted) + one_if(material, counted),
    decreases column.len(),
{
    let updated = column.update(y, material);
    if y == column.len() - 1 {
        assert(updated.drop_last() =~= column.drop_last());
    } else {
        assert(updated.drop_last() =~= column.drop_last().update(y, material));
        lemma_count_column_update(column.drop_last(), y, material, counted);
    }
}

/// Replacing one column of a grid changes each count by what left and what came.
proof fn lemma_count_grid_update(
    grid: Seq<Seq<TileType>>,
    x: int,
    column: Seq<TileType>,
    counted: TileType,
)
    requires
        0 <= x < grid.len(),
    ensures
        count_in_grid(grid.update(x, column), counted) == count_in_grid(grid, counted)
            - count_in_column(grid[x], counted) + count_in_column(column, counted),
    decreases grid.len(),
{
    let updated = grid.update(x, column);
    if x == grid.len() - 1 {
        assert(updated.drop_last() =~= grid.drop_last());
    } else {
        assert(updated.drop_last() =~= grid.drop_last().update(x, column));
        lemma_count_grid_update(grid.drop_last(), x, column, counted);
    }
}

/// Setting one cell of a grid changes each count by what left and what came.
pub proof fn lemma_count_with_cell(
    grid: Seq<Seq<TileType>>,
    x: int,
    y: int,
    material: TileType,
    counted: TileType,
)
    requires
        well_formed(grid),
        in_grid(grid, x, y),
    ensures
        count_in_grid(with_cell(grid, x, y, material), counted) == count_in_grid(grid, counted)
            - one_if(grid[x][y], counted) + one_if(material, counted),
{
    lemma_count_column_update(grid[x], y, material, counted);
    lemma_count_grid_update(grid, x, grid[x].update(y, material), counted);
}

/// Setting one cell of a well-formed grid leaves it well-formed, with the
/// same dimensions.
pub proof fn lemma_with_cell_keeps_shape(
    grid: Seq<Seq<TileType>>,
    x: int,
    y: int,
    material: TileType,
)
    requires
        well_formed(grid),
        in_grid(grid, x, y),
    ensures
        well_formed(with_cell(grid, x, y, material)),
        width_of(with_cell(grid, x, y, material)) == width_of(grid),
        height_of(with_cell(grid, x, y, material)) == height_of(grid),
{
    let after = with_cell(grid, x, y, material);
    assert(after[0].len() == grid[0].len());
    assert forall|cx: int| 0 <= cx < width_of(after) implies (#[trigger] after[cx]).len()
        == height_of(after) by {
        assert(grid[cx].len() == height_of(grid));
    }
}

/// A movement commit leaves the grid well-formed, with the same dimensions.
pub proof fn lemma_commit_keeps_shape(
    grid: Seq<Seq<TileType>>,
    mover: TileType,
    x: int,
    y: int,
    tx: int,
    ty: int,
)
    requires
        well_formed(grid),
        in_grid(grid, x, y),
        in_grid(grid, tx, ty),
    ensures
        well_formed(commit(grid, mover, x, y, tx, ty)),
        width_of(commit(grid, mover, x, y, tx, ty)) == width_of(grid),
        height_of(commit(grid, mover, x, y, tx, ty)) == height_of(grid),
{
    if grid[tx][ty] == TileType::Air {
        lemma_with_cell_keeps_shape(grid, tx, ty, mover);
        lemma_with_cell_keeps_shape(with_cell(grid, tx, ty, mover), x, y, TileType::Air);
    }
}

/// Conservation under a single commit: when the material that moves is the
/// one its source cell holds, the commit changes no material's count. A move
/// changes where a material is, never how much of it there is.
pub proof fn lemma_commit_conserves(
    grid: Seq<Seq<TileType>>,
    mover: TileType,
    x: int,
    y: int,
    tx: int,
    ty: int,
    counted: TileType,
)
    requires
        well_formed(grid),
        in_grid(grid, x, y),
        in_grid(grid, tx, ty),
        grid[x][y] == mover,
    ensures
        count_in_grid(commit(grid, mover, x, y, tx, ty), counted) == count_in_grid(grid, counted),
{
    if grid[tx][ty] == TileType::Air {
        let placed = with_cell(grid, tx, ty, mover);
        lemma_count_with_cell(grid, tx, ty, mover, counted);
        lemma_with_cell_keeps_shape(grid, tx, ty, mover);
        assert(grid[x].len() == height_of(grid));
        assert(grid[tx].len() == height_of(grid));
        assert(placed[x][y] == mover);
        lemma_count_with_cell(placed, x, y, TileType::Air, counted);
    }
}

/// What a commit of sand or water from its own cell does to the cells: no
/// stone comes or goes, and an occupied cell other than the source keeps its
/// material.
proof fn lemma_commit_cells(
    grid: Seq<Seq<TileType>>,
    mover: TileType,
    x: int,
    y: int,
    tx: int,
    ty: int,
)
    requires
        well_formed(grid),
        in_grid(grid, x, y),
        in_grid(grid, tx, ty),
        movable(mover),
        grid[x][y] == mover,
    ensures
        forall|cx: int, cy: int|
            in_grid(grid, cx, cy) ==> ((#[trigger] commit(grid, mover, x, y, tx, ty)[cx][cy]
                == TileType::Stone) <==> grid[cx][cy] == TileType::Stone),
        forall|cx: int, cy: int|
            in_grid(grid, cx, cy) && (cx != x || cy != y) && grid[cx][cy] != TileType::Air
                ==> #[trigger] commit(grid, mover, x, y, tx, ty)[cx][cy] == grid[cx][cy],
{
    let after = commit(grid, mover, x, y, tx, ty);
    assert forall|cx: int, cy: int| in_grid(grid, cx, cy) implies ((#[trigger] after[cx][cy]
        == TileType::Stone) <==> grid[cx][cy] == TileType::Stone) && ((cx != x || cy != y)
        && grid[cx][cy] != TileType::Air ==> after[cx][cy] == grid[cx][cy]) by {
        assert(grid[cx].len() == height_of(grid));
        assert(grid[x].len() == height_of(grid));
        assert(grid[tx].len() == height_of(grid));
    }
}

/// The cell that the rule for `mover` aims at from `(x, y)`.
spec fn aim(
    grid: Seq<Seq<TileType>>,
    mover: TileType,
    x: int,
    y: int,
    direction_draw: int,
    slide_draw: int,
) -> (int, int) {
    let offset = if mover == TileType::Sand {
        sand_offset(grid, x, y, direction_draw)
    } else {
        water_offset(grid, x, y, direction_draw, slide_draw)
    };
    target_of(grid, x, y, offset.0, offset.1)
}

/// A visit of sand or water is a commit to a cell of the grid.
proof fn lemma_visit_is_commit(
    grid: Seq<Seq<TileType>>,
    mover: TileType,
    x: int,
    y: int,
    direction_draw: int,
    slide_draw: int,
)
    requires
        well_formed(grid),
        in_grid(grid, x, y),
        movable(mover),
    ensures
        in_grid(
            grid,
            aim(grid, mover, x, y, direction_draw, slide_draw).0,
            aim(grid, mover, x, y, direction_draw, slide_draw).1,
        ),
        visit(grid, mover, x, y, direction_draw, slide_draw) == commit(
            grid,
            mover,
            x,
            y,
            aim(grid, mover, x, y, direction_draw, slide_draw).0,
            aim(grid, mover, x, y, direction_draw, slide_draw).1,
        ),
{
}

/// A visit leaves the grid well-formed, with the dimensions it had.
pub proof fn lemma_visit_keeps_shape(
    grid: Seq<Seq<TileType>>,
    mover: TileType,
    x: int,
    y: int,
    direction_draw: int,
    slide_draw: int,
)
    requires
        well_formed(grid),
        in_grid(grid, x, y),
    ensures
        well_formed(visit(grid, mover, x, y, direction_draw, slide_draw)),
        width_of(visit(grid, mover, x, y, direction_draw, slide_draw)) == width_of(grid),
        height_of(visit(grid, mover, x, y, direction_draw, slide_draw)) == height_of(grid),
{
    if movable(mover) {
        let target = aim(grid, mover, x, y, direction_draw, slide_draw);
        lemma_visit_is_commit(grid, mover, x, y, direction_draw, slide_draw);
        lemma_commit_keeps_shape(grid, mover, x, y, target.0, target.1);
    }
}

/// The visits of the first `rows` cells of a column read only the draws of
/// those cells.
pub proof fn lemma_scan_column_reads_prefix(
    grid: Seq<Seq<TileType>>,
    start: Seq<Seq<TileType>>,
    x: int,
    draws: Seq<(int, int)>,
    other: Seq<(int, int)>,
    rows: nat,
)
    requires
        forall|y: int| 0 <= y < rows ==> draws[y] == other[y],
    ensures
        scan_column(grid, start, x, draws, rows) == scan_column(grid, start, x, other, rows),
    decreases rows,
{
    if rows > 0 {
        lemma_scan_column_reads_prefix(grid, start, x, draws, other, (rows - 1) as nat);
    }
}

/// The visits of the first `columns` columns read only the draws of those
/// columns.
pub proof fn lemma_scan_columns_reads_prefix(
    start: Seq<Seq<TileType>>,
    draws: Seq<Seq<(int, int)>>,
    other: Seq<Seq<(int, int)>>,
    columns: nat,
)
    requires
        forall|x: int| 0 <= x < columns ==> draws[x] == other[x],
    ensures
        scan_columns(start, draws, columns) == scan_columns(start, other, columns),
    decreases columns,
{
    if columns > 0 {
        lemma_scan_columns_reads_prefix(start, draws, other, (columns - 1) as nat);
    }
}

/// What the visited part of a tick has kept of the grid `start` it began
/// with: the shape, each material's count, the cells that hold stone, and the
/// sand and water of every cell that is still to be visited. The cells still to
/// be visited are those of the columns after `x` and, in column `x`, of the
/// rows from `rows` on.
spec fn kept(start: Seq<Seq<TileType>>, grid: Seq<Seq<TileType>>, x: int, rows: int) -> bool {
    &&& well_formed(grid)
    &&& width_of(grid) == width_of(start)
    &&& height_of(grid) == height_of(start)
    &&& forall|counted: TileType| #[trigger]
        count_in_grid(grid, counted) == count_in_grid(start, counted)
    &&& forall|cx: int, cy: int|
        in_grid(start, cx, cy) ==> ((#[trigger] grid[cx][cy] == TileType::Stone) <==> start[cx][cy]
            == TileType::Stone)
    &&& forall|cx: int, cy: int|
        in_grid(start, cx, cy) && (cx > x || (cx == x && cy >= rows)) && movable(start[cx][cy])
            ==> #[trigger] grid[cx][cy] == start[cx][cy]
}

/// One visit keeps what the tick has kept so far.
proof fn lemma_visit_keeps(
    start: Seq<Seq<TileType>>,
    grid: Seq<Seq<TileType>>,
    x: int,
    y: int,
    direction_draw: int,
    slide_draw: int,
)
    requires
        well_formed(start),
        in_grid(start, x, y),
        kept(start, grid, x, y),
    ensures
        kept(start, visit(grid, start[x][y], x, y, direction_draw, slide_draw), x, y + 1),
{
    let mover = start[x][y];
    let after = visit(grid, mover, x, y, direction_draw, slide_draw);
    if movable(mover) {
        let target = aim(grid, mover, x, y, direction_draw, slide_draw);
        lemma_visit_is_commit(grid, mover, x, y, direction_draw, slide_draw);
        assert(grid[x][y] == mover);
        lemma_commit_keeps_shape(grid, mover, x, y, target.0, target.1);
        lemma_commit_cells(grid, mover, x, y, target.0, target.1);
        assert forall|counted: TileType| #[trigger]
            count_in_grid(after, counted) == count_in_grid(start, counted) by {
            lemma_commit_conserves(grid, mover, x, y, target.0, target.1, counted);
        }
        assert forall|cx: int, cy: int| in_grid(start, cx, cy) implies ((#[trigger] after[cx][cy]
            == TileType::Stone) <==> start[cx][cy] == TileType::Stone) by {
            assert(in_grid(grid, cx, cy));
            assert((grid[cx][cy] == TileType::Stone) <==> start[cx][cy] == TileType::Stone);
        }
        assert forall|cx: int, cy: int|
            in_grid(start, cx, cy) && (cx > x || (cx == x && cy >= y + 1)) && movable(
                start[cx][cy],
            ) implies #[trigger] after[cx][cy] == start[cx][cy] by {
            assert(in_grid(grid, cx, cy));
            assert(grid[cx][cy] == start[cx][cy]);
        }
    }
}

/// Visiting the first `rows` cells of a column keeps what the tick has kept.
proof fn lemma_scan_column_keeps(
    start: Seq<Seq<TileType>>,
    grid: Seq<Seq<TileType>>,
    x: int,
    draws: Seq<(int, int)>,
    rows: nat,
)
    requires
        well_formed(start),
        0 <= x < width_of(start),
        rows <= height_of(start),
        kept(start, grid, x, 0),
    ensures
        kept(start, scan_column(grid, start, x, draws, rows), x, rows as int),
    decreases rows,
{
    if rows > 0 {
        let y = rows - 1;
        lemma_scan_column_keeps(start, grid, x, draws, y as nat);
        lemma_visit_keeps(
            start,
            scan_column(grid, start, x, draws, y as nat),
            x,
            y,
            draws[y].0,
            draws[y].1,
        );
    }
}

/// Visiting the first `columns` columns keeps what the tick began with.
proof fn lemma_scan_columns_keeps(
    start: Seq<Seq<TileType>>,
    draws: Seq<Seq<(int, int)>>,
    columns: nat,
)
    requires
        well_formed(start),
        columns <= width_of(start),
    ensures
        kept(start, scan_columns(start, draws, columns), columns as int, 0),
    decreases columns,
{
    if columns > 0 {
        let x = columns - 1;
        let before = scan_columns(start, draws, x as nat);
        lemma_scan_columns_keeps(start, draws, x as nat);
        lemma_scan_column_keeps(start, before, x, draws[x], height_of(start) as nat);
        let after = scan_column(before, start, x, draws[x], height_of(start) as nat);
        assert(kept(start, after, x, height_of(start)));
        assert(kept(start, after, x + 1, 0));
    }
}

/// A tick leaves the grid well-formed, with the dimensions it had.
pub proof fn lemma_step_keeps_shape(start: Seq<Seq<TileType>>, draws: Seq<Seq<(int, int)>>)
    requires
        well_formed(start),
    ensures
        well_formed(step(start, draws)),
        width_of(step(start, draws)) == width_of(start),
        height_of(step(start, draws)) == height_of(start),
{
    lemma_scan_columns_keeps(start, draws, width_of(start) as nat);
}

/// Conservation: whatever is drawn, a tick leaves the count of every material
/// as it was. No sand, water or stone is made or lost.
pub proof fn lemma_step_conserves(
    start: Seq<Seq<TileType>>,
    draws: Seq<Seq<(int, int)>>,
    counted: TileType,
)
    requires
        well_formed(start),
    ensures
        count_in_grid(step(start, draws), counted) == count_in_grid(start, counted),
{
    lemma_scan_columns_keeps(start, draws, width_of(start) as nat);
}

/// Stone is immovable: whatever is drawn, after a tick a cell holds stone if
/// and only if it held stone before.
pub proof fn lemma_step_keeps_stone(
    start: Seq<Seq<TileType>>,
    draws: Seq<Seq<(int, int)>>,
    x: int,
    y: int,
)
    requires
        well_formed(start),
        in_grid(start, x, y),
    ensures
        (step(start, draws)[x][y] == TileType::Stone) <==> start[x][y] == TileType::Stone,
{
    lemma_scan_columns_keeps(start, draws, width_of(start) as nat);
}

/// Visiting cells that held neither sand nor water changes nothing.
proof fn lemma_scan_column_at_rest(
    start: Seq<Seq<TileType>>,
    grid: Seq<Seq<TileType>>,
    x: int,
    draws: Seq<(int, int)>,
    rows: nat,
)
    requires
        at_rest(start),
        0 <= x < width_of(start),
        rows <= height_of(start),
    ensures
        scan_column(grid, start, x, draws, rows) == grid,
    decreases rows,
{
    if rows > 0 {
        let y = rows - 1;
        lemma_scan_column_at_rest(start, grid, x, draws, y as nat);
        assert(!movable(start[x][y]));
    }
}

/// Visiting columns that held neither sand nor water changes nothing.
proof fn lemma_scan_columns_at_rest(
    start: Seq<Seq<TileType>>,
    draws: Seq<Seq<(int, int)>>,
    columns: nat,
)
    requires
        well_formed(start),
        at_rest(start),
        columns <= width_of(start),
    ensures
        scan_columns(start, draws, columns) == start,
    decreases columns,
{
    if columns > 0 {
        let x = columns - 1;
        lemma_scan_columns_at_rest(start, draws, x as nat);
        lemma_scan_column_at_rest(start, start, x, draws[x], height_of(start) as nat);
    }
}

/// A grid that holds neither sand nor water is left exactly as it is by a
/// tick, whatever is drawn.
pub proof fn lemma_step_at_rest(start: Seq<Seq<TileType>>, draws: Seq<Seq<(int, int)>>)
    requires
        well_formed(start),
        at_rest(start),
    ensures
        step(start, draws) == start,
{
    lemma_scan_columns_at_rest(start, draws, width_of(start) as nat);
}

/// Any number of ticks leaves the grid well-formed, with the dimensions it had.
pub proof fn lemma_run_keeps_shape(
    start: Seq<Seq<TileType>>,
    draws: Seq<Seq<Seq<(int, int)>>>,
    ticks: nat,
)
    requires
        well_formed(start),
    ensures
        well_formed(run(start, draws, ticks)),
        width_of(run(start, draws, ticks)) == width_of(start),
        height_of(run(start, draws, ticks)) == height_of(start),
    decreases ticks,
{
    if ticks > 0 {
        lemma_run_keeps_shape(start, draws, (ticks - 1) as nat);
        lemma_step_keeps_shape(run(start, draws, (ticks - 1) as nat), draws[ticks - 1]);
    }
}

/// Conservation over time: whatever is drawn, any number of ticks leaves the
/// count of every material as it was.
pub proof fn lemma_run_conserves(
    start: Seq<Seq<TileType>>,
    draws: Seq<Seq<Seq<(int, int)>>>,
    ticks: nat,
    counted: TileType,
)
    requires
        well_formed(start),
    ensures
        count_in_grid(run(start, draws, ticks), counted) == count_in_grid(start, counted),
    decreases ticks,
{
    if ticks > 0 {
        lemma_run_keeps_shape(start, draws, (ticks - 1) as nat);
        lemma_run_conserves(start, draws, (ticks - 1) as nat, counted);
        lemma_step_conserves(run(start, draws, (ticks - 1) as nat), draws[ticks - 1], counted);
    }
}

/// Stone is immovable: whatever is drawn and however many ticks pass, a cell
/// holds stone afterwards if and only if it held stone at the start. A cell
/// that begins as stone stays stone at its coordinate for ever.
pub proof fn lemma_run_keeps_stone(
    start: Seq<Seq<TileType>>,
    draws: Seq<Seq<Seq<(int, int)>>>,
    ticks: nat,
    x: int,
    y: int,
)
    requires
        well_formed(start),
        in_grid(start, x, y),
    ensures
        (run(start, draws, ticks)[x][y] == TileType::Stone) <==> start[x][y] == TileType::Stone,
    decreases ticks,
{
    if ticks > 0 {
        lemma_run_keeps_shape(start, draws, (ticks - 1) as nat);
        lemma_run_keeps_stone(start, draws, (ticks - 1) as nat, x, y);
        lemma_step_keeps_stone(run(start, draws, (ticks - 1) as nat), draws[ticks - 1], x, y);
    }
}

/// A grid that holds stone in every cell is, cell for cell, the same grid
/// after any number of ticks.
pub proof fn lemma_full_stone_never_changes(
    start: Seq<Seq<TileType>>,
    draws: Seq<Seq<Seq<(int, int)>>>,
    ticks: nat,
)
    requires
        well_formed(start),
        full_of_stone(start),
    ensures
        run(start, draws, ticks) == start,
    decreases ticks,
{
    if ticks > 0 {
        lemma_full_stone_never_changes(start, draws, (ticks - 1) as nat);
        assert(at_rest(start)) by {
            assert forall|x: int, y: int|
                0 <= x < width_of(start) && 0 <= y < height_of(start) implies !movable(
                #[trigger] start[x][y],
            ) by {
                assert(start[x][y] == TileType::Stone);
            }
        }
        lemma_step_at_rest(start, draws[ticks - 1]);
    }
}

/// Straight down has priority: sand over a vacant cell falls into it,
/// whatever direction is drawn and in whatever column it stands.
pub proof fn lemma_sand_falls_when_free(
    grid: Seq<Seq<TileType>>,
    x: int,
    y: int,
    direction_draw: int,
)
    requires
        well_formed(grid),
        in_grid(grid, x, y),
        in_grid(grid, x, y + 1),
        grid[x][y + 1] == TileType::Air,
    ensures
        sand_step(grid, TileType::Sand, x, y, direction_draw) == with_cell(
            with_cell(grid, x, y + 1, TileType::Sand),
            x,
            y,
            TileType::Air,
        ),
{
}

/// The grid after the material of `(x, y)` has moved to the vacant cell `(tx, ty)`.
pub open spec fn moved(grid: Seq<Seq<TileType>>, x: int, y: int, tx: int, ty: int) -> Seq<
    Seq<TileType>,
> {
    with_cell(with_cell(grid, tx, ty, grid[x][y]), x, y, TileType::Air)
}

/// Blocked sand goes diagonal or stalls: where the cell below is not vacant,
/// sand either stays where it is or moves to the lower neighbour on the left
/// or on the right, each clamped onto the grid. It never replaces what it
/// stands on and never leaves the grid.
pub proof fn lemma_blocked_sand_goes_diagonal_or_stalls(
    grid: Seq<Seq<TileType>>,
    x: int,
    y: int,
    direction_draw: int,
)
    requires
        well_formed(grid),
        in_grid(grid, x, y),
        grid[x][y] == TileType::Sand,
        !can_fall(grid, x, y),
    ensures
        ({
            let after = sand_step(grid, TileType::Sand, x, y, direction_draw);
            let left = target_of(grid, x, y, -1, 1);
            let right = target_of(grid, x, y, 1, 1);
            &&& same_shape(grid, after)
            &&& in_grid(grid, left.0, left.1)
            &&& in_grid(grid, right.0, right.1)
            &&& after == grid || (grid[left.0][left.1] == TileType::Air && after == moved(
                grid,
                x,
                y,
                left.0,
                left.1,
            )) || (grid[right.0][right.1] == TileType::Air && after == moved(
                grid,
                x,
                y,
                right.0,
                right.1,
            ))
        }),
{
    lemma_visit_keeps_shape(grid, TileType::Sand, x, y, direction_draw, 0);
}

/// Blocked water spreads further than one cell: where the cell below is not
/// vacant, a cell directly beside the water is, and the cell at the drawn
/// distance to the drawn side is a vacant cell of the grid, the water moves
/// that whole distance within the tick, and the distance is at least two cells.
pub proof fn lemma_blocked_water_slides_drawn_distance(
    grid: Seq<Seq<TileType>>,
    x: int,
    y: int,
    direction_draw: int,
    slide_draw: int,
)
    requires
        well_formed(grid),
        in_grid(grid, x, y),
        grid[x][y] == TileType::Water,
        !can_fall(grid, x, y),
        has_vacant_side(grid, x, y),
        slide_in_range(slide_draw),
        in_grid(grid, x + toward(direction_draw, slide_draw), y),
        grid[x + toward(direction_draw, slide_draw)][y] == TileType::Air,
    ensures
        water_step(grid, TileType::Water, x, y, direction_draw, slide_draw) == moved(
            grid,
            x,
            y,
            x + toward(direction_draw, slide_draw),
            y,
        ),
        toward(direction_draw, slide_draw) >= 2 || toward(direction_draw, slide_draw) <= -2,
{
}

} // verus!
