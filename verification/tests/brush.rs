use pixsand::brush::{resize_brush, LARGEST_BRUSH, SMALLEST_BRUSH};
use pixsand::tile::TileType;
use pixsand::world::TileWorld;

fn painted_cells(world: &TileWorld, material: TileType) -> Vec<(usize, usize)> {
    let mut found = Vec::new();
    for x in 0..world.width() {
        for y in 0..world.height() {
            if world.get(x, y) == Ok(material) {
                found.push((x, y));
            }
        }
    }
    found
}

#[test]
fn brush_limits() {
    assert_eq!(SMALLEST_BRUSH, 1);
    assert_eq!(LARGEST_BRUSH, 20);
}

#[test]
fn wheel_resizes_the_brush_within_its_limits() {
    assert_eq!(resize_brush(8, 1), 9);
    assert_eq!(resize_brush(8, -1), 7);
    assert_eq!(resize_brush(8, 0), 8);
    assert_eq!(resize_brush(8, 120), 9);
    assert_eq!(resize_brush(8, i32::MIN), 7);
    assert_eq!(resize_brush(19, 1), 20);
    assert_eq!(resize_brush(20, 1), 20);
    assert_eq!(resize_brush(20, -1), 19);
    assert_eq!(resize_brush(2, -1), 1);
    assert_eq!(resize_brush(1, -1), 1);
    assert_eq!(resize_brush(1, 1), 2);
}

#[test]
fn brush_of_one_paints_the_tile_under_it() {
    let mut world = TileWorld::create(5, 4).unwrap();
    world.modify_tiles(3, 2, TileType::Sand, 1);
    assert_eq!(painted_cells(&world, TileType::Sand), vec![(3, 2)]);
}

#[test]
fn brush_reaches_half_its_side_up_and_left() {
    let mut world = TileWorld::create(8, 8).unwrap();
    world.modify_tiles(4, 4, TileType::Water, 3);
    let mut expected = Vec::new();
    for x in 3..6 {
        for y in 3..6 {
            expected.push((x, y));
        }
    }
    assert_eq!(painted_cells(&world, TileType::Water), expected);
    let mut world = TileWorld::create(8, 8).unwrap();
    world.modify_tiles(4, 4, TileType::Water, 4);
    let mut expected = Vec::new();
    for x in 2..6 {
        for y in 2..6 {
            expected.push((x, y));
        }
    }
    assert_eq!(painted_cells(&world, TileType::Water), expected);
}

#[test]
fn brush_is_cut_off_at_the_edges() {
    let mut world = TileWorld::create(6, 5).unwrap();
    world.modify_tiles(0, 0, TileType::Stone, 4);
    assert_eq!(painted_cells(&world, TileType::Stone), vec![(0, 0), (0, 1), (1, 0), (1, 1)]);
    let mut world = TileWorld::create(6, 5).unwrap();
    world.modify_tiles(5, 4, TileType::Stone, 4);
    assert_eq!(
        painted_cells(&world, TileType::Stone),
        vec![(3, 2), (3, 3), (3, 4), (4, 2), (4, 3), (4, 4), (5, 2), (5, 3), (5, 4)]
    );
    let mut world = TileWorld::create(6, 5).unwrap();
    world.modify_tiles(6, 5, TileType::Stone, 4);
    assert_eq!(painted_cells(&world, TileType::Stone), vec![(4, 3), (4, 4), (5, 3), (5, 4)]);
}

#[test]
fn brush_far_from_the_world_paints_nothing() {
    let mut world = TileWorld::create(6, 5).unwrap();
    world.modify_tiles(40, 2, TileType::Sand, 8);
    world.modify_tiles(2, 40, TileType::Sand, 8);
    world.modify_tiles(usize::MAX, usize::MAX, TileType::Sand, 20);
    world.modify_tiles(3, 3, TileType::Sand, 0);
    assert_eq!(painted_cells(&world, TileType::Air).len(), 30);
}

#[test]
fn large_brush_covers_the_world() {
    let mut world = TileWorld::create(6, 5).unwrap();
    world.modify_tiles(3, 2, TileType::Sand, usize::MAX);
    assert_eq!(painted_cells(&world, TileType::Sand).len(), 30);
}

#[test]
fn erasing_brush_overwrites_what_is_there() {
    let mut world = TileWorld::create(4, 4).unwrap();
    world.modify_tiles(2, 2, TileType::Stone, 4);
    assert_eq!(painted_cells(&world, TileType::Stone).len(), 16);
    world.modify_tiles(1, 1, TileType::Air, 2);
    assert_eq!(painted_cells(&world, TileType::Air), vec![(0, 0), (0, 1), (1, 0), (1, 1)]);
    assert_eq!(painted_cells(&world, TileType::Stone).len(), 12);
}
