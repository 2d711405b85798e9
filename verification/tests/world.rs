use pixsand::tile::{Rgba, Tile, TileType};
use pixsand::world::{TileWorld, WorldError};

fn world(width: usize, height: usize) -> TileWorld {
    TileWorld::create(width, height).unwrap()
}

fn count(world: &TileWorld, material: TileType) -> usize {
    let mut found = 0;
    for x in 0..world.width() {
        for y in 0..world.height() {
            if world.get(x, y) == Ok(material) {
                found += 1;
            }
        }
    }
    found
}

fn cells(world: &TileWorld) -> Vec<Vec<TileType>> {
    (0..world.width())
        .map(|x| (0..world.height()).map(|y| world.get(x, y).unwrap()).collect())
        .collect()
}

#[test]
fn create_gives_a_vacant_world_of_the_given_size() {
    let made = world(4, 3);
    assert_eq!(made.width(), 4);
    assert_eq!(made.height(), 3);
    for x in 0..4 {
        for y in 0..3 {
            assert_eq!(made.get(x, y), Ok(TileType::Air));
        }
    }
    assert_eq!(count(&made, TileType::Air), 12);
}

#[test]
fn create_refuses_an_empty_dimension() {
    assert!(matches!(TileWorld::create(0, 5), Err(WorldError::InvalidDimensions)));
    assert!(matches!(TileWorld::create(5, 0), Err(WorldError::InvalidDimensions)));
    assert!(matches!(TileWorld::create(0, 0), Err(WorldError::InvalidDimensions)));
    assert!(TileWorld::create(1, 1).is_ok());
}

#[test]
fn get_outside_the_world_is_out_of_bounds() {
    let made = world(3, 2);
    assert_eq!(made.get(3, 0), Err(WorldError::OutOfBounds));
    assert_eq!(made.get(0, 2), Err(WorldError::OutOfBounds));
    assert_eq!(made.get(usize::MAX, usize::MAX), Err(WorldError::OutOfBounds));
    assert_eq!(made.get(2, 1), Ok(TileType::Air));
}

#[test]
fn set_writes_one_tile_and_refuses_outside() {
    let mut made = world(3, 2);
    assert_eq!(made.set(2, 1, TileType::Water), Ok(()));
    assert_eq!(made.get(2, 1), Ok(TileType::Water));
    assert_eq!(count(&made, TileType::Water), 1);
    assert_eq!(count(&made, TileType::Air), 5);
    let before = cells(&made);
    assert_eq!(made.set(3, 1, TileType::Stone), Err(WorldError::OutOfBounds));
    assert_eq!(made.set(2, 2, TileType::Stone), Err(WorldError::OutOfBounds));
    assert_eq!(cells(&made), before);
}

#[test]
fn sample_reads_the_nearest_tile_for_a_coordinate_off_the_world() {
    let mut made = world(3, 2);
    made.set(0, 0, TileType::Sand).unwrap();
    made.set(2, 1, TileType::Stone).unwrap();
    made.set(1, 1, TileType::Water).unwrap();
    assert_eq!(made.sample(0, 0, -1, 0), TileType::Sand);
    assert_eq!(made.sample(0, 0, -1, -1), TileType::Sand);
    assert_eq!(made.sample(0, 0, 0, 0), TileType::Sand);
    assert_eq!(made.sample(2, 1, 1, 1), TileType::Stone);
    assert_eq!(made.sample(2, 1, 0, 1), TileType::Stone);
    assert_eq!(made.sample(1, 0, 0, 1), TileType::Water);
    assert_eq!(made.sample(1, 1, 0, 5), TileType::Water);
    assert_eq!(made.sample(0, 1, 9, 0), TileType::Stone);
    assert_eq!(made.sample(2, 0, -7, isize::MIN), TileType::Sand);
    assert_eq!(made.sample(0, 0, isize::MAX, isize::MAX), TileType::Stone);
    assert_eq!(made.sample(1, 0, 1, 0), TileType::Air);
}

#[test]
fn sand_gravity() {
    let mut made = world(3, 3);
    made.set(1, 0, TileType::Sand).unwrap();
    made.update_sim();
    assert_eq!(made.get(1, 1), Ok(TileType::Sand));
    assert_eq!(made.get(1, 0), Ok(TileType::Air));
    assert_eq!(count(&made, TileType::Sand), 1);
    assert_eq!(count(&made, TileType::Air), 8);
}

#[test]
fn blocked_fall_goes_diagonal_or_stalls() {
    for _ in 0..200 {
        let mut made = world(3, 2);
        made.set(1, 0, TileType::Sand).unwrap();
        made.set(1, 1, TileType::Sand).unwrap();
        made.update_sim();
        assert_eq!(count(&made, TileType::Sand), 2);
        assert_eq!(count(&made, TileType::Air), 4);
        assert_eq!(made.get(0, 0), Ok(TileType::Air));
        assert_eq!(made.get(2, 0), Ok(TileType::Air));
        let stalled = made.get(1, 0) == Ok(TileType::Sand);
        let went_left = made.get(0, 1) == Ok(TileType::Sand);
        let went_right = made.get(2, 1) == Ok(TileType::Sand);
        assert!(stalled || went_left || went_right);
    }
}

#[test]
fn water_spreads_further_than_one_cell() {
    let mut leaps = 0;
    let mut lefts = 0;
    let mut rights = 0;
    let mut distances = [0usize; 6];
    for _ in 0..400 {
        let mut made = world(21, 2);
        for x in 0..21 {
            made.set(x, 1, TileType::Stone).unwrap();
        }
        made.set(10, 0, TileType::Water).unwrap();
        made.update_sim();
        assert_eq!(count(&made, TileType::Water), 1);
        assert_eq!(count(&made, TileType::Stone), 21);
        let at = (0..21).find(|x| made.get(*x, 0) == Ok(TileType::Water)).unwrap();
        let distance = if at > 10 { at - 10 } else { 10 - at };
        assert!((2..6).contains(&distance));
        distances[distance] += 1;
        if distance > 1 {
            leaps += 1;
        }
        if at > 10 {
            rights += 1;
        } else {
            lefts += 1;
        }
    }
    assert!(leaps > 0);
    assert!(lefts > 0);
    assert!(rights > 0);
    assert!(distances.iter().filter(|seen| **seen > 0).count() >= 2);
}

#[test]
fn sand_at_the_left_edge_falls_straight_down() {
    let mut made = world(3, 3);
    made.set(0, 0, TileType::Sand).unwrap();
    made.update_sim();
    assert_eq!(made.get(0, 1), Ok(TileType::Sand));
    assert_eq!(made.get(0, 0), Ok(TileType::Air));
    assert_eq!(count(&made, TileType::Sand), 1);
}

#[test]
fn sand_at_the_right_edge_falls_straight_down() {
    let mut made = world(3, 3);
    made.set(2, 0, TileType::Sand).unwrap();
    made.update_sim();
    assert_eq!(made.get(2, 1), Ok(TileType::Sand));
    assert_eq!(made.get(2, 0), Ok(TileType::Air));
}

#[test]
fn full_stone_world_never_changes() {
    let mut made = world(5, 4);
    for x in 0..5 {
        for y in 0..4 {
            made.set(x, y, TileType::Stone).unwrap();
        }
    }
    let before = cells(&made);
    for _ in 0..25 {
        made.update_sim();
        assert_eq!(cells(&made), before);
    }
    assert_eq!(made.width(), 5);
    assert_eq!(made.height(), 4);
}

#[test]
fn full_stone_world_is_the_same_world_after_steps() {
    let mut made = world(6, 3);
    for x in 0..6 {
        for y in 0..3 {
            made.set(x, y, TileType::Stone).unwrap();
        }
    }
    let before = made.clone();
    for _ in 0..40 {
        made.update_sim();
    }
    assert_eq!(made, before);
    made.set(0, 0, TileType::Sand).unwrap();
    assert_ne!(made, before);
}

#[test]
fn vacant_world_never_changes() {
    let mut made = world(4, 4);
    for _ in 0..5 {
        made.update_sim();
    }
    assert_eq!(count(&made, TileType::Air), 16);
}

fn mixed_world() -> TileWorld {
    let mut made = world(9, 7);
    for x in 0..9 {
        for y in 0..7 {
            let material = match (x * 5 + y * 3) % 7 {
                0 | 1 => TileType::Sand,
                2 | 3 => TileType::Water,
                4 => TileType::Stone,
                _ => TileType::Air,
            };
            made.set(x, y, material).unwrap();
        }
    }
    made
}

#[test]
fn steps_conserve_every_material() {
    let mut made = mixed_world();
    let sand = count(&made, TileType::Sand);
    let water = count(&made, TileType::Water);
    let stone = count(&made, TileType::Stone);
    let air = count(&made, TileType::Air);
    assert_eq!(sand + water + stone + air, 63);
    assert!(sand > 0 && water > 0 && stone > 0 && air > 0);
    for _ in 0..60 {
        made.update_sim();
        assert_eq!(count(&made, TileType::Sand), sand);
        assert_eq!(count(&made, TileType::Water), water);
        assert_eq!(count(&made, TileType::Stone), stone);
        assert_eq!(count(&made, TileType::Air), air);
        assert_eq!(made.width(), 9);
        assert_eq!(made.height(), 7);
    }
}

#[test]
fn stone_stays_where_it_is() {
    let mut made = mixed_world();
    let before = cells(&made);
    for _ in 0..60 {
        made.update_sim();
        let now = cells(&made);
        for x in 0..9 {
            for y in 0..7 {
                assert_eq!(now[x][y] == TileType::Stone, before[x][y] == TileType::Stone);
            }
        }
    }
}

#[test]
fn a_tile_moves_at_most_once_in_a_tick() {
    let mut made = world(1, 4);
    made.set(0, 0, TileType::Sand).unwrap();
    made.update_sim();
    assert_eq!(
        cells(&made),
        vec![vec![TileType::Air, TileType::Sand, TileType::Air, TileType::Air]]
    );
    made.update_sim();
    made.update_sim();
    assert_eq!(
        cells(&made),
        vec![vec![TileType::Air, TileType::Air, TileType::Air, TileType::Sand]]
    );
    made.update_sim();
    assert_eq!(
        cells(&made),
        vec![vec![TileType::Air, TileType::Air, TileType::Air, TileType::Sand]]
    );
}

#[test]
fn a_tile_above_another_waits_for_it_to_leave() {
    let mut made = world(1, 3);
    made.set(0, 0, TileType::Sand).unwrap();
    made.set(0, 1, TileType::Sand).unwrap();
    made.update_sim();
    assert_eq!(cells(&made), vec![vec![TileType::Sand, TileType::Air, TileType::Sand]]);
    made.update_sim();
    assert_eq!(cells(&made), vec![vec![TileType::Air, TileType::Sand, TileType::Sand]]);
    made.update_sim();
    assert_eq!(cells(&made), vec![vec![TileType::Air, TileType::Sand, TileType::Sand]]);
}

#[test]
fn water_falls_before_it_spreads() {
    let mut made = world(5, 3);
    made.set(2, 0, TileType::Water).unwrap();
    made.update_sim();
    assert_eq!(made.get(2, 1), Ok(TileType::Water));
    assert_eq!(count(&made, TileType::Water), 1);
    made.update_sim();
    assert_eq!(made.get(2, 2), Ok(TileType::Water));
}

#[test]
fn enclosed_water_stays() {
    let mut made = world(3, 2);
    for x in 0..3 {
        made.set(x, 1, TileType::Stone).unwrap();
    }
    made.set(0, 0, TileType::Stone).unwrap();
    made.set(2, 0, TileType::Stone).unwrap();
    made.set(1, 0, TileType::Water).unwrap();
    let before = cells(&made);
    for _ in 0..30 {
        made.update_sim();
        assert_eq!(cells(&made), before);
    }
}

#[test]
fn colors_are_fixed_per_material() {
    assert_eq!(TileType::Air.color(), Rgba { red: 0, green: 0, blue: 0, alpha: 1000 });
    assert_eq!(TileType::Sand.color(), Rgba { red: 990, green: 980, blue: 0, alpha: 1000 });
    assert_eq!(TileType::Water.color(), Rgba { red: 0, green: 0, blue: 800, alpha: 1000 });
    assert_eq!(TileType::Stone.color(), Rgba { red: 502, green: 502, blue: 502, alpha: 1000 });
    assert_eq!(Tile::new(TileType::Sand).color(), TileType::Sand.color());
    assert_eq!(Tile::new(TileType::Stone).color(), TileType::Stone.color());
    let shown = TileType::Stone.color().red as f32 / 1000.0;
    assert!((shown - 0.502).abs() < 1e-6);
}

#[test]
fn names_and_brush_cycle() {
    assert_eq!(TileType::Air.name(), "Air");
    assert_eq!(TileType::Sand.name(), "Sand");
    assert_eq!(TileType::Water.name(), "Water");
    assert_eq!(TileType::Stone.name(), "Stone");
    assert_eq!(TileType::Air.next_brush(), TileType::Sand);
    assert_eq!(TileType::Sand.next_brush(), TileType::Water);
    assert_eq!(TileType::Water.next_brush(), TileType::Stone);
    assert_eq!(TileType::Stone.next_brush(), TileType::Sand);
    assert!(TileType::Sand.is_movable());
    assert!(TileType::Water.is_movable());
    assert!(!TileType::Air.is_movable());
    assert!(!TileType::Stone.is_movable());
    assert_eq!(Tile::new(TileType::Water).filled, TileType::Water);
}
