use gardening::tile::Tile;
use gardening::world::World;

fn snapshot(w: &World) -> Vec<Option<Tile>> {
    let mut tiles = Vec::new();
    for y in 0..w.size_y() as i64 {
        for x in 0..w.size_x() as i64 {
            for z in 0..w.size_z() as i64 {
                tiles.push(w.get_tile(x, y, z));
            }
        }
    }
    tiles
}

#[test]
fn index_round_trip_is_injective() {
    let w = World::new_flat(4, 3, 5);
    let mut seen: Vec<usize> = Vec::new();
    for x in 0..4i64 {
        for y in 0..3i64 {
            for z in 0..5i64 {
                let i = w.get_index(x, y, z).expect("in-range coordinate");
                assert_eq!(i, x as usize + y as usize * 4 + z as usize * 4 * 3);
                assert!(i < 4 * 3 * 5);
                assert!(!seen.contains(&i), "index {i} repeated");
                seen.push(i);
            }
        }
    }
    assert_eq!(seen.len(), 4 * 3 * 5);
}

#[test]
fn out_of_bounds_reads_are_misses() {
    let w = World::new_flat(5, 2, 10);
    assert_eq!(w.get_tile(-1, 0, 0), None);
    assert_eq!(w.get_tile(0, -1, 0), None);
    assert_eq!(w.get_tile(0, 0, -1), None);
    assert_eq!(w.get_tile(5, 0, 0), None);
    assert_eq!(w.get_tile(0, 2, 0), None);
    assert_eq!(w.get_tile(0, 0, 10), None);
    assert_eq!(w.get_index(5, 0, 0), None);
    assert_eq!(w.get_index(i64::MAX, 0, 0), None);
    assert_eq!(w.get_index(i64::MIN, 0, 0), None);
}

#[test]
fn out_of_bounds_writes_leave_the_grid_unchanged() {
    let mut w = World::new_flat(5, 2, 10);
    let before = snapshot(&w);
    w.set_tile(-1, 0, 0, Tile::Plant(true));
    w.set_tile(5, 0, 0, Tile::Plant(true));
    w.set_tile(0, 2, 0, Tile::Plant(true));
    w.set_tile(0, 0, 10, Tile::Plant(true));
    w.set_tile(i64::MIN, i64::MAX, 3, Tile::Plant(false));
    assert_eq!(snapshot(&w), before);
}

#[test]
fn new_flat_puts_grass_on_the_ground_level_only() {
    let w = World::new_flat(5, 2, 10);
    for x in 0..5i64 {
        for z in 0..10i64 {
            assert_eq!(w.get_tile(x, 0, z), Some(Tile::Grass));
            assert_eq!(w.get_tile(x, 1, z), Some(Tile::Air));
        }
    }
}

#[test]
fn zero_sized_dimension_yields_an_empty_grid() {
    let w = World::new_flat(3, 0, 4);
    assert_eq!(w.get_tile(0, 0, 0), None);
    assert_eq!(snapshot(&w), Vec::new());
}

#[test]
fn set_then_get_returns_the_written_tile() {
    let mut w = World::new_flat(5, 2, 10);
    w.set_tile(4, 1, 2, Tile::Plant(true));
    assert_eq!(w.get_tile(4, 1, 2), Some(Tile::Plant(true)));
    w.set_tile(4, 1, 2, Tile::Plant(false));
    assert_eq!(w.get_tile(4, 1, 2), Some(Tile::Plant(false)));
    assert_eq!(w.get_tile(4, 0, 2), Some(Tile::Grass));
    assert_eq!(w.get_tile(3, 1, 2), Some(Tile::Air));
}
