use gardening::render::draw_commands;
use gardening::render::tile_coords_to_px;
use gardening::render::DrawCommand;
use gardening::tile::AtlasRect;
use gardening::tile::Tile;
use gardening::world::World;

#[test]
fn projection_matches_the_isometric_formula() {
    assert_eq!(tile_coords_to_px(0, 0, 0), (0, 0));
    assert_eq!(tile_coords_to_px(1, 0, 0), (16, 8));
    assert_eq!(tile_coords_to_px(0, 0, 1), (-16, 8));
    // One step up the vertical axis moves a tile up by two quarter-units.
    assert_eq!(tile_coords_to_px(0, 1, 0), (0, -16));
    assert_eq!(tile_coords_to_px(4, 1, 2), (32, 32));
}

#[test]
fn traversal_is_deterministic() {
    let mut w = World::new_flat(5, 2, 10);
    w.set_tile(4, 1, 2, Tile::Plant(true));
    let first = draw_commands(&w);
    let second = draw_commands(&w);
    assert_eq!(first, second);
}

#[test]
fn all_air_world_draws_nothing() {
    let mut w = World::new_flat(2, 2, 2);
    for x in 0..2i64 {
        for z in 0..2i64 {
            w.set_tile(x, 0, z, Tile::Air);
        }
    }
    assert_eq!(draw_commands(&w), Vec::new());
}

#[test]
fn commands_come_in_canonical_order_with_projected_positions() {
    let w = World::new_flat(2, 1, 2);
    let grass = AtlasRect { left: 32, top: 0, width: 32, height: 32 };
    let expected = vec![
        DrawCommand { px_x: 0, px_y: 0, rect: grass },
        DrawCommand { px_x: -16, px_y: 8, rect: grass },
        DrawCommand { px_x: 16, px_y: 8, rect: grass },
        DrawCommand { px_x: 0, px_y: 16, rect: grass },
    ];
    assert_eq!(draw_commands(&w), expected);
}

#[test]
fn one_command_per_visible_tile() {
    let mut w = World::new_flat(5, 2, 10);
    w.set_tile(4, 1, 2, Tile::Plant(true));
    let cmds = draw_commands(&w);
    // 50 ground tiles plus the one planted tile.
    assert_eq!(cmds.len(), 51);
    let plant = AtlasRect { left: 96, top: 0, width: 32, height: 32 };
    let plant_cmds: Vec<&DrawCommand> = cmds.iter().filter(|c| c.rect == plant).collect();
    assert_eq!(plant_cmds.len(), 1);
    // The planted cell (4, 1, 2) projects to (32, 32).
    assert_eq!((plant_cmds[0].px_x, plant_cmds[0].px_y), (32, 32));
    // Higher levels are drawn after lower ones (painter's algorithm).
    assert_eq!(cmds.last().unwrap().rect, plant);
}
