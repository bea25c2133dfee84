use gardening::tile::atlas_rect_for_kind;
use gardening::tile::AtlasRect;
use gardening::tile::Tile;

#[test]
fn kind_indices_are_stable() {
    assert_eq!(Tile::Air.tile_id(), 0);
    assert_eq!(Tile::Grass.tile_id(), 1);
    assert_eq!(Tile::Plant(false).tile_id(), 2);
    assert_eq!(Tile::Plant(true).tile_id(), 3);
}

#[test]
fn air_has_no_texture_rect() {
    assert_eq!(Tile::Air.texture_rect(), None);
}

#[test]
fn visible_tiles_map_to_their_atlas_cells() {
    assert_eq!(
        Tile::Grass.texture_rect(),
        Some(AtlasRect { left: 32, top: 0, width: 32, height: 32 })
    );
    assert_eq!(
        Tile::Plant(false).texture_rect(),
        Some(AtlasRect { left: 64, top: 0, width: 32, height: 32 })
    );
    assert_eq!(
        Tile::Plant(true).texture_rect(),
        Some(AtlasRect { left: 96, top: 0, width: 32, height: 32 })
    );
}

#[test]
fn atlas_mapping_wraps_to_the_next_line() {
    let r3 = atlas_rect_for_kind(3);
    assert_eq!((r3.left, r3.top, r3.width, r3.height), (96, 0, 32, 32));
    let r16 = atlas_rect_for_kind(16);
    assert_eq!((r16.left, r16.top, r16.width, r16.height), (0, 32, 32, 32));
}
