use maplibre::coords::{WorldTileCoords, ZoomLevel};
use maplibre::sdf::collision_system::canonical_tile;

#[test]
fn canonical_symbol_tile_wraps_antimeridian_copies() {
    let zoom = ZoomLevel::new(2);

    assert_eq!(
        canonical_tile(WorldTileCoords {
            x: -1,
            y: 1,
            z: zoom
        })
        .map(|tile| tile.x),
        Some(3)
    );
    assert_eq!(
        canonical_tile(WorldTileCoords {
            x: 4,
            y: 1,
            z: zoom
        })
        .map(|tile| tile.x),
        Some(0)
    );
}

#[test]
fn canonical_symbol_tile_rejects_polar_overflow() {
    let zoom = ZoomLevel::new(2);

    assert!(canonical_tile(WorldTileCoords {
        x: 0,
        y: -1,
        z: zoom
    })
    .is_none());
    assert!(canonical_tile(WorldTileCoords {
        x: 0,
        y: 4,
        z: zoom
    })
    .is_none());
}

#[test]
fn canonical_tile_keeps_row_and_zoom() {
    let t = canonical_tile(WorldTileCoords { x: -9, y: 7, z: ZoomLevel::new(3) }).unwrap();
    assert_eq!(t.x, 7);
    assert_eq!(t.y, 7);
    assert_eq!(t.z, ZoomLevel::new(3));
}

#[test]
fn canonical_tile_at_zoom_zero_has_one_tile() {
    let t = canonical_tile(WorldTileCoords { x: 5, y: 0, z: ZoomLevel::new(0) }).unwrap();
    assert_eq!(t.x, 0);
    assert!(canonical_tile(WorldTileCoords { x: 0, y: 1, z: ZoomLevel::new(0) }).is_none());
}

#[test]
fn canonical_tile_rejects_zoom_whose_tile_count_exceeds_i32() {
    assert!(canonical_tile(WorldTileCoords { x: 0, y: 0, z: ZoomLevel::new(31) }).is_none());
    let t = canonical_tile(WorldTileCoords { x: -1, y: 5, z: ZoomLevel::new(30) }).unwrap();
    assert_eq!(t.x, (1u32 << 30) - 1);
}
