use gomoku_tiles::spawner::spawn_visible_tiles;
use gomoku_tiles::spawner::tile_size;
use gomoku_tiles::tiles::ImageHandle;
use gomoku_tiles::tiles::TileArena;
use gomoku_tiles::tiles::TileGrid;

const TEX: ImageHandle = ImageHandle { id: 42 };

// Positions and sizes are in subpixels, VISIBLE_TILES (17) to the pixel, so
// a window of 1360 pixels on its shorter side gives tiles of 1360 subpixels,
// i.e. 1360 / 17 = 80 pixels.

#[test]
fn tile_size_is_shorter_window_side() {
    assert_eq!(tile_size(1360, 1360), 1360);
    assert_eq!(tile_size(100, 90), 90);
    assert_eq!(tile_size(90, 100), 90);
    assert_eq!(tile_size(0, 7), 0);
}

#[test]
fn tile_size_doubles_with_the_window() {
    // Doubling the window doubles the tile size; VISIBLE_TILES stays fixed.
    assert_eq!(tile_size(2 * 680, 2 * 680), 2 * tile_size(680, 680));
    assert_eq!(tile_size(2 * 100, 2 * 90), 2 * tile_size(100, 90));
}

#[test]
fn first_tick_fills_the_whole_board() {
    let mut grid = TileGrid::new();
    let mut arena = TileArena::new();
    spawn_visible_tiles(&mut grid, &mut arena, 0, 0, 1360, 1360, TEX);
    // 17x17 = 289 swept candidates, of which the 13x13 = 169 in-bounds
    // coordinates get a tile and the other 120 are skipped.
    assert_eq!(grid.len(), 169);
    assert_eq!(arena.len(), 169);
    for gx in 0..13 {
        for gy in 0..13 {
            assert!(grid.contains(gx, gy));
        }
    }
}

#[test]
fn second_tick_changes_nothing() {
    let mut grid = TileGrid::new();
    let mut arena = TileArena::new();
    spawn_visible_tiles(&mut grid, &mut arena, 0, 0, 1360, 1360, TEX);
    let centre_before = grid.get(6, 6).unwrap();
    let corner_before = grid.get(0, 0).unwrap();
    // A second tick — even under another window size and texture — must
    // neither respawn nor rebind any tile.
    spawn_visible_tiles(&mut grid, &mut arena, 0, 0, 680, 680, ImageHandle { id: 9 });
    assert_eq!(grid.len(), 169);
    assert_eq!(arena.len(), 169);
    assert_eq!(grid.get(6, 6).unwrap(), centre_before);
    assert_eq!(grid.get(0, 0).unwrap(), corner_before);
    assert_eq!(arena.get(centre_before).texture, TEX);
}

#[test]
fn spawned_sprites_sit_at_scaled_world_positions() {
    let mut grid = TileGrid::new();
    let mut arena = TileArena::new();
    spawn_visible_tiles(&mut grid, &mut arena, 0, 0, 1360, 1360, TEX);
    // Board (6, 6) is camera-relative (0, 0): the world origin.
    let centre = arena.get(grid.get(6, 6).unwrap());
    assert_eq!(centre.world_x, 0);
    assert_eq!(centre.world_y, 0);
    assert_eq!(centre.size, 1360); // 80 pixels
    assert_eq!(centre.texture, TEX);
    // Board (0, 0) is camera-relative (-6, -6): world (-6 * 1360, -6 * 1360)
    // subpixels, i.e. (-480, -480) pixels.
    let corner = arena.get(grid.get(0, 0).unwrap());
    assert_eq!(corner.world_x, -8160);
    assert_eq!(corner.world_y, -8160);
    // Board (12, 5) is camera-relative (6, -1).
    let other = arena.get(grid.get(12, 5).unwrap());
    assert_eq!(other.world_x, 8160);
    assert_eq!(other.world_y, -1360);
}

#[test]
fn sweep_corner_is_skipped_off_board() {
    // Camera-relative (-8, -8), the extreme corner of the sweep, translates
    // to board (-2, -2), which is out of bounds: it must be skipped without
    // a panic and without an entry.
    let mut grid = TileGrid::new();
    let mut arena = TileArena::new();
    spawn_visible_tiles(&mut grid, &mut arena, 0, 0, 1360, 1360, TEX);
    assert!(!grid.contains(-2, -2));
    assert_eq!(grid.get(-2, -2), None);
}

#[test]
fn no_entry_outside_the_board() {
    let mut grid = TileGrid::new();
    let mut arena = TileArena::new();
    spawn_visible_tiles(&mut grid, &mut arena, 0, 0, 1360, 1360, TEX);
    assert!(!grid.contains(13, 6));
    assert!(!grid.contains(6, 13));
    assert!(!grid.contains(-1, 0));
    assert!(!grid.contains(0, -1));
    assert!(!grid.contains(14, 14));
}

#[test]
fn camera_position_does_not_offset_the_sweep() {
    // The camera is read but deliberately ignored: wherever it stands, the
    // same 169 board coordinates are filled.
    let mut grid = TileGrid::new();
    let mut arena = TileArena::new();
    spawn_visible_tiles(&mut grid, &mut arena, 100_000, -50_000, 1360, 1360, TEX);
    assert_eq!(grid.len(), 169);
    assert!(grid.contains(0, 0));
    assert!(grid.contains(12, 12));
    assert!(!grid.contains(-2, -2));
}

#[test]
fn tiny_window_scales_sprites_down() {
    let mut grid = TileGrid::new();
    let mut arena = TileArena::new();
    spawn_visible_tiles(&mut grid, &mut arena, 0, 0, 17, 34, TEX);
    assert_eq!(grid.len(), 169);
    let centre = arena.get(grid.get(6, 6).unwrap());
    assert_eq!(centre.size, 17); // one pixel per tile
    let corner = arena.get(grid.get(0, 0).unwrap());
    assert_eq!(corner.world_x, -102); // -6 pixels, in subpixels
}
