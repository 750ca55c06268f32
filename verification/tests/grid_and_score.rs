use zombie_plant::grid::{
    clamp_coord, marker_positions, tile_layout, world_coord, x_in_bounds, y_in_bounds, Rgb, Tile,
    TileCell, BOTTOM_BOUND, LEFT_BOUND, N_COLS, N_ROWS, PITCH, RIGHT_BOUND, X_MIN_IDX, Y_MIN_IDX,
};
use zombie_plant::score::{decimal_string, format_score};

#[test]
fn world_coordinates_follow_the_pitch() {
    assert_eq!(world_coord(0), 0);
    assert_eq!(world_coord(3), 3 * PITCH);
    assert_eq!(world_coord(-7), LEFT_BOUND);
    assert_eq!(world_coord(7), RIGHT_BOUND);
}

#[test]
fn bounds_classification() {
    assert!(x_in_bounds(0));
    assert!(x_in_bounds(LEFT_BOUND + 1));
    assert!(!x_in_bounds(LEFT_BOUND));
    assert!(!x_in_bounds(RIGHT_BOUND));
    assert!(!x_in_bounds(RIGHT_BOUND + 1));
    assert!(y_in_bounds(0));
    assert!(y_in_bounds(BOTTOM_BOUND + 1));
    assert!(!y_in_bounds(BOTTOM_BOUND));
    assert!(y_in_bounds(3 * PITCH));
    assert!(!y_in_bounds(4 * PITCH));
}

#[test]
fn clamping() {
    assert_eq!(clamp_coord(-99999, LEFT_BOUND, RIGHT_BOUND), LEFT_BOUND);
    assert_eq!(clamp_coord(99999, LEFT_BOUND, RIGHT_BOUND), RIGHT_BOUND);
    assert_eq!(clamp_coord(42, LEFT_BOUND, RIGHT_BOUND), 42);
}

#[test]
fn tile_colors() {
    assert_eq!(Tile::White.color(), Rgb { r: 0, g: 700, b: 0 });
    assert_eq!(Tile::Gray.color(), Rgb { r: 0, g: 500, b: 0 });
}

#[test]
fn checkerboard_layout() {
    let tiles = tile_layout();
    assert_eq!(tiles.len(), N_ROWS * N_COLS);
    assert_eq!(tiles[0], TileCell { ix: X_MIN_IDX, iy: Y_MIN_IDX, tile: Tile::White });
    assert_eq!(tiles[1].tile, Tile::Gray);
    assert_eq!(tiles[13], TileCell { ix: X_MIN_IDX + 13, iy: Y_MIN_IDX, tile: Tile::Gray });
    // The row width is even, so the shade toggling after each cell makes
    // every row start on the white shade.
    assert_eq!(tiles[14], TileCell { ix: X_MIN_IDX, iy: Y_MIN_IDX + 1, tile: Tile::White });
    for (k, cell) in tiles.iter().enumerate() {
        let expected = if k % 2 == 0 { Tile::White } else { Tile::Gray };
        assert_eq!(cell.tile, expected);
    }
}

#[test]
fn lane_markers_sit_on_the_rightmost_column() {
    let markers = marker_positions();
    assert_eq!(markers.len(), N_ROWS);
    assert_eq!(markers[0], (6 * PITCH, -5 * PITCH));
    assert_eq!(markers[8], (6 * PITCH, 3 * PITCH));
}

#[test]
fn decimal_rendering() {
    assert_eq!(decimal_string(0), "0");
    assert_eq!(decimal_string(7), "7");
    assert_eq!(decimal_string(10), "10");
    assert_eq!(decimal_string(987654), "987654");
}

#[test]
fn score_renders_with_two_decimals() {
    assert_eq!(format_score(0), "0.00");
    assert_eq!(format_score(7), "0.07");
    assert_eq!(format_score(70), "0.70");
    assert_eq!(format_score(1000), "10.00");
    assert_eq!(format_score(12345), "123.45");
}
