//! The bounded play-field: discrete tile indices, the fixed-point world
//! coordinates they map to, and the checkerboard background layout.
//!
//! All world lengths are in hundredths of a world unit. The tile pitch is
//! 50.00 units, so one tile is `PITCH` = 5000 fixed-point units wide. The
//! field spans the half-open index ranges `[X_MIN_IDX, X_END_IDX)` by
//! `[Y_MIN_IDX, Y_END_IDX)`.

use vstd::prelude::*;

verus! {

/// Tile pitch: 50.00 world units, in hundredths.
pub const PITCH: i64 = 5000;

/// First column index of the field (inclusive).
pub const X_MIN_IDX: i64 = -7;
/// End column index of the field (exclusive).
pub const X_END_IDX: i64 = 7;
/// First row index of the field (inclusive).
pub const Y_MIN_IDX: i64 = -5;
/// End row index of the field (exclusive).
pub const Y_END_IDX: i64 = 4;

/// World x coordinate of the left field boundary: `X_MIN_IDX * PITCH`.
pub const LEFT_BOUND: i64 = -35000;
/// World x coordinate just past the rightmost column: `X_END_IDX * PITCH`.
pub const RIGHT_BOUND: i64 = 35000;
/// Largest world x a player may occupy: `(X_END_IDX - 1) * PITCH`.
pub const PLAYER_MAX_X: i64 = 30000;
/// Smallest world y a player may occupy: `Y_MIN_IDX * PITCH`.
pub const BOTTOM_BOUND: i64 = -25000;
/// Largest world y a player may occupy: `(Y_END_IDX - 1) * PITCH`.
pub const TOP_BOUND: i64 = 15000;

/// Column count of the field.
pub const N_COLS: usize = 14;
/// Row count of the field.
pub const N_ROWS: usize = 9;

/// The two alternating background shades.
#[derive(Clone, Copy, Debug, PartialEq, Eq, Structural)]
pub enum Tile {
    White,
    Gray,
}

/// A flat color, each channel in thousandths of full intensity.
#[derive(Clone, Copy, Debug, PartialEq, Eq, Structural)]
pub struct Rgb {
    pub r: u32,
    pub g: u32,
    pub b: u32,
}

impl Tile {
    /// The flat draw color of this shade: both are greens, the white shade
    /// brighter than the gray one.
    pub fn color(&self) -> (c: Rgb)
        ensures
            *self == Tile::White ==> c == (Rgb { r: 0, g: 700, b: 0 }),
            *self == Tile::Gray ==> c == (Rgb { r: 0, g: 500, b: 0 }),
    {
        match self {
            Tile::White => Rgb { r: 0, g: 700, b: 0 },
            Tile::Gray => Rgb { r: 0, g: 500, b: 0 },
        }
    }
}

/// One background tile: its grid indices and its shade.
#[derive(Clone, Copy, Debug, PartialEq, Eq, Structural)]
pub struct TileCell {
    pub ix: i64,
    pub iy: i64,
    pub tile: Tile,
}

/// The checkerboard background: one cell per field position, row by row
/// from the bottom row up, each row left to right, the shade toggling after
/// every cell starting from the white shade.
pub fn tile_layout() -> (r: Vec<TileCell>)
    ensures
        r@.len() == N_ROWS * N_COLS,
        forall|k: int|
            0 <= k < r@.len() ==> #[trigger] r@[k] == (TileCell {
                ix: (X_MIN_IDX + (k % (N_COLS as int))) as i64,
                iy: (Y_MIN_IDX + (k / (N_COLS as int))) as i64,
                tile: if k % 2 == 0 {
                    Tile::White
                } else {
                    Tile::Gray
                },
            }),
{
    let mut out: Vec<TileCell> = Vec::new();
    let total: usize = N_ROWS * N_COLS;
    let mut k: usize = 0;
    while k < total
        invariant
            k <= total,
            total == N_ROWS * N_COLS,
            out@.len() == k,
            forall|j: int|
                0 <= j < k ==> #[trigger] out@[j] == (TileCell {
                    ix: (X_MIN_IDX + (j % (N_COLS as int))) as i64,
                    iy: (Y_MIN_IDX + (j / (N_COLS as int))) as i64,
                    tile: if j % 2 == 0 {
                        Tile::White
                    } else {
                        Tile::Gray
                    },
                }),
        decreases total - k,
    {
        let ix = X_MIN_IDX + (k % N_COLS) as i64;
        let iy = Y_MIN_IDX + (k / N_COLS) as i64;
        let tile = if k % 2 == 0 {
            Tile::White
        } else {
            Tile::Gray
        };
        out.push(TileCell { ix, iy, tile });
        k += 1;
    }
    out
}

/// The lane markers drawn over the rightmost field column: one world-space
/// position per row, bottom row first.
pub fn marker_positions() -> (r: Vec<(i64, i64)>)
    ensures
        r@.len() == N_ROWS,
        forall|k: int|
            0 <= k < r@.len() ==> #[trigger] r@[k] == (
                ((X_END_IDX - 1) * PITCH) as i64,
                ((Y_MIN_IDX + k) * PITCH) as i64,
            ),
{
    let mut out: Vec<(i64, i64)> = Vec::new();
    let mut row: usize = 0;
    while row < N_ROWS
        invariant
            row <= N_ROWS,
            out@.len() == row,
            forall|k: int|
                0 <= k < row ==> #[trigger] out@[k] == (
                    ((X_END_IDX - 1) * PITCH) as i64,
                    ((Y_MIN_IDX + k) * PITCH) as i64,
                ),
        decreases N_ROWS - row,
    {
        let iy = Y_MIN_IDX + row as i64;
        out.push(((X_END_IDX - 1) * PITCH, iy * PITCH));
        row += 1;
    }
    out
}

/// Maps a tile index to its world coordinate: `index * PITCH`.
pub fn world_coord(i: i64) -> (w: i64)
    requires
        -1000000 <= i <= 1000000,
    ensures
        w == i * PITCH,
{
    i * PITCH
}

/// `v` clamped into `[lo, hi]`.
pub open spec fn spec_clamp(v: int, lo: int, hi: int) -> int {
    if v < lo {
        lo
    } else if v > hi {
        hi
    } else {
        v
    }
}

/// Clamps a world coordinate into the closed interval `[lo, hi]`.
pub fn clamp_coord(v: i64, lo: i64, hi: i64) -> (r: i64)
    requires
        lo <= hi,
    ensures
        r == spec_clamp(v as int, lo as int, hi as int),
        lo <= r <= hi,
{
    if v < lo {
        lo
    } else if v > hi {
        hi
    } else {
        v
    }
}

/// True exactly when a world x coordinate lies strictly inside the field,
/// i.e. strictly between the two vertical boundary lines.
pub fn x_in_bounds(x: i64) -> (r: bool)
    ensures
        r == (LEFT_BOUND < x && x < RIGHT_BOUND),
{
    LEFT_BOUND < x && x < RIGHT_BOUND
}

/// True exactly when a world y coordinate lies strictly inside the field,
/// i.e. strictly between the two horizontal boundary lines.
pub fn y_in_bounds(y: i64) -> (r: bool)
    ensures
        r == (Y_MIN_IDX * PITCH < y && y < Y_END_IDX * PITCH),
{
    BOTTOM_BOUND < y && y < Y_END_IDX * PITCH
}

} // verus!
