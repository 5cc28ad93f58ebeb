//! Tile arithmetic for the Web Mercator projection.
//!
//! The standard slippy-map scheme divides the world into `2^zoom x 2^zoom`
//! square tiles. A geographical position is first normalized onto the unit
//! square (longitude linearly, latitude through `asinh(tan(lat))`); that
//! trigonometric step is floating point and happens outside this crate. Here
//! a normalized coordinate arrives as a binary fraction with 32 fractional
//! bits, and everything downstream of it - the tile a position falls on, the
//! tile-size zoom correction, tile neighbourhood and the tile's pixel corner -
//! is exact integer arithmetic.

use vstd::prelude::*;

verus! {

use vstd::arithmetic::div_mod::{
    lemma_div_pos_is_pos, lemma_fundamental_div_mod, lemma_hoist_over_denominator,
    lemma_multiply_divide_lt,
};
use vstd::arithmetic::power2::{
    lemma2_to64, lemma_pow2_pos, lemma_pow2_strictly_increases, lemma_pow2_unfold, pow2,
};

/// Edge length, in pixels, of the tiles used by services like the OSM.
pub const TILE_SIZE: u32 = 256;

/// The number one on the normalized Mercator plane: coordinates are binary
/// fractions with 32 fractional bits, so the plane runs over `[0, NORM_ONE]`.
pub const NORM_ONE: u64 = 0x1_0000_0000;

/// Position (in whole pixels) on the "World bitmap", the conceptual
/// full-world canvas whose edge measures `2^zoom * tile_size` pixels.
/// Tile corners always fall on whole pixels.
#[derive(Debug, Clone, Copy, PartialEq, Eq, Structural)]
pub struct Pixels {
    /// Horizontal pixel position, growing eastwards.
    pub x: u64,
    /// Vertical pixel position, growing southwards.
    pub y: u64,
}

/// Coordinates of the OSM-like tile.
#[derive(Debug, Clone, Copy, PartialEq, Eq, Hash, Structural)]
pub struct TileId {
    /// X number of the tile.
    pub x: u32,

    /// Y number of the tile.
    pub y: u32,

    /// Zoom level, where 0 means no zoom.
    pub zoom: u8,
}

impl TileId {
    /// Tile position (in pixels) on the "World bitmap".
    pub fn project(&self, tile_size: u32) -> (pixels: Pixels)
        ensures
            pixels.x == self.x * tile_size,
            pixels.y == self.y * tile_size,
    {
        proof {
            assert(self.x * tile_size < 0x1_0000_0000 * 0x1_0000_0000) by (nonlinear_arith)
                requires
                    self.x < 0x1_0000_0000,
                    tile_size < 0x1_0000_0000,
            ;
            assert(self.y * tile_size < 0x1_0000_0000 * 0x1_0000_0000) by (nonlinear_arith)
                requires
                    self.y < 0x1_0000_0000,
                    tile_size < 0x1_0000_0000,
            ;
        }
        Pixels { x: self.x as u64 * tile_size as u64, y: self.y as u64 * tile_size as u64 }
    }

    /// The adjacent tile to the east, at the same zoom level. There is no
    /// check against the upper bound of the tile grid.
    pub fn east(&self) -> (tile: Option<TileId>)
        requires
            self.x < u32::MAX,
        ensures
            tile == Some(TileId { x: (self.x + 1) as u32, y: self.y, zoom: self.zoom }),
    {
        Some(TileId { x: self.x + 1, y: self.y, zoom: self.zoom })
    }

    /// The adjacent tile to the west, at the same zoom level, or `None` at
    /// the western edge of the grid.
    pub fn west(&self) -> (tile: Option<TileId>)
        ensures
            self.x > 0 ==> tile == Some(
                TileId { x: (self.x - 1) as u32, y: self.y, zoom: self.zoom },
            ),
            self.x == 0 ==> tile is None,
    {
        if self.x > 0 {
            Some(TileId { x: self.x - 1, y: self.y, zoom: self.zoom })
        } else {
            None
        }
    }

    /// The adjacent tile to the north, at the same zoom level, or `None` at
    /// the northern edge of the grid.
    pub fn north(&self) -> (tile: Option<TileId>)
        ensures
            self.y > 0 ==> tile == Some(
                TileId { x: self.x, y: (self.y - 1) as u32, zoom: self.zoom },
            ),
            self.y == 0 ==> tile is None,
    {
        if self.y > 0 {
            Some(TileId { x: self.x, y: self.y - 1, zoom: self.zoom })
        } else {
            None
        }
    }

    /// The adjacent tile to the south, at the same zoom level. There is no
    /// check against the lower bound of the tile grid.
    pub fn south(&self) -> (tile: Option<TileId>)
        requires
            self.y < u32::MAX,
        ensures
            tile == Some(TileId { x: self.x, y: (self.y + 1) as u32, zoom: self.zoom }),
    {
        Some(TileId { x: self.x, y: self.y + 1, zoom: self.zoom })
    }
}

/// The binary logarithm of `n`, rounded down (and 0 for `n == 0`).
pub open spec fn log2_floor(n: nat) -> nat
    decreases n,
{
    if n < 2 {
        0
    } else {
        1 + log2_floor(n / 2)
    }
}

/// How many zoom levels a provider's larger tiles are worth: the truncated
/// binary logarithm of `tile_size / TILE_SIZE`, and 0 for tiles no larger
/// than the standard size.
pub open spec fn tile_size_correction(tile_size: u32) -> nat {
    if tile_size >= TILE_SIZE {
        log2_floor((tile_size / TILE_SIZE) as nat)
    } else {
        0
    }
}

/// Number of the tile a normalized coordinate falls on at zoom `level`:
/// `floor(c * 2^level)` for the coordinate `c = norm / NORM_ONE` in `[0, 1]`.
pub open spec fn tile_coord(norm: u64, level: int) -> int {
    norm as int / pow2((32 - level) as nat) as int
}

/// Pixel column (or row) of a normalized coordinate on the world bitmap at
/// zoom `level` with the standard tile size, rounded down to a whole pixel:
/// `floor(c * 2^level * TILE_SIZE)` for the coordinate `c = norm / NORM_ONE`.
pub open spec fn pixel_coord(norm: u64, level: int) -> int {
    (norm * TILE_SIZE) / pow2((32 - level) as nat) as int
}

/// The tile a normalized position falls on: the zoom is first lowered by the
/// tile-size correction, then both coordinates are floored at that level.
pub open spec fn tile_id_spec(norm_x: u64, norm_y: u64, zoom: u8, tile_size: u32) -> TileId {
    let level = zoom - tile_size_correction(tile_size);
    TileId {
        x: tile_coord(norm_x, level) as u32,
        y: tile_coord(norm_y, level) as u32,
        zoom: level as u8,
    }
}

/// The binary logarithm of `n`, rounded down.
fn log2_floor_u32(n: u32) -> (result: u32)
    requires
        n >= 1,
    ensures
        result == log2_floor(n as nat),
        result <= 31,
{
    let mut value: u32 = n;
    let mut result: u32 = 0;
    proof {
        lemma2_to64();
        assert(pow2(0) * value == value);
    }
    while value >= 2
        invariant
            1 <= value,
            log2_floor(n as nat) == result + log2_floor(value as nat),
            pow2(result as nat) * value <= n,
        decreases value,
    {
        proof {
            lemma_pow2_unfold((result + 1) as nat);
            assert(pow2((result + 1) as nat) * (value / 2) as int <= pow2(result as nat) * value)
                by (nonlinear_arith)
                requires
                    pow2((result + 1) as nat) == 2 * pow2(result as nat),
                    value >= 2,
            ;
            if result >= 31 {
                lemma2_to64();
                if result > 31 {
                    lemma_pow2_strictly_increases(31, result as nat);
                }
                assert(pow2(result as nat) * value >= pow2(31nat) * 2) by (nonlinear_arith)
                    requires
                        pow2(result as nat) >= pow2(31nat),
                        value >= 2,
                ;
                assert(false);
            }
        }
        value = value / 2;
        result = result + 1;
    }
    proof {
        if result > 31 {
            lemma2_to64();
            if result > 32 {
                lemma_pow2_strictly_increases(32, result as nat);
            }
            assert(pow2(result as nat) * value >= pow2(32)) by (nonlinear_arith)
                requires
                    value >= 1,
                    pow2(result as nat) >= pow2(32),
            ;
        }
        assert(log2_floor(1) == 0);
    }
    result
}

/// The tile-size correction, executably: how many zoom levels to take off
/// for a provider whose tiles are larger than the standard size.
fn zoom_correction(tile_size: u32) -> (correction: u8)
    ensures
        correction == tile_size_correction(tile_size),
{
    if tile_size >= TILE_SIZE {
        log2_floor_u32(tile_size / TILE_SIZE) as u8
    } else {
        0
    }
}

/// 2 to the power `exp`.
fn pow2_u64(exp: u8) -> (result: u64)
    requires
        exp <= 32,
    ensures
        result == pow2(exp as nat),
{
    proof {
        lemma2_to64();
    }
    let mut result: u64 = 1;
    let mut i: u8 = 0;
    while i < exp
        invariant
            i <= exp <= 32,
            result == pow2(i as nat),
        decreases exp - i,
    {
        proof {
            if (i as nat) < 32 {
                lemma2_to64();
                lemma_pow2_strictly_increases(i as nat, 32);
            }
            lemma_pow2_unfold((i + 1) as nat);
        }
        result = result * 2;
        i = i + 1;
    }
    result
}

/// The tile a position falls on.
///
/// `norm_x` and `norm_y` locate the position on the normalized Mercator
/// plane, as fractions of [`NORM_ONE`]. Some providers serve larger tiles,
/// effectively bundling e.g. four 256-pixel tiles into one 512-pixel tile;
/// the zoom level is lowered by the tile-size correction so that the
/// resolution remains the same.
pub fn tile_id(norm_x: u64, norm_y: u64, zoom: u8, tile_size: u32) -> (tile: TileId)
    requires
        norm_x <= NORM_ONE,
        norm_y <= NORM_ONE,
        tile_size_correction(tile_size) <= zoom,
        zoom - tile_size_correction(tile_size) <= 31,
    ensures
        tile == tile_id_spec(norm_x, norm_y, zoom, tile_size),
{
    let correction: u8 = zoom_correction(tile_size);
    let level: u8 = zoom - correction;
    let norm_per_tile: u64 = pow2_u64(32 - level);
    proof {
        lemma2_to64();
        lemma_pow2_strictly_increases(0, (32 - level) as nat);
        assert(norm_x < norm_per_tile * 0x8000_0001) by (nonlinear_arith)
            requires
                norm_per_tile >= 2,
                norm_x <= 0x1_0000_0000u64,
        ;
        assert(norm_y < norm_per_tile * 0x8000_0001) by (nonlinear_arith)
            requires
                norm_per_tile >= 2,
                norm_y <= 0x1_0000_0000u64,
        ;
        lemma_multiply_divide_lt(norm_x as int, norm_per_tile as int, 0x8000_0001);
        lemma_multiply_divide_lt(norm_y as int, norm_per_tile as int, 0x8000_0001);
    }
    let x: u32 = (norm_x / norm_per_tile) as u32;
    let y: u32 = (norm_y / norm_per_tile) as u32;
    TileId { x, y, zoom: level }
}

/// Doubling the tile size is the same as zooming out one level: a provider
/// serving tiles twice the standard edge length gets the same tile numbers,
/// at a reported zoom one lower, as the standard size one level up.
pub proof fn lemma_doubled_tile_size_zooms_out(norm_x: u64, norm_y: u64, zoom: u8)
    requires
        zoom >= 1,
    ensures
        tile_id_spec(norm_x, norm_y, zoom, (2 * TILE_SIZE) as u32) == tile_id_spec(
            norm_x,
            norm_y,
            (zoom - 1) as u8,
            TILE_SIZE,
        ),
{
    assert(log2_floor(1) == 0);
    assert(log2_floor(2) == 1);
    assert(tile_size_correction((2 * TILE_SIZE) as u32) == 1);
    assert(tile_size_correction(TILE_SIZE) == 0);
}

/// One axis of `lemma_position_pixel_in_own_tile`: on the normalized plane,
/// the floored pixel of a coordinate lies within the `TILE_SIZE`-pixel span
/// that begins at the corner of the coordinate's own tile.
proof fn lemma_pixel_axis(norm: u64, zoom: u8)
    requires
        zoom <= 31,
        norm <= NORM_ONE,
    ensures
        0 <= tile_coord(norm, zoom as int) < 0x1_0000_0000,
        TILE_SIZE * tile_coord(norm, zoom as int) <= pixel_coord(norm, zoom as int),
        pixel_coord(norm, zoom as int) < TILE_SIZE * tile_coord(norm, zoom as int) + TILE_SIZE,
{
    let m = pow2((32 - zoom) as nat) as int;
    lemma_pow2_pos((32 - zoom) as nat);
    lemma2_to64();
    lemma_pow2_strictly_increases(0, (32 - zoom) as nat);
    let q = norm as int / m;
    let r = norm as int % m;
    lemma_fundamental_div_mod(norm as int, m);
    lemma_div_pos_is_pos(norm as int, m);
    assert(norm < m * 0x8000_0001) by (nonlinear_arith)
        requires
            m >= 2,
            norm <= 0x1_0000_0000u64,
    ;
    lemma_multiply_divide_lt(norm as int, m, 0x8000_0001);
    assert(norm * TILE_SIZE == 256 * r + (256 * q) * m) by (nonlinear_arith)
        requires
            norm == m * q + r,
    ;
    lemma_hoist_over_denominator(256 * r, 256 * q, m as nat);
    assert((norm * TILE_SIZE) / m == (256 * r) / m + 256 * q);
    lemma_div_pos_is_pos(256 * r, m);
    assert(256 * r < m * 256) by (nonlinear_arith)
        requires
            r < m,
    ;
    lemma_multiply_divide_lt(256 * r, m, 256);
}

/// The projected pixel of a position falls inside the pixel box of the
/// position's own tile: with the standard tile size, the floored world-bitmap
/// pixel of a normalized coordinate lies at or beyond the corner that
/// `TileId::project` gives for the tile the same position maps to, and less
/// than one tile edge further.
pub proof fn lemma_position_pixel_in_own_tile(norm_x: u64, norm_y: u64, zoom: u8)
    requires
        norm_x <= NORM_ONE,
        norm_y <= NORM_ONE,
        zoom <= 31,
    ensures
        ({
            let tile = tile_id_spec(norm_x, norm_y, zoom, TILE_SIZE);
            &&& tile.x * TILE_SIZE <= pixel_coord(norm_x, zoom as int) < tile.x * TILE_SIZE
                + TILE_SIZE
            &&& tile.y * TILE_SIZE <= pixel_coord(norm_y, zoom as int) < tile.y * TILE_SIZE
                + TILE_SIZE
        }),
{
    assert(log2_floor(1) == 0);
    assert(tile_size_correction(TILE_SIZE) == 0);
    lemma_pixel_axis(norm_x, zoom);
    lemma_pixel_axis(norm_y, zoom);
}

} // verus!
