//! Tile derivation, tile-size correction and tile neighbourhood.
//!
//! The trigonometric part of the Web Mercator projection is performed here in
//! floating point, as the surrounding map widget would, and the normalized
//! coordinates are handed to the library as binary fractions of `NORM_ONE`.

use walkers::{tile_id, Pixels, TileId, NORM_ONE, TILE_SIZE};

const PI: f64 = std::f64::consts::PI;

/// Normalize a geographical position onto the unit square, x from longitude
/// linearly, y through the Mercator `asinh(tan(lat))`.
fn mercator_normalized(lat: f64, lon: f64) -> (f64, f64) {
    let x = lon.to_radians();
    let y = lat.to_radians().tan().asinh();
    ((1. + (x / PI)) / 2., (1. - (y / PI)) / 2.)
}

/// Scale a normalized coordinate to a binary fraction of `NORM_ONE`.
fn norm_units(value: f64) -> u64 {
    let scaled = (value * (NORM_ONE as f64)).floor();
    if scaled < 0.0 {
        0
    } else if scaled >= NORM_ONE as f64 {
        NORM_ONE
    } else {
        scaled as u64
    }
}

fn assert_relative_eq(left: f64, right: f64, max_relative: f64) {
    let diff = (left - right).abs();
    let largest = left.abs().max(right.abs());
    assert!(
        diff <= largest * max_relative,
        "{left} and {right} differ by more than {max_relative} relative"
    );
}

#[test]
fn projecting_position_and_tile() {
    // The Warsaw Citadel.
    let (x, y) = mercator_normalized(52.26470, 21.00027);
    let (norm_x, norm_y) = (norm_units(x), norm_units(y));

    // Just a bit higher than what most providers support,
    // to make sure we cover the worst case in terms of precision.
    let zoom = 20;

    assert_eq!(
        TileId {
            x: 585455,
            y: 345104,
            zoom
        },
        tile_id(norm_x, norm_y, zoom, 256)
    );

    // Automatically zooms out for larger tiles.
    assert_eq!(
        TileId {
            x: 292727,
            y: 172552,
            zoom: zoom - 1
        },
        tile_id(norm_x, norm_y, zoom, 512)
    );

    // Projected tile is just its x, y multiplied by the size of tiles.
    let corner = tile_id(norm_x, norm_y, zoom, 256).project(256);
    assert_eq!(
        Pixels {
            x: 585455 * 256,
            y: 345104 * 256
        },
        corner
    );

    // The projected position should be somewhere near the projected tile,
    // shifted only by the position on the tile.
    let number_of_pixels = 2f64.powi(zoom as i32) * TILE_SIZE as f64;
    let calculated_x = x * number_of_pixels;
    let calculated_y = y * number_of_pixels;
    assert_relative_eq(calculated_x, corner.x as f64 + 184., 0.5);
    assert_relative_eq(calculated_y, corner.y as f64 + 116.5, 0.5);
}

#[test]
fn projected_position_falls_within_its_own_tile() {
    let positions = [
        (52.26470, 21.00027),
        (-33.94, 18.46),
        (0.0, 0.0),
        (84.9, -179.9),
        (-84.9, 179.9),
    ];
    for zoom in [0u8, 1, 5, 16, 19] {
        for (lat, lon) in positions {
            let (x, y) = mercator_normalized(lat, lon);
            let (norm_x, norm_y) = (norm_units(x), norm_units(y));
            let tile = tile_id(norm_x, norm_y, zoom, 256);
            let corner = tile.project(256);
            let number_of_pixels = 2f64.powi(zoom as i32) * 256.;
            let pixel_x = (x * number_of_pixels).floor() as u64;
            let pixel_y = (y * number_of_pixels).floor() as u64;
            assert!(corner.x <= pixel_x && pixel_x < corner.x + 256);
            assert!(corner.y <= pixel_y && pixel_y < corner.y + 256);
        }
    }
}

#[test]
fn doubled_tile_size_is_one_level_coarser() {
    let (x, y) = mercator_normalized(51.1578, 6.8655);
    let (norm_x, norm_y) = (norm_units(x), norm_units(y));
    for zoom in [1u8, 2, 10, 19] {
        let doubled = tile_id(norm_x, norm_y, zoom, 512);
        let standard = tile_id(norm_x, norm_y, zoom - 1, 256);
        assert_eq!(doubled, standard);
    }
    // Four standard tiles per 1024-pixel tile per axis: two levels coarser.
    assert_eq!(
        tile_id(norm_x, norm_y, 10, 1024),
        tile_id(norm_x, norm_y, 8, 256)
    );
}

#[test]
fn undersized_and_odd_tile_sizes_get_no_correction() {
    let (x, y) = mercator_normalized(37.77, -122.42);
    let (norm_x, norm_y) = (norm_units(x), norm_units(y));
    let standard = tile_id(norm_x, norm_y, 12, 256);
    // Smaller tiles are never treated as a deeper zoom.
    assert_eq!(standard, tile_id(norm_x, norm_y, 12, 128));
    assert_eq!(standard, tile_id(norm_x, norm_y, 12, 1));
    // A tile size below the next power of two rounds its correction down.
    assert_eq!(standard, tile_id(norm_x, norm_y, 12, 300));
    assert_eq!(
        tile_id(norm_x, norm_y, 12, 512),
        tile_id(norm_x, norm_y, 12, 767)
    );
}

#[test]
fn neighbors_at_the_origin_corner() {
    let tile = TileId {
        x: 0,
        y: 0,
        zoom: 5,
    };
    // No tile west or north of the corner: decrementing would underflow.
    assert_eq!(None, tile.west());
    assert_eq!(None, tile.north());
    assert_eq!(
        Some(TileId {
            x: 1,
            y: 0,
            zoom: 5
        }),
        tile.east()
    );
    assert_eq!(
        Some(TileId {
            x: 0,
            y: 1,
            zoom: 5
        }),
        tile.south()
    );
}

#[test]
fn neighbors_in_the_interior() {
    let tile = TileId {
        x: 7,
        y: 11,
        zoom: 4,
    };
    assert_eq!(
        Some(TileId {
            x: 6,
            y: 11,
            zoom: 4
        }),
        tile.west()
    );
    assert_eq!(
        Some(TileId {
            x: 7,
            y: 10,
            zoom: 4
        }),
        tile.north()
    );
    assert_eq!(
        Some(TileId {
            x: 8,
            y: 11,
            zoom: 4
        }),
        tile.east()
    );
    assert_eq!(
        Some(TileId {
            x: 7,
            y: 12,
            zoom: 4
        }),
        tile.south()
    );
}

#[test]
fn tile_corners_at_whole_zoom_levels() {
    // The whole world is one tile at zoom 0.
    assert_eq!(
        TileId {
            x: 0,
            y: 0,
            zoom: 0
        },
        tile_id(0, 0, 0, 256)
    );
    // The position one past the middle of the plane lands on the second of
    // the four tiles of zoom 1.
    assert_eq!(
        TileId {
            x: 1,
            y: 0,
            zoom: 1
        },
        tile_id(NORM_ONE / 2, 0, 1, 256)
    );
    let corner = TileId {
        x: 3,
        y: 2,
        zoom: 2,
    }
    .project(512);
    assert_eq!(Pixels { x: 1536, y: 1024 }, corner);
}

#[test]
fn the_far_edge_of_the_plane() {
    // NORM_ONE itself (longitude 180) lies one past the last tile of the
    // grid; the indices are not clamped there.
    assert_eq!(
        TileId {
            x: 4,
            y: 0,
            zoom: 2
        },
        tile_id(NORM_ONE, 0, 2, 256)
    );
    // The deepest level the world bitmap can hold.
    let tile = tile_id(NORM_ONE, NORM_ONE, 31, 256);
    assert_eq!((1 << 31, 1 << 31, 31), (tile.x, tile.y, tile.zoom));
}
