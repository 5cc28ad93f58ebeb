//! Coordinate math for slippy-map tiled rendering: derivation of the discrete
//! map tile a geographical position falls on at a given zoom level, tile
//! neighbourhood and tile-corner projection, and a bounded, validated zoom
//! level.
//!
//! The tile arithmetic works on the normalized Mercator plane, where both
//! axes run over `[0, 1]` and a coordinate is held as a binary fraction with
//! 32 fractional bits (see [`mercator::NORM_ONE`]). The zoom level is held in
//! thousandths of a level (see [`zoom::Zoom`]). The surrounding map widget
//! performs the trigonometric normalization and the inverse projection in
//! floating point and converts at this crate's edge.

pub mod mercator;
pub mod zoom;

pub use mercator::{tile_id, Pixels, TileId, NORM_ONE, TILE_SIZE};
pub use zoom::{InvalidZoom, Zoom};
