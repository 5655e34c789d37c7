//! Top-down map rendering of voxel terrain: one pixel per block column,
//! colored by its topmost visible block and shaded by relief or water depth.
//!
//! - [`color`]: the palette, the tints and the pixel they give.
//! - [`block`]: blocks, color rules and the table from block to rule.
//! - [`column`]: chunk columns and their sections.
//! - [`resolve`]: the downward scan that gives a column its color.
//! - [`shade`]: the tint, by water depth or by relief.
//! - [`canvas`]: the tile of one region and the growing world canvas,
//!   over the pixel buffer in [`raster`].
//! - [`region`]: drawing a region, with its northern neighbor.
//! - [`schedule`]: grouping regions and walking a group north to south.
//! - [`errors`]: failures recorded by region and raised at the end.

pub mod block;
pub mod canvas;
pub mod color;
pub mod column;
pub mod errors;
pub mod raster;
pub mod region;
pub mod resolve;
pub mod schedule;
pub mod shade;
