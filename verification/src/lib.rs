//! Tiled text watermarking for raster images: overlay planning and assembly,
//! alpha blending in one piece or in device-sized row chunks, backend
//! selection, and the staging protocol that publishes an encoded result.
//!
//! Every function here carries a contract over a mathematical model of its
//! data, and the contracts are machine-checked.

pub mod blend;
pub mod chunk;
pub mod codec;
pub mod color;
pub mod generator;
pub mod gpu;
pub mod layout;
pub mod names;
pub mod overlay;
pub mod pattern;
pub mod raster;
pub mod select;
pub mod text;
pub mod writer;

