//! Decoders for two binary asset formats of a vintage real-time-strategy
//! game: the hierarchical 3DO model format and the GAF sprite archive.
//!
//! A model is decoded into a flat list of mesh records (objects, vertices,
//! material selections and faces); a sprite archive is decoded into
//! palette-mapped RGB frames. Every decoder is total: malformed input is
//! answered with a [`DecodeError`], never with a panic.

pub mod error;
pub mod buffer;
pub mod names;
pub mod text;
pub mod palette;
pub mod model;
pub mod mesh;
pub mod traverse;
pub mod laws;
pub mod image;
pub mod gaf;
pub mod bitmap;
pub mod scan;
pub mod obj;
pub mod materials;

pub use error::DecodeError;
pub use buffer::Buffer;
pub use palette::{colour_name, Palette, Rgb};
