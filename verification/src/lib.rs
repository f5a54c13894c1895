//! Decodes classic windowed-bitmap byte buffers into an in-memory pixel grid
//! and composes that grid into styled text cells for a character terminal.
//!
//! The crate is organised leaf-first:
//! - [`color`]: the RGBA color value type and exact distance metrics;
//! - [`bitmap`]: the decoded-image data model (headers, color table, pixels);
//! - [`decode`]: the bit-depth-aware scanline decoder over a byte buffer;
//! - [`palette`]: the fixed 16-entry terminal palette and nearest-color search;
//! - [`opacity`]: discrete opacity banding of alpha values;
//! - [`text`]: grapheme-aware cell text assembly;
//! - [`render`]: the console compositor producing styled cells per pixel.

pub mod bitmap;
pub mod color;
pub mod decode;
pub mod opacity;
pub mod palette;
pub mod render;
pub mod text;
