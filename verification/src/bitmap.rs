//! The decoded-image data model: file header, info header, color table and
//! pixel data, together with palette lookup.
//!
//! Classic windowed-bitmap layout: a 14-byte file header, a 40-byte info
//! header, an optional color table, then pixel data in bottom-up scanlines
//! padded to 4-byte boundaries.

use vstd::prelude::*;
use crate::color::RGBColor;

verus! {

/// Bitmap header data, regarding the size of the bitmap and the location of
/// the pixel data.
#[derive(Debug)]
pub struct BitMapHeader {
    /// Bitmap signature. Should always be "BM".
    pub signature: u16,
    /// The declared size of the file, including both headers, the color
    /// table, and the pixel data.
    pub file_size: u32,
    /// Reserved field with no meaning here.
    pub reserved: u32,
    /// The byte offset at which the pixel data begins. Everything prior to
    /// this is header or color-table data.
    pub data_offset: u32,
}

/// Bitmap info header data, regarding the layout and contents of the bitmap.
#[derive(Debug)]
pub struct BitMapInfoHeader {
    /// Size of this info header.
    pub size: u32,
    /// Horizontal width of the bitmap, in pixels. If negative, the image is
    /// mirrored horizontally: columns are displayed in reverse order.
    pub width: i32,
    /// Vertical height of the bitmap, in pixels. If negative, the image is
    /// mirrored vertically: rows are displayed in reverse order.
    pub height: i32,
    /// Number of planes.
    pub planes: u16,
    /// Pixel bit depth: the number of bits that encode one pixel.
    ///
    /// 1, 4, 8: each pixel is an index into the color table.
    /// 16, 24, 32: each pixel carries color data directly.
    pub bits_per_pixel: u16,
    /// The type of compression used; only 0 (no compression) is supported.
    pub compression: u32,
    /// Compressed size of the image; may be 0 when uncompressed.
    pub image_size: u32,
    /// Horizontal resolution in pixels per meter.
    pub x_pixels_per_meter: i32,
    /// Vertical resolution in pixels per meter.
    pub y_pixels_per_meter: i32,
    /// Number of colors used in the bitmap.
    pub colors_used: u32,
    /// Number of important colors; 0 means all.
    pub important_colors: u32,
}

/// Bitmap color definitions, ordered by importance. Present only for the
/// indexed bit depths.
#[derive(Debug)]
pub struct BitMapColorTable {
    pub colors: Vec<RGBColor>,
}

/// A flat sequence of colors: either the color table or the image's pixels
/// in file scan order (bottom row first unless the height is negative).
#[derive(Debug)]
pub struct BitMapPixelData {
    pub pixels: Vec<RGBColor>,
}

/// A decoded bitmap: both headers, the color table, and the pixel grid.
#[derive(Debug)]
pub struct BitMapRaw {
    pub header: BitMapHeader,
    pub info_header: BitMapInfoHeader,
    pub color_table: BitMapPixelData,
    pub pixel_data: BitMapPixelData,
}

impl RGBColor {
    /// The palette color at the given index of the color table. An
    /// out-of-range index is a fatal, corrupt-palette condition, so callers
    /// must check the bound first.
    pub fn from_table(palette: &BitMapPixelData, index: usize) -> (r: RGBColor)
        requires
            index < palette.pixels@.len(),
        ensures
            r == palette.pixels@[index as int],
    {
        palette.pixels[index]
    }
}

} // verus!
