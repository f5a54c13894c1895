//! The bit-depth-aware scanline decoder: reconstructs the headers, the color
//! table and the pixel grid from a raw byte buffer.
//!
//! Every multi-byte field is assembled little-endian. Pixel data is laid out
//! in scanlines padded to 4-byte boundaries; the indexed depths (1, 4, 8)
//! look their pixels up in the color table, the direct depths (24, 32) carry
//! channel bytes inline. A buffer that ends in the middle of the pixel data
//! is tolerated: decoding stops after the last partial row.

use vstd::prelude::*;
use crate::bitmap::{BitMapHeader, BitMapInfoHeader, BitMapPixelData, BitMapRaw};
use crate::color::RGBColor;
use vstd::slice::slice_index_get;

verus! {

/// Why a byte buffer could not be decoded.
///
/// The first three variants are recoverable input errors; the remaining
/// three are fatal conditions on which the whole decode aborts by design.
#[derive(Clone, Copy, PartialEq, Eq, Structural, Debug)]
pub enum BitMapDecodeError {
    /// The buffer is shorter than the two fixed headers (54 bytes).
    HeaderTooShort,
    /// The header's data offset points past the end of the buffer, so the
    /// color table cannot be read.
    ColorTableTooShort,
    /// The region between the headers and the data offset is not a whole
    /// number of 4-byte color entries.
    ColorTableMisaligned,
    /// The 16-bit-per-pixel encoding is deliberately not implemented.
    UnsupportedBitDepth16,
    /// A bit depth outside {1, 4, 8, 16, 24, 32}.
    UnrecognizedBitDepth(u16),
    /// An indexed pixel referenced a color-table entry that does not exist.
    PaletteIndexOutOfRange { index: u8, size: usize },
}

/// The unsigned little-endian value of the 2 bytes at `off`.
pub open spec fn spec_le_u16(b: Seq<u8>, off: int) -> int {
    b[off] + b[off + 1] * 0x100
}

/// The unsigned little-endian value of the 4 bytes at `off`.
pub open spec fn spec_le_u32(b: Seq<u8>, off: int) -> int {
    b[off] + b[off + 1] * 0x100 + b[off + 2] * 0x1_0000 + b[off + 3] * 0x100_0000
}

/// The two's-complement signed value of the 4 little-endian bytes at `off`.
pub open spec fn spec_le_i32(b: Seq<u8>, off: int) -> int {
    let n = spec_le_u32(b, off);
    if n < 0x8000_0000 {
        n
    } else {
        n - 0x1_0000_0000
    }
}

/// The file header encoded in the first 14 bytes of the buffer.
pub open spec fn spec_header(b: Seq<u8>) -> BitMapHeader {
    BitMapHeader {
        signature: spec_le_u16(b, 0) as u16,
        file_size: spec_le_u32(b, 2) as u32,
        reserved: spec_le_u32(b, 6) as u32,
        data_offset: spec_le_u32(b, 10) as u32,
    }
}

/// The info header encoded in bytes 14 to 53 of the buffer.
pub open spec fn spec_info_header(b: Seq<u8>) -> BitMapInfoHeader {
    BitMapInfoHeader {
        size: spec_le_u32(b, 14) as u32,
        width: spec_le_i32(b, 18) as i32,
        height: spec_le_i32(b, 22) as i32,
        planes: spec_le_u16(b, 26) as u16,
        bits_per_pixel: spec_le_u16(b, 28) as u16,
        compression: spec_le_u32(b, 30) as u32,
        image_size: spec_le_u32(b, 34) as u32,
        x_pixels_per_meter: spec_le_i32(b, 38) as i32,
        y_pixels_per_meter: spec_le_i32(b, 42) as i32,
        colors_used: spec_le_u32(b, 46) as u32,
        important_colors: spec_le_u32(b, 50) as u32,
    }
}

/// How many bytes sit between the headers and the data offset; at most 0
/// when there is no color table.
pub open spec fn spec_table_bytes(b: Seq<u8>) -> int {
    spec_header(b).data_offset - 54
}

/// The color-table entry assembled from the `i`th 4-byte group after the
/// headers: Blue, Green, Red, Reserved in that byte order.
pub open spec fn spec_table_entry(b: Seq<u8>, i: int) -> RGBColor {
    RGBColor {
        blue: b[54 + 4 * i],
        green: b[54 + 4 * i + 1],
        red: b[54 + 4 * i + 2],
        alpha: b[54 + 4 * i + 3],
    }
}

/// The whole color table: one entry for each 4-byte group between the
/// headers and the data offset; empty when that gap is not positive.
pub open spec fn spec_color_table(b: Seq<u8>) -> Seq<RGBColor> {
    if spec_table_bytes(b) <= 0 {
        Seq::empty()
    } else {
        Seq::new((spec_table_bytes(b) / 4) as nat, |i: int| spec_table_entry(b, i))
    }
}

/// How many pixels one byte carries at an indexed bit depth.
pub open spec fn spec_pixels_per_byte(depth: int) -> int {
    8int / depth
}

/// How many bytes of one scanline carry real pixel data, before padding.
pub open spec fn spec_row_data_bytes(w: int, depth: int) -> int {
    if depth <= 8 {
        (w + spec_pixels_per_byte(depth) - 1) / spec_pixels_per_byte(depth)
    } else {
        w * (depth / 8)
    }
}

/// The stored width of one scanline: the data bytes rounded up to the next
/// multiple of 4.
pub open spec fn spec_padded_row_bytes(w: int, depth: int) -> int {
    ((spec_row_data_bytes(w, depth) + 3) / 4) * 4
}

/// Where the pixel data begins: right after the color table when there is
/// one, right after the headers otherwise.
pub open spec fn spec_pixel_start(b: Seq<u8>) -> int {
    if spec_table_bytes(b) > 0 {
        54 + spec_table_bytes(b)
    } else {
        54
    }
}

/// How many of row `r`'s stored bytes are present in a buffer of `len`
/// bytes: the full padded width, or whatever remains when the buffer is
/// truncated.
pub open spec fn spec_row_avail(len: int, start: int, w: int, depth: int, r: int) -> int {
    let padded = spec_padded_row_bytes(w, depth);
    let rest = len - (start + r * padded);
    if rest >= padded {
        padded
    } else if rest >= 0 {
        rest
    } else {
        0
    }
}

/// How many pixels row `r` yields: the full width when its bytes are all
/// present, fewer when the buffer is truncated. Padding bytes never yield
/// pixels.
pub open spec fn spec_row_count(len: int, start: int, w: int, depth: int, r: int) -> int {
    let avail = spec_row_avail(len, start, w, depth, r);
    if depth <= 8 {
        let data = if avail <= spec_row_data_bytes(w, depth) {
            avail
        } else {
            spec_row_data_bytes(w, depth)
        };
        if w <= spec_pixels_per_byte(depth) * data {
            w
        } else {
            spec_pixels_per_byte(depth) * data
        }
    } else {
        let bpp = depth / 8;
        if w <= avail / bpp {
            w
        } else {
            avail / bpp
        }
    }
}

/// The divisor that brings the wanted index to the low bits of a byte:
/// indices are packed most-significant first.
pub open spec fn spec_index_divisor(depth: int, pos: int) -> int {
    if depth == 8 {
        1
    } else if depth == 4 {
        if pos == 0 {
            16
        } else {
            1
        }
    } else {
        if pos == 0 {
            128
        } else if pos == 1 {
            64
        } else if pos == 2 {
            32
        } else if pos == 3 {
            16
        } else if pos == 4 {
            8
        } else if pos == 5 {
            4
        } else if pos == 6 {
            2
        } else {
            1
        }
    }
}

/// One more than the largest index a pixel of this depth can encode.
pub open spec fn spec_index_mask(depth: int) -> int {
    if depth == 1 {
        2
    } else if depth == 4 {
        16
    } else {
        256
    }
}

/// The color-table index held at position `pos` (most-significant first)
/// of a byte at an indexed bit depth.
pub open spec fn spec_pixel_index(byte: u8, depth: int, pos: int) -> int {
    (byte as int / spec_index_divisor(depth, pos)) % spec_index_mask(depth)
}

/// The color-table index that pixel (`r`, `c`) of the grid refers to, for
/// an indexed bit depth.
pub open spec fn spec_index_at(b: Seq<u8>, start: int, w: int, depth: int, r: int, c: int) -> int {
    let row_start = start + r * spec_padded_row_bytes(w, depth);
    let ppb = spec_pixels_per_byte(depth);
    spec_pixel_index(b[row_start + c / ppb], depth, c % ppb)
}

/// Whether every decoded pixel of the first `rows` rows refers to an
/// existing color-table entry. Trivially true for the direct bit depths.
pub open spec fn spec_indices_ok(
    b: Seq<u8>,
    start: int,
    w: int,
    depth: int,
    table_len: int,
    rows: int,
) -> bool {
    forall|r: int, c: int|
        0 <= r < rows && 0 <= c < spec_row_count(b.len() as int, start, w, depth, r) && depth <= 8
            ==> #[trigger] spec_index_at(b, start, w, depth, r, c) < table_len
}

/// The color of pixel (`r`, `c`) of the grid: a color-table lookup at the
/// indexed depths, inline Blue-Green-Red bytes (alpha forced to 0) at depth
/// 24, and inline Alpha-Blue-Green-Red bytes at depth 32.
pub open spec fn spec_pixel_at(
    b: Seq<u8>,
    start: int,
    w: int,
    depth: int,
    table: Seq<RGBColor>,
    r: int,
    c: int,
) -> RGBColor {
    let row_start = start + r * spec_padded_row_bytes(w, depth);
    if depth <= 8 {
        table[spec_index_at(b, start, w, depth, r, c)]
    } else if depth == 24 {
        RGBColor {
            blue: b[row_start + 3 * c],
            green: b[row_start + 3 * c + 1],
            red: b[row_start + 3 * c + 2],
            alpha: 0,
        }
    } else {
        RGBColor {
            alpha: b[row_start + 4 * c],
            blue: b[row_start + 4 * c + 1],
            green: b[row_start + 4 * c + 2],
            red: b[row_start + 4 * c + 3],
        }
    }
}

/// The pixels of row `r`, in column order.
pub open spec fn spec_row_pixels(
    b: Seq<u8>,
    start: int,
    w: int,
    depth: int,
    table: Seq<RGBColor>,
    r: int,
) -> Seq<RGBColor> {
    Seq::new(
        spec_row_count(b.len() as int, start, w, depth, r) as nat,
        |c: int| spec_pixel_at(b, start, w, depth, table, r, c),
    )
}

/// The pixels of the first `k` rows, in file scan order: row 0 first.
pub open spec fn spec_grid_prefix(
    b: Seq<u8>,
    start: int,
    w: int,
    depth: int,
    table: Seq<RGBColor>,
    k: int,
) -> Seq<RGBColor>
    decreases k,
{
    if k <= 0 {
        Seq::empty()
    } else {
        spec_grid_prefix(b, start, w, depth, table, k - 1) + spec_row_pixels(
            b,
            start,
            w,
            depth,
            table,
            k - 1,
        )
    }
}

/// The absolute value of a declared width or height.
pub open spec fn spec_abs(v: int) -> int {
    if v >= 0 {
        v
    } else {
        -v
    }
}

/// The whole pixel grid encoded in the buffer, as decoding produces it.
pub open spec fn spec_pixel_grid(b: Seq<u8>) -> Seq<RGBColor> {
    let ih = spec_info_header(b);
    spec_grid_prefix(
        b,
        spec_pixel_start(b),
        spec_abs(ih.width as int),
        ih.bits_per_pixel as int,
        spec_color_table(b),
        spec_abs(ih.height as int),
    )
}

impl BitMapRaw {
    /// Assemble a `u16` from 2 bytes, least-significant byte first.
    pub fn reduce_bit_slice_u16(slice: &[u8]) -> (r: u16)
        requires
            slice@.len() == 2,
        ensures
            r == spec_le_u16(slice@, 0),
    {
        let b0 = *slice_index_get(slice, 0);
        let b1 = *slice_index_get(slice, 1);
        b0 as u16 + (b1 as u16) * 0x100
    }

    /// Assemble a `u32` from 4 bytes, least-significant byte first.
    pub fn reduce_bit_slice_u32(slice: &[u8]) -> (r: u32)
        requires
            slice@.len() == 4,
        ensures
            r == spec_le_u32(slice@, 0),
    {
        let b0 = *slice_index_get(slice, 0);
        let b1 = *slice_index_get(slice, 1);
        let b2 = *slice_index_get(slice, 2);
        let b3 = *slice_index_get(slice, 3);
        b0 as u32 + (b1 as u32) * 0x100 + (b2 as u32) * 0x1_0000 + (b3 as u32) * 0x100_0000
    }

    /// Assemble an `i32` from 4 bytes, least-significant byte first, read as
    /// a two's-complement value.
    pub fn reduce_bit_slice_i32(slice: &[u8]) -> (r: i32)
        requires
            slice@.len() == 4,
        ensures
            r == spec_le_i32(slice@, 0),
    {
        let n = Self::reduce_bit_slice_u32(slice);
        proof {
            assert(n >= 0x8000_0000 ==> n as i32 == n - 0x1_0000_0000) by (bit_vector);
            assert(n < 0x8000_0000 ==> n as i32 == n) by (bit_vector);
        }
        n as i32
    }
}

/// A bit depth this decoder understands.
pub open spec fn spec_valid_depth(d: int) -> bool {
    d == 1 || d == 4 || d == 8 || d == 24 || d == 32
}

/// The buffer cannot hold the two fixed headers.
pub open spec fn spec_header_short(b: Seq<u8>) -> bool {
    b.len() < 54
}

/// The headers fit but the color table the data offset announces does not.
pub open spec fn spec_table_short(b: Seq<u8>) -> bool {
    !spec_header_short(b) && spec_table_bytes(b) > 0 && b.len() < 54 + spec_table_bytes(b)
}

/// The color-table region is present but not a whole number of entries.
pub open spec fn spec_table_misaligned(b: Seq<u8>) -> bool {
    !spec_header_short(b) && !spec_table_short(b) && spec_table_bytes(b) > 0 && spec_table_bytes(b)
        % 4 != 0
}

/// The headers and the color table could all be read.
pub open spec fn spec_headers_ok(b: Seq<u8>) -> bool {
    !spec_header_short(b) && !spec_table_short(b) && !spec_table_misaligned(b)
}

/// Whether every indexed pixel of the buffer refers to an existing
/// color-table entry; trivially true at the direct bit depths.
pub open spec fn spec_grid_ok(b: Seq<u8>) -> bool {
    let ih = spec_info_header(b);
    spec_indices_ok(
        b,
        spec_pixel_start(b),
        spec_abs(ih.width as int),
        ih.bits_per_pixel as int,
        spec_color_table(b).len() as int,
        spec_abs(ih.height as int),
    )
}

/// A grid with no columns has no pixels, however many rows are asked for.
proof fn lemma_grid_prefix_empty(
    b: Seq<u8>,
    start: int,
    depth: int,
    table: Seq<RGBColor>,
    k: int,
)
    requires
        depth == 1 || depth == 4 || depth == 8 || depth == 24 || depth == 32,
    ensures
        spec_grid_prefix(b, start, 0, depth, table, k) == Seq::<RGBColor>::empty(),
    decreases k,
{
    if k > 0 {
        lemma_grid_prefix_empty(b, start, depth, table, k - 1);
        assert(spec_row_count(b.len() as int, start, 0, depth, k - 1) == 0);
        assert(spec_grid_prefix(b, start, 0, depth, table, k) =~= Seq::<RGBColor>::empty());
    }
}

/// Once a row was found truncated, every later row is starved of bytes and
/// yields nothing: the grid of `k` rows equals the grid of `r + 1` rows.
proof fn lemma_grid_stops(
    b: Seq<u8>,
    start: int,
    w: int,
    depth: int,
    table: Seq<RGBColor>,
    r: int,
    k: int,
)
    requires
        depth == 1 || depth == 4 || depth == 8 || depth == 24 || depth == 32,
        w >= 1,
        start >= 0,
        0 <= r < k,
        spec_row_avail(b.len() as int, start, w, depth, r) < spec_padded_row_bytes(w, depth),
    ensures
        spec_grid_prefix(b, start, w, depth, table, k) == spec_grid_prefix(
            b,
            start,
            w,
            depth,
            table,
            r + 1,
        ),
        forall|r2: int|
            r < r2 < k ==> #[trigger] spec_row_count(b.len() as int, start, w, depth, r2) == 0,
    decreases k,
{
    let padded = spec_padded_row_bytes(w, depth);
    assert(spec_row_data_bytes(w, depth) >= 1) by (nonlinear_arith)
        requires
            w >= 1,
            depth == 1 || depth == 4 || depth == 8 || depth == 24 || depth == 32,
    ;
    assert(padded >= 1);
    if k == r + 1 {
    } else {
        lemma_grid_stops(b, start, w, depth, table, r, k - 1);
        let len = b.len() as int;
        assert((k - 1) * padded >= (r + 1) * padded) by (nonlinear_arith)
            requires
                k - 1 >= r + 1,
                padded >= 1,
        ;
        assert(len - (start + r * padded) < padded);
        assert((r + 1) * padded == r * padded + padded) by (nonlinear_arith);
        assert(len - (start + (k - 1) * padded) < 0);
        assert(spec_row_avail(len, start, w, depth, k - 1) == 0);
        if depth <= 8 {
            assert(spec_row_data_bytes(w, depth) >= 0);
            assert(spec_pixels_per_byte(depth) * 0 == 0);
            assert(spec_row_count(len, start, w, depth, k - 1) == 0);
        } else {
            assert(0int / (depth / 8) == 0) by (nonlinear_arith)
                requires
                    depth == 24 || depth == 32,
            ;
            assert(spec_row_count(len, start, w, depth, k - 1) == 0);
        }
        assert(spec_grid_prefix(b, start, w, depth, table, k) =~= spec_grid_prefix(
            b,
            start,
            w,
            depth,
            table,
            k - 1,
        ));
    }
}

/// A buffer that holds all of its declared scanlines decodes to a full
/// grid: exactly `k * w` pixels for `k` rows of width `w`. Only a
/// truncated buffer can yield a shorter grid.
pub proof fn lemma_full_buffer_full_grid(
    b: Seq<u8>,
    start: int,
    w: int,
    depth: int,
    table: Seq<RGBColor>,
    k: int,
)
    requires
        depth == 1 || depth == 4 || depth == 8 || depth == 24 || depth == 32,
        w >= 0,
        start >= 0,
        k >= 0,
        b.len() >= start + k * spec_padded_row_bytes(w, depth),
    ensures
        spec_grid_prefix(b, start, w, depth, table, k).len() == k * w,
    decreases k,
{
    let padded = spec_padded_row_bytes(w, depth);
    let row_data = spec_row_data_bytes(w, depth);
    let ppb = spec_pixels_per_byte(depth);
    if k > 0 {
        assert((k - 1) * padded + padded == k * padded) by (nonlinear_arith);
        if depth <= 8 {
            assert(ppb >= 1) by (nonlinear_arith)
                requires
                    ppb == 8int / depth,
                    depth == 1 || depth == 4 || depth == 8,
            ;
            assert(row_data == (w + ppb - 1) / ppb);
            assert(row_data >= 0);
            assert(padded >= row_data);
            assert(ppb * row_data >= w) by (nonlinear_arith)
                requires
                    ppb >= 1,
                    w >= 0,
                    row_data == (w + ppb - 1) / ppb,
            ;
        } else {
            let bpp = depth / 8;
            assert(bpp >= 1);
            assert(row_data == w * bpp);
            assert(row_data >= 0) by (nonlinear_arith)
                requires
                    w >= 0,
                    bpp >= 1,
                    row_data == w * bpp,
            ;
            assert(padded >= row_data);
            assert(padded / bpp >= w) by (nonlinear_arith)
                requires
                    bpp >= 1,
                    w >= 0,
                    padded >= w * bpp,
            ;
        }
        lemma_full_buffer_full_grid(b, start, w, depth, table, k - 1);
        assert(b.len() >= start + (k - 1) * padded + padded);
        assert(spec_row_avail(b.len() as int, start, w, depth, k - 1) == padded);
        assert(spec_row_count(b.len() as int, start, w, depth, k - 1) == w);
        assert((k - 1) * w + w == k * w) by (nonlinear_arith);
    } else {
        assert(k * w == 0) by (nonlinear_arith)
            requires
                k == 0,
        ;
    }
}

/// Row padding is skipped, never decoded: two equally long buffers that
/// agree on every data byte of every row — the first `row data` bytes of
/// each stored scanline — decode to the same pixel grid, whatever their
/// padding bytes hold.
pub proof fn lemma_padding_bytes_ignored(
    b1: Seq<u8>,
    b2: Seq<u8>,
    start: int,
    w: int,
    depth: int,
    table: Seq<RGBColor>,
    k: int,
)
    requires
        depth == 1 || depth == 4 || depth == 8 || depth == 24 || depth == 32,
        w >= 0,
        start >= 0,
        b1.len() == b2.len(),
        forall|r: int, t: int|
            0 <= r < k && 0 <= t < spec_row_data_bytes(w, depth) && start + r
                * spec_padded_row_bytes(w, depth) + t < b1.len() ==> b1[start + r
                * spec_padded_row_bytes(w, depth) + t] == #[trigger] b2[start + r
                * spec_padded_row_bytes(w, depth) + t],
    ensures
        spec_grid_prefix(b1, start, w, depth, table, k) == spec_grid_prefix(
            b2,
            start,
            w,
            depth,
            table,
            k,
        ),
    decreases k,
{
    if k > 0 {
        lemma_padding_bytes_ignored(b1, b2, start, w, depth, table, k - 1);
        let len = b1.len() as int;
        let padded = spec_padded_row_bytes(w, depth);
        let row_data = spec_row_data_bytes(w, depth);
        let row_start = start + (k - 1) * padded;
        let avail = spec_row_avail(len, start, w, depth, k - 1);
        let count = spec_row_count(len, start, w, depth, k - 1);
        let ppb = spec_pixels_per_byte(depth);
        if depth <= 8 {
            assert(ppb >= 1);
            assert(row_data == (w + ppb - 1) / ppb);
            assert(row_data >= 0);
        } else {
            let bpp = depth / 8;
            assert(bpp >= 1);
            assert(w * bpp >= 0) by (nonlinear_arith)
                requires
                    w >= 0,
                    bpp >= 1,
            ;
            assert(row_data >= 0);
            assert(0int / bpp == 0);
        }
        assert(avail >= 0);
        assert(spec_pixels_per_byte(depth) * 0 == 0);
        assert(row_start + avail <= len || count == 0);
        assert forall|c: int| 0 <= c < count implies #[trigger] spec_pixel_at(
            b1,
            start,
            w,
            depth,
            table,
            k - 1,
            c,
        ) == spec_pixel_at(b2, start, w, depth, table, k - 1, c) by {
            if depth <= 8 {
                let data = if avail <= row_data {
                    avail
                } else {
                    row_data
                };
                let t = c / ppb;
                assert(t < data) by (nonlinear_arith)
                    requires
                        c < ppb * data,
                        1 <= ppb,
                        0 <= data,
                        t == c / ppb,
                ;
                assert(t >= 0) by (nonlinear_arith)
                    requires
                        c >= 0,
                        ppb >= 1,
                        t == c / ppb,
                ;
                assert(0 <= t < row_data);
                assert(start + (k - 1) * padded + t < len);
                assert(b1[start + (k - 1) * padded + t] == b2[start + (k - 1) * padded + t]);
            } else {
                let bpp = depth / 8;
                assert(count <= avail / bpp);
                assert((c + 1) * bpp <= count * bpp && count * bpp <= avail) by (nonlinear_arith)
                    requires
                        0 <= c < count,
                        count <= avail / bpp,
                        bpp >= 1,
                        avail >= 0,
                ;
                assert(count * bpp <= row_data) by (nonlinear_arith)
                    requires
                        count <= w,
                        bpp >= 1,
                        row_data == w * bpp,
                ;
                assert((c + 1) * bpp == c * bpp + bpp) by (nonlinear_arith);
                let base = (k - 1) * padded + bpp * c;
                assert(bpp * c == c * bpp) by (nonlinear_arith);
                if depth == 24 {
                    assert(b1[start + (k - 1) * padded + (3 * c)] == b2[start + (k - 1) * padded + (
                    3 * c)]);
                    assert(b1[start + (k - 1) * padded + (3 * c + 1)] == b2[start + (k - 1) * padded
                        + (3 * c + 1)]);
                    assert(b1[start + (k - 1) * padded + (3 * c + 2)] == b2[start + (k - 1) * padded
                        + (3 * c + 2)]);
                } else {
                    assert(b1[start + (k - 1) * padded + (4 * c)] == b2[start + (k - 1) * padded + (
                    4 * c)]);
                    assert(b1[start + (k - 1) * padded + (4 * c + 1)] == b2[start + (k - 1) * padded
                        + (4 * c + 1)]);
                    assert(b1[start + (k - 1) * padded + (4 * c + 2)] == b2[start + (k - 1) * padded
                        + (4 * c + 2)]);
                    assert(b1[start + (k - 1) * padded + (4 * c + 3)] == b2[start + (k - 1) * padded
                        + (4 * c + 3)]);
                }
            }
        }
        assert(spec_row_pixels(b1, start, w, depth, table, k - 1) =~= spec_row_pixels(
            b2,
            start,
            w,
            depth,
            table,
            k - 1,
        ));
    }
}

/// Extract the color-table index at position `pos` of a byte: indices are
/// packed most-significant first within the byte.
fn extract_index(byte: u8, depth: u16, pos: u64) -> (r: u8)
    requires
        (depth == 1 && pos < 8) || (depth == 4 && pos < 2) || (depth == 8 && pos == 0),
    ensures
        r == spec_pixel_index(byte, depth as int, pos as int),
        (r as int) < spec_index_mask(depth as int),
{
    if depth == 8 {
        proof {
            assert(byte as int % 256 == byte);
            assert(byte as int / 1 == byte as int) by (nonlinear_arith);
            assert(byte == spec_pixel_index(byte, depth as int, pos as int));
        }
        byte
    } else if depth == 4 {
        if pos == 0 {
            proof {
                assert((byte / 16) % 16 == byte / 16) by (bit_vector);
                assert(byte / 16 == spec_pixel_index(byte, depth as int, pos as int));
            }
            byte / 16
        } else {
            proof {
                assert(byte as int / 1 == byte as int) by (nonlinear_arith);
                assert(byte % 16 == spec_pixel_index(byte, depth as int, pos as int));
            }
            byte % 16
        }
    } else {
        let d: u8 = if pos == 0 {
            128
        } else if pos == 1 {
            64
        } else if pos == 2 {
            32
        } else if pos == 3 {
            16
        } else if pos == 4 {
            8
        } else if pos == 5 {
            4
        } else if pos == 6 {
            2
        } else {
            1
        };
        proof {
            assert(d == spec_index_divisor(depth as int, pos as int));
            if pos == 7 {
                assert(byte as int / 1 == byte as int) by (nonlinear_arith);
            }
            assert((byte / d) % 2 == spec_pixel_index(byte, depth as int, pos as int));
        }
        (byte / d) % 2
    }
}

/// Decode the pixel region at an indexed bit depth (1, 4 or 8 bits per
/// pixel): each extracted index is looked up in the color table, and an
/// index past the table's end aborts the whole decode.
#[verifier::loop_isolation(false)]
#[verifier::rlimit(100)]
#[verifier::spinoff_prover]
fn decode_indexed(
    buffer: &Vec<u8>,
    start: usize,
    w_abs: u32,
    h_abs: u32,
    depth: u16,
    table: &Vec<RGBColor>,
) -> (r: Result<Vec<RGBColor>, BitMapDecodeError>)
    requires
        depth == 1 || depth == 4 || depth == 8,
        start <= buffer@.len(),
    ensures
        match r {
            Ok(pixels) => pixels@ == spec_grid_prefix(
                buffer@,
                start as int,
                w_abs as int,
                depth as int,
                table@,
                h_abs as int,
            ),
            Err(e) => e matches BitMapDecodeError::PaletteIndexOutOfRange { index: _, size }
                && size == table@.len(),
        },
        r is Ok <==> spec_indices_ok(
            buffer@,
            start as int,
            w_abs as int,
            depth as int,
            table@.len() as int,
            h_abs as int,
        ),
{
    let ghost b = buffer@;
    let ghost w = w_abs as int;
    let ghost d = depth as int;
    let len = buffer.len();
    let len64 = len as u64;
    let start64 = start as u64;
    let mut pixels: Vec<RGBColor> = Vec::new();
    if w_abs == 0 {
        proof {
            lemma_grid_prefix_empty(b, start as int, d, table@, h_abs as int);
        }
        return Ok(pixels);
    }
    let ppb: u64 = (8 / depth) as u64;
    let row_data: u64 = (w_abs as u64 + (ppb - 1)) / ppb;
    let padded: u64 = ((row_data + 3) / 4) * 4;
    proof {
        assert(ppb == spec_pixels_per_byte(d));
        assert(row_data == spec_row_data_bytes(w, d));
        assert(padded == spec_padded_row_bytes(w, d));
        assert(row_data >= 1) by (nonlinear_arith)
            requires
                w_abs >= 1,
                ppb == 8u64 / (depth as u64),
                depth == 1 || depth == 4 || depth == 8,
                row_data == ((w_abs + ppb - 1) as u64) / ppb,
        ;
        assert(padded >= row_data);
    }
    let mut r: u32 = 0;
    let mut pos: u64 = start64;
    let mut done: bool = false;
    while r < h_abs && !done
        invariant
            r <= h_abs,
            pixels@ == spec_grid_prefix(b, start as int, w, d, table@, r as int),
            spec_indices_ok(b, start as int, w, d, table@.len() as int, r as int),
            !done ==> pos == start64 + (r as int) * (padded as int) && pos <= len64,
            done ==> pixels@ == spec_grid_prefix(b, start as int, w, d, table@, h_abs as int)
                && spec_indices_ok(b, start as int, w, d, table@.len() as int, h_abs as int),
        decreases h_abs - r,
    {
        let avail: u64 = if len64 - pos < padded {
            len64 - pos
        } else {
            padded
        };
        proof {
            assert(avail == spec_row_avail(len as int, start as int, w, d, r as int));
        }
        let data: u64 = if avail < row_data {
            avail
        } else {
            row_data
        };
        proof {
            assert(ppb * data <= 8 * (row_data as int)) by (nonlinear_arith)
                requires
                    1 <= ppb <= 8,
                    0 <= data <= row_data,
            ;
        }
        let n64: u64 = {
            let t = ppb * data;
            if (w_abs as u64) < t {
                w_abs as u64
            } else {
                t
            }
        };
        proof {
            assert(n64 == spec_row_count(len as int, start as int, w, d, r as int));
        }
        let ghost row = spec_row_pixels(b, start as int, w, d, table@, r as int);
        let mut c: u64 = 0;
        while c < n64
            invariant
                c <= n64,
                pixels@ == spec_grid_prefix(b, start as int, w, d, table@, r as int) + row.take(
                    c as int,
                ),
                forall|cc: int|
                    0 <= cc < c ==> #[trigger] spec_index_at(b, start as int, w, d, r as int, cc)
                        < table@.len(),
            decreases n64 - c,
        {
            proof {
                assert(c / ppb < data) by (nonlinear_arith)
                    requires
                        c < ppb * data,
                        1 <= ppb,
                        0 <= data,
                ;
            }
            let byte_idx: u64 = pos + c / ppb;
            let byte: u8 = buffer[byte_idx as usize];
            let idx = extract_index(byte, depth, c % ppb);
            if idx as usize >= table.len() {
                proof {
                    assert(spec_index_at(b, start as int, w, d, r as int, c as int) == idx);
                    assert(!spec_indices_ok(
                        b,
                        start as int,
                        w,
                        d,
                        table@.len() as int,
                        h_abs as int,
                    ));
                }
                return Err(
                    BitMapDecodeError::PaletteIndexOutOfRange { index: idx, size: table.len() },
                );
            }
            pixels.push(table[idx as usize]);
            proof {
                assert(row[c as int] == spec_pixel_at(b, start as int, w, d, table@, r as int,
                    c as int,
                ));
                assert(row.take(c as int + 1) =~= row.take(c as int).push(row[c as int]));
                assert(spec_grid_prefix(b, start as int, w, d, table@, r as int) + row.take(
                    c as int + 1,
                ) =~= (spec_grid_prefix(b, start as int, w, d, table@, r as int) + row.take(
                    c as int,
                )).push(row[c as int]));
            }
            c = c + 1;
        }
        proof {
            assert(row.take(n64 as int) =~= row);
            assert(spec_grid_prefix(b, start as int, w, d, table@, r as int + 1)
                == spec_grid_prefix(b, start as int, w, d, table@, r as int) + row);
        }
        let partial = avail < padded;
        r = r + 1;
        if partial {
            done = true;
            proof {
                if r < h_abs {
                    lemma_grid_stops(b, start as int, w, d, table@, r as int - 1, h_abs as int);
                }
            }
        } else {
            proof {
                assert((r as int) * (padded as int) == (r as int - 1) * (padded as int) + padded)
                    by (nonlinear_arith);
            }
            pos = pos + padded;
        }
    }
    Ok(pixels)
}

/// Decode the pixel region at a direct bit depth (24 or 32 bits per
/// pixel): channel bytes are taken inline, Blue-Green-Red with alpha
/// forced to 0 at depth 24, Alpha-Blue-Green-Red at depth 32.
#[verifier::loop_isolation(false)]
#[verifier::rlimit(100)]
#[verifier::spinoff_prover]
fn decode_direct(buffer: &Vec<u8>, start: usize, w_abs: u32, h_abs: u32, depth: u16) -> (r: Vec<
    RGBColor,
>)
    requires
        depth == 24 || depth == 32,
        start <= buffer@.len(),
    ensures
        r@ == spec_grid_prefix(
            buffer@,
            start as int,
            w_abs as int,
            depth as int,
            spec_color_table(buffer@),
            h_abs as int,
        ),
{
    let ghost b = buffer@;
    let ghost w = w_abs as int;
    let ghost d = depth as int;
    let ghost table: Seq<RGBColor> = spec_color_table(b);
    let len = buffer.len();
    let len64 = len as u64;
    let start64 = start as u64;
    let mut pixels: Vec<RGBColor> = Vec::new();
    if w_abs == 0 {
        proof {
            lemma_grid_prefix_empty(b, start as int, d, table, h_abs as int);
        }
        return pixels;
    }
    let bpp: u64 = (depth / 8) as u64;
    proof {
        assert((w_abs as int) * (bpp as int) <= 0x1_0000_0000 * 4) by (nonlinear_arith)
            requires
                w_abs <= 0x1_0000_0000,
                bpp <= 4,
        ;
    }
    let row_data: u64 = (w_abs as u64) * bpp;
    let padded: u64 = ((row_data + 3) / 4) * 4;
    proof {
        assert(row_data == spec_row_data_bytes(w, d));
        assert(padded == spec_padded_row_bytes(w, d));
        assert(row_data >= 1) by (nonlinear_arith)
            requires
                row_data == (w_abs as u64) * bpp,
                w_abs >= 1,
                bpp >= 3,
        ;
        assert(padded >= row_data);
    }
    let mut r: u32 = 0;
    let mut pos: u64 = start64;
    let mut done: bool = false;
    while r < h_abs && !done
        invariant
            r <= h_abs,
            pixels@ == spec_grid_prefix(b, start as int, w, d, table, r as int),
            !done ==> pos == start64 + (r as int) * (padded as int) && pos <= len64,
            done ==> pixels@ == spec_grid_prefix(b, start as int, w, d, table, h_abs as int),
        decreases h_abs - r,
    {
        let avail: u64 = if len64 - pos < padded {
            len64 - pos
        } else {
            padded
        };
        proof {
            assert(avail == spec_row_avail(len as int, start as int, w, d, r as int));
        }
        let n64: u64 = {
            let t = avail / bpp;
            if (w_abs as u64) < t {
                w_abs as u64
            } else {
                t
            }
        };
        proof {
            assert(n64 == spec_row_count(len as int, start as int, w, d, r as int));
        }
        let ghost row = spec_row_pixels(b, start as int, w, d, table, r as int);
        let mut c: u64 = 0;
        while c < n64
            invariant
                c <= n64,
                pixels@ == spec_grid_prefix(b, start as int, w, d, table, r as int) + row.take(
                    c as int,
                ),
            decreases n64 - c,
        {
            proof {
                assert((c + 1) * bpp <= n64 * bpp) by (nonlinear_arith)
                    requires
                        c < n64,
                        bpp >= 1,
                ;
                assert(n64 * bpp <= avail) by (nonlinear_arith)
                    requires
                        n64 <= avail / bpp,
                        bpp >= 1,
                        avail >= 0,
                ;
                assert((c as int + 1) * (bpp as int) == (c as int) * (bpp as int) + bpp)
                    by (nonlinear_arith);
            }
            let base: u64 = pos + c * bpp;
            let pixel = if depth == 24 {
                RGBColor {
                    blue: buffer[base as usize],
                    green: buffer[(base + 1) as usize],
                    red: buffer[(base + 2) as usize],
                    alpha: 0,
                }
            } else {
                RGBColor {
                    alpha: buffer[base as usize],
                    blue: buffer[(base + 1) as usize],
                    green: buffer[(base + 2) as usize],
                    red: buffer[(base + 3) as usize],
                }
            };
            pixels.push(pixel);
            proof {
                assert(pixel == spec_pixel_at(b, start as int, w, d, table, r as int, c as int));
                assert(row[c as int] == spec_pixel_at(b, start as int, w, d, table, r as int,
                    c as int,
                ));
                assert(row.take(c as int + 1) =~= row.take(c as int).push(row[c as int]));
                assert(spec_grid_prefix(b, start as int, w, d, table, r as int) + row.take(
                    c as int + 1,
                ) =~= (spec_grid_prefix(b, start as int, w, d, table, r as int) + row.take(
                    c as int,
                )).push(row[c as int]));
            }
            c = c + 1;
        }
        proof {
            assert(row.take(n64 as int) =~= row);
        }
        let partial = avail < padded;
        r = r + 1;
        if partial {
            done = true;
            proof {
                if r < h_abs {
                    lemma_grid_stops(b, start as int, w, d, table, r as int - 1, h_abs as int);
                }
            }
        } else {
            proof {
                assert((r as int) * (padded as int) == (r as int - 1) * (padded as int) + padded)
                    by (nonlinear_arith);
            }
            pos = pos + padded;
        }
    }
    pixels
}

/// Read the little-endian `u16` at `off` of the buffer.
fn read_le_u16(buffer: &Vec<u8>, off: usize) -> (r: u16)
    requires
        off + 2 <= buffer.len(),
    ensures
        r == spec_le_u16(buffer@, off as int),
{
    buffer[off] as u16 + (buffer[off + 1] as u16) * 0x100
}

/// Read the little-endian `u32` at `off` of the buffer.
fn read_le_u32(buffer: &Vec<u8>, off: usize) -> (r: u32)
    requires
        off + 4 <= buffer.len(),
    ensures
        r == spec_le_u32(buffer@, off as int),
{
    buffer[off] as u32 + (buffer[off + 1] as u32) * 0x100 + (buffer[off + 2] as u32) * 0x1_0000 + (
    buffer[off + 3] as u32) * 0x100_0000
}

/// Read the little-endian two's-complement `i32` at `off` of the buffer.
fn read_le_i32(buffer: &Vec<u8>, off: usize) -> (r: i32)
    requires
        off + 4 <= buffer.len(),
    ensures
        r == spec_le_i32(buffer@, off as int),
{
    let n = read_le_u32(buffer, off);
    proof {
        assert(n >= 0x8000_0000 ==> n as i32 == n - 0x1_0000_0000) by (bit_vector);
        assert(n < 0x8000_0000 ==> n as i32 == n) by (bit_vector);
    }
    n as i32
}

/// Parse the 14-byte file header starting at byte 0.
fn parse_header(buffer: &Vec<u8>) -> (r: BitMapHeader)
    requires
        buffer@.len() >= 54,
    ensures
        r == spec_header(buffer@),
{
    BitMapHeader {
        signature: read_le_u16(buffer, 0),
        file_size: read_le_u32(buffer, 2),
        reserved: read_le_u32(buffer, 6),
        data_offset: read_le_u32(buffer, 10),
    }
}

/// Parse the 40-byte info header starting at byte 14.
fn parse_info_header(buffer: &Vec<u8>) -> (r: BitMapInfoHeader)
    requires
        buffer@.len() >= 54,
    ensures
        r == spec_info_header(buffer@),
{
    BitMapInfoHeader {
        size: read_le_u32(buffer, 14),
        width: read_le_i32(buffer, 18),
        height: read_le_i32(buffer, 22),
        planes: read_le_u16(buffer, 26),
        bits_per_pixel: read_le_u16(buffer, 28),
        compression: read_le_u32(buffer, 30),
        image_size: read_le_u32(buffer, 34),
        x_pixels_per_meter: read_le_i32(buffer, 38),
        y_pixels_per_meter: read_le_i32(buffer, 42),
        colors_used: read_le_u32(buffer, 46),
        important_colors: read_le_u32(buffer, 50),
    }
}

/// Read the color table: `count` consecutive 4-byte Blue, Green, Red,
/// Reserved groups starting right after the headers.
fn parse_color_table(buffer: &Vec<u8>, count: usize) -> (r: Vec<RGBColor>)
    requires
        54 + 4 * count <= buffer.len(),
    ensures
        r@.len() == count,
        forall|i: int| 0 <= i < count ==> r@[i] == spec_table_entry(buffer@, i),
{
    let mut entries: Vec<RGBColor> = Vec::new();
    let mut i: usize = 0;
    while i < count
        invariant
            i <= count,
            54 + 4 * count <= buffer.len(),
            entries@.len() == i,
            forall|j: int| 0 <= j < i ==> entries@[j] == spec_table_entry(buffer@, j),
        decreases count - i,
    {
        let base = 54 + 4 * i;
        entries.push(
            RGBColor {
                blue: buffer[base],
                green: buffer[base + 1],
                red: buffer[base + 2],
                alpha: buffer[base + 3],
            },
        );
        i = i + 1;
    }
    entries
}

/// The absolute value of a declared width or height, without overflow even
/// at the most negative value.
fn abs_i32(v: i32) -> (r: u32)
    ensures
        r == spec_abs(v as int),
{
    if v >= 0 {
        v as u32
    } else if v == i32::MIN {
        0x8000_0000u32
    } else {
        (-v) as u32
    }
}

impl BitMapRaw {
    /// Decode a whole bitmap from a byte buffer: both headers, the color
    /// table, and the pixel grid, exactly as `spec_header`,
    /// `spec_info_header`, `spec_color_table` and `spec_pixel_grid` describe
    /// them.
    ///
    /// Each error variant comes on exactly the inputs its clause below
    /// states, checked in the order the regions are read: headers first,
    /// then the color table, then the bit depth, then the indexed pixels. A
    /// buffer that merely ends early in the pixel region is not an error:
    /// the grid is then shorter than width times height.
    pub fn from_bytes(buffer: &Vec<u8>) -> (r: Result<BitMapRaw, BitMapDecodeError>)
        ensures
            (r matches Err(BitMapDecodeError::HeaderTooShort) <==> spec_header_short(buffer@)),
            (r matches Err(BitMapDecodeError::ColorTableTooShort) <==> spec_table_short(buffer@)),
            (r matches Err(BitMapDecodeError::ColorTableMisaligned) <==> spec_table_misaligned(
                buffer@,
            )),
            (r matches Err(BitMapDecodeError::UnsupportedBitDepth16) <==> spec_headers_ok(buffer@)
                && spec_info_header(buffer@).bits_per_pixel == 16),
            (r matches Err(BitMapDecodeError::UnrecognizedBitDepth(_)) <==> spec_headers_ok(
                buffer@,
            ) && spec_info_header(buffer@).bits_per_pixel != 16 && !spec_valid_depth(
                spec_info_header(buffer@).bits_per_pixel as int,
            )),
            r matches Err(BitMapDecodeError::UnrecognizedBitDepth(d)) ==> d == spec_info_header(
                buffer@,
            ).bits_per_pixel,
            (r matches Err(BitMapDecodeError::PaletteIndexOutOfRange { index: _, size: _ })
                <==> spec_headers_ok(buffer@) && spec_valid_depth(
                spec_info_header(buffer@).bits_per_pixel as int,
            ) && !spec_grid_ok(buffer@)),
            r matches Err(BitMapDecodeError::PaletteIndexOutOfRange { index: _, size })
                ==> size == spec_color_table(buffer@).len(),
            (r is Ok <==> spec_headers_ok(buffer@) && spec_valid_depth(
                spec_info_header(buffer@).bits_per_pixel as int,
            ) && spec_grid_ok(buffer@)),
            r matches Ok(bmp) ==> bmp.header == spec_header(buffer@) && bmp.info_header
                == spec_info_header(buffer@) && bmp.color_table.pixels@ == spec_color_table(buffer@)
                && bmp.pixel_data.pixels@ == spec_pixel_grid(buffer@),
    {
        let ghost b = buffer@;
        let len = buffer.len();
        if len < 54 {
            return Err(BitMapDecodeError::HeaderTooShort);
        }
        let header = parse_header(buffer);
        let info_header = parse_info_header(buffer);
        let data_offset = header.data_offset as u64;
        let mut table_vec: Vec<RGBColor> = Vec::new();
        if data_offset > 54 {
            let tb = data_offset - 54;
            if (len as u64) < data_offset {
                return Err(BitMapDecodeError::ColorTableTooShort);
            }
            if tb % 4 != 0 {
                return Err(BitMapDecodeError::ColorTableMisaligned);
            }
            let count = (tb / 4) as usize;
            proof {
                assert(4 * ((tb as int) / 4) == tb as int);
            }
            table_vec = parse_color_table(buffer, count);
            proof {
                assert(table_vec@ =~= spec_color_table(b));
            }
        } else {
            proof {
                assert(table_vec@ =~= spec_color_table(b));
            }
        }
        let start: usize = if data_offset > 54 {
            data_offset as usize
        } else {
            54
        };
        proof {
            assert(start == spec_pixel_start(b));
        }
        let depth = info_header.bits_per_pixel;
        let w_abs = abs_i32(info_header.width);
        let h_abs = abs_i32(info_header.height);
        let pixels: Vec<RGBColor> = if depth == 1 || depth == 4 || depth == 8 {
            match decode_indexed(buffer, start, w_abs, h_abs, depth, &table_vec) {
                Ok(p) => p,
                Err(e) => {
                    return Err(e);
                },
            }
        } else if depth == 16 {
            return Err(BitMapDecodeError::UnsupportedBitDepth16);
        } else if depth == 24 || depth == 32 {
            decode_direct(buffer, start, w_abs, h_abs, depth)
        } else {
            return Err(BitMapDecodeError::UnrecognizedBitDepth(depth));
        };
        Ok(
            BitMapRaw {
                header,
                info_header,
                color_table: BitMapPixelData { pixels: table_vec },
                pixel_data: BitMapPixelData { pixels },
            },
        )
    }
}

} // verus!
