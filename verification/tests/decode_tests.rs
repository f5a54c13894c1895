use bmp_view::bitmap::BitMapRaw;
use bmp_view::color::RGBColor;
use bmp_view::decode::BitMapDecodeError;

fn push_u16(buf: &mut Vec<u8>, v: u16) {
    buf.push((v & 0xFF) as u8);
    buf.push((v >> 8) as u8);
}

fn push_u32(buf: &mut Vec<u8>, v: u32) {
    buf.push((v & 0xFF) as u8);
    buf.push(((v >> 8) & 0xFF) as u8);
    buf.push(((v >> 16) & 0xFF) as u8);
    buf.push(((v >> 24) & 0xFF) as u8);
}

fn push_i32(buf: &mut Vec<u8>, v: i32) {
    push_u32(buf, v as u32);
}

/// A minimal bitmap buffer: headers, an optional color table of 4-byte
/// Blue-Green-Red-Reserved entries, then raw pixel bytes.
fn bmp_buffer(width: i32, height: i32, depth: u16, table: &[[u8; 4]], pixel_bytes: &[u8]) -> Vec<u8> {
    let data_offset = 54 + 4 * table.len() as u32;
    let mut buf: Vec<u8> = Vec::new();
    push_u16(&mut buf, 0x4D42); // "BM"
    push_u32(&mut buf, data_offset + pixel_bytes.len() as u32); // file size
    push_u32(&mut buf, 0); // reserved
    push_u32(&mut buf, data_offset);
    push_u32(&mut buf, 40); // info header size
    push_i32(&mut buf, width);
    push_i32(&mut buf, height);
    push_u16(&mut buf, 1); // planes
    push_u16(&mut buf, depth);
    push_u32(&mut buf, 0); // compression
    push_u32(&mut buf, 0); // image size
    push_i32(&mut buf, 2835);
    push_i32(&mut buf, 2835);
    push_u32(&mut buf, 0); // colors used
    push_u32(&mut buf, 0); // important colors
    for entry in table {
        buf.extend_from_slice(entry);
    }
    buf.extend_from_slice(pixel_bytes);
    buf
}

fn rgba(red: u8, green: u8, blue: u8, alpha: u8) -> RGBColor {
    RGBColor { red, green, blue, alpha }
}

#[test]
fn header_fields_parse_little_endian() {
    let buf = bmp_buffer(2, 1, 24, &[], &[0, 0, 0, 255, 255, 255, 0, 0]);
    let bmp = BitMapRaw::from_bytes(&buf).unwrap();
    assert_eq!(bmp.header.signature, 0x4D42);
    assert_eq!(bmp.header.data_offset, 54);
    assert_eq!(bmp.info_header.size, 40);
    assert_eq!(bmp.info_header.width, 2);
    assert_eq!(bmp.info_header.height, 1);
    assert_eq!(bmp.info_header.planes, 1);
    assert_eq!(bmp.info_header.bits_per_pixel, 24);
    assert_eq!(bmp.info_header.x_pixels_per_meter, 2835);
}

#[test]
fn negative_dimensions_parse_signed() {
    let buf = bmp_buffer(-2, -1, 24, &[], &[0, 0, 0, 255, 255, 255, 0, 0]);
    let bmp = BitMapRaw::from_bytes(&buf).unwrap();
    assert_eq!(bmp.info_header.width, -2);
    assert_eq!(bmp.info_header.height, -1);
    assert_eq!(bmp.pixel_data.pixels.len(), 2);
}

#[test]
fn decode_depth_1_uses_table_msb_first() {
    // Two pixels in one byte: bit 7 then bit 6, so 0x80 reads as [1, 0].
    let table = [[0, 0, 0, 0], [255, 255, 255, 0]];
    let buf = bmp_buffer(2, 1, 1, &table, &[0x80, 0, 0, 0]);
    let bmp = BitMapRaw::from_bytes(&buf).unwrap();
    assert_eq!(bmp.color_table.pixels.len(), 2);
    assert_eq!(bmp.pixel_data.pixels, vec![rgba(255, 255, 255, 0), rgba(0, 0, 0, 0)]);
}

#[test]
fn decode_depth_4_high_nibble_first() {
    // Width 3: indices 0, 1 from the first byte, 2 from the second's high
    // nibble; the low nibble of the second byte is row padding bits.
    let table = [[10, 11, 12, 13], [20, 21, 22, 23], [30, 31, 32, 33]];
    let buf = bmp_buffer(3, 1, 4, &table, &[0x01, 0x2F, 0, 0]);
    let bmp = BitMapRaw::from_bytes(&buf).unwrap();
    assert_eq!(
        bmp.pixel_data.pixels,
        vec![rgba(12, 11, 10, 13), rgba(22, 21, 20, 23), rgba(32, 31, 30, 33)]
    );
}

#[test]
fn decode_depth_8_one_byte_per_pixel() {
    let table = [[1, 2, 3, 4], [5, 6, 7, 8]];
    let buf = bmp_buffer(2, 1, 8, &table, &[1, 0, 0, 0]);
    let bmp = BitMapRaw::from_bytes(&buf).unwrap();
    assert_eq!(bmp.pixel_data.pixels, vec![rgba(7, 6, 5, 8), rgba(3, 2, 1, 4)]);
}

#[test]
fn decode_depth_24_bgr_alpha_zero() {
    let buf = bmp_buffer(2, 1, 24, &[], &[1, 2, 3, 4, 5, 6, 0, 0]);
    let bmp = BitMapRaw::from_bytes(&buf).unwrap();
    assert_eq!(bmp.pixel_data.pixels, vec![rgba(3, 2, 1, 0), rgba(6, 5, 4, 0)]);
}

#[test]
fn decode_depth_32_abgr() {
    let buf = bmp_buffer(1, 1, 32, &[], &[0x11, 0x22, 0x33, 0x44]);
    let bmp = BitMapRaw::from_bytes(&buf).unwrap();
    assert_eq!(bmp.pixel_data.pixels, vec![rgba(0x44, 0x33, 0x22, 0x11)]);
}

#[test]
fn row_padding_bytes_are_skipped() {
    // Width 1 at depth 24: 3 data bytes and 1 padding byte per row. The
    // nonzero padding bytes must not appear as pixels.
    let buf = bmp_buffer(1, 2, 24, &[], &[1, 2, 3, 0xEE, 4, 5, 6, 0xDD]);
    let bmp = BitMapRaw::from_bytes(&buf).unwrap();
    assert_eq!(bmp.pixel_data.pixels, vec![rgba(3, 2, 1, 0), rgba(6, 5, 4, 0)]);
}

#[test]
fn padding_content_does_not_change_the_grid() {
    let quiet = bmp_buffer(1, 2, 24, &[], &[1, 2, 3, 0x00, 4, 5, 6, 0x00]);
    let noisy = bmp_buffer(1, 2, 24, &[], &[1, 2, 3, 0xAB, 4, 5, 6, 0xCD]);
    let a = BitMapRaw::from_bytes(&quiet).unwrap();
    let b = BitMapRaw::from_bytes(&noisy).unwrap();
    assert_eq!(a.pixel_data.pixels, b.pixel_data.pixels);
}

#[test]
fn end_to_end_two_by_two_24_bit() {
    // data_offset points directly past both headers; bottom row first:
    // black then white, top row red then blue, each row padded to 8 bytes.
    let buf = bmp_buffer(
        2,
        2,
        24,
        &[],
        &[0, 0, 0, 255, 255, 255, 0, 0, 0, 0, 255, 255, 0, 0, 0, 0],
    );
    let bmp = BitMapRaw::from_bytes(&buf).unwrap();
    assert_eq!(bmp.header.data_offset, 54);
    assert_eq!(bmp.color_table.pixels.len(), 0);
    assert_eq!(
        bmp.pixel_data.pixels,
        vec![
            rgba(0, 0, 0, 0),       // black
            rgba(255, 255, 255, 0), // white
            rgba(255, 0, 0, 0),     // red
            rgba(0, 0, 255, 0),     // blue
        ]
    );
}

#[test]
fn truncated_pixel_data_stops_early() {
    // Two rows declared, only the first present: decoding keeps what is
    // there and stops without an error.
    let buf = bmp_buffer(2, 2, 24, &[], &[1, 2, 3, 4, 5, 6, 0, 0]);
    let bmp = BitMapRaw::from_bytes(&buf).unwrap();
    assert_eq!(bmp.pixel_data.pixels.len(), 2);
}

#[test]
fn truncated_row_keeps_whole_pixels_only() {
    // 5 bytes of a 24-bit row: one whole pixel and a discarded partial
    // chunk.
    let buf = bmp_buffer(2, 1, 24, &[], &[1, 2, 3, 4, 5]);
    let bmp = BitMapRaw::from_bytes(&buf).unwrap();
    assert_eq!(bmp.pixel_data.pixels, vec![rgba(3, 2, 1, 0)]);
}

#[test]
fn error_header_too_short() {
    let buf: Vec<u8> = vec![0x42, 0x4D, 0, 0, 0, 0, 0, 0, 0, 0];
    assert!(matches!(BitMapRaw::from_bytes(&buf), Err(BitMapDecodeError::HeaderTooShort)));
}

#[test]
fn error_color_table_too_short() {
    let mut buf = bmp_buffer(1, 1, 8, &[], &[]);
    // Rewrite the data offset to point past the end of the buffer.
    buf[10] = 200;
    assert!(matches!(BitMapRaw::from_bytes(&buf), Err(BitMapDecodeError::ColorTableTooShort)));
}

#[test]
fn error_color_table_misaligned() {
    let mut buf = bmp_buffer(1, 1, 8, &[], &[0, 0, 0, 0, 0, 0, 0]);
    // A data offset of 57 leaves 3 bytes of table: not whole entries.
    buf[10] = 57;
    assert!(matches!(BitMapRaw::from_bytes(&buf), Err(BitMapDecodeError::ColorTableMisaligned)));
}

#[test]
fn error_depth_16_unsupported() {
    let buf = bmp_buffer(1, 1, 16, &[], &[0, 0, 0, 0]);
    assert!(matches!(BitMapRaw::from_bytes(&buf), Err(BitMapDecodeError::UnsupportedBitDepth16)));
}

#[test]
fn error_depth_unrecognized() {
    let buf = bmp_buffer(1, 1, 7, &[], &[0, 0, 0, 0]);
    assert!(matches!(BitMapRaw::from_bytes(&buf), Err(BitMapDecodeError::UnrecognizedBitDepth(7))));
}

#[test]
fn error_palette_index_out_of_range() {
    let table = [[1, 2, 3, 4]];
    let buf = bmp_buffer(1, 1, 8, &table, &[5, 0, 0, 0]);
    assert!(matches!(
        BitMapRaw::from_bytes(&buf),
        Err(BitMapDecodeError::PaletteIndexOutOfRange { index: 5, size: 1 })
    ));
}

#[test]
fn reduce_bit_slices_little_endian() {
    assert_eq!(BitMapRaw::reduce_bit_slice_u16(&[0x34, 0x12]), 0x1234);
    assert_eq!(BitMapRaw::reduce_bit_slice_u32(&[0x78, 0x56, 0x34, 0x12]), 0x12345678);
    assert_eq!(BitMapRaw::reduce_bit_slice_i32(&[0xFF, 0xFF, 0xFF, 0xFF]), -1);
    assert_eq!(BitMapRaw::reduce_bit_slice_i32(&[0xFE, 0xFF, 0xFF, 0xFF]), -2);
    assert_eq!(BitMapRaw::reduce_bit_slice_i32(&[0x02, 0x00, 0x00, 0x00]), 2);
}

#[test]
fn from_table_reads_palette_entry() {
    let table = [[9, 8, 7, 6], [1, 2, 3, 4]];
    let buf = bmp_buffer(1, 1, 8, &table, &[1, 0, 0, 0]);
    let bmp = BitMapRaw::from_bytes(&buf).unwrap();
    let c = RGBColor::from_table(&bmp.color_table, 1);
    assert_eq!(c, rgba(3, 2, 1, 4));
}
